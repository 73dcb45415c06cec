//! The instructions of function composition: setting up the system,
//! creating and running chains, and checking and running aggregations.

use vstd::prelude::*;
use crate::error::{ValenceError, FrameworkError, ProgramFailure};
use crate::pubkey::Pubkey;
use crate::runtime::clock_get;
use crate::text::{owned, byte_len, str_byte_len};
use crate::functions::execution::{FunctionChain, FunctionStep, ExecutionMode, ChainMetadata, AggregationRecord, AggregationMode};

pub use crate::functions::execution::FunctionCompositionState;

verus! {

/// The input of a composed function.
#[derive(Debug)]
pub struct FunctionInput {
    pub data: Vec<u8>,
    pub version: String,
}

/// The output of a composed function.
#[derive(Debug)]
pub struct FunctionOutput {
    pub data: Vec<u8>,
    pub version: String,
}

/// The result of running a chain.
#[derive(Debug)]
pub struct CompositionResult {
    pub success: bool,
    pub step_results: Vec<StepResult>,
    pub final_output: FunctionOutput,
    pub execution_time_us: u64,
}

/// The result of one step.
#[derive(Debug)]
pub struct StepResult {
    pub step_index: u32,
    pub function_hash: String,
    pub success: bool,
    pub output: FunctionOutput,
    pub execution_time_us: u64,
    pub error_message: Option<String>,
}

/// The result of running an aggregation.
#[derive(Debug)]
pub struct AggregationResult {
    pub success: bool,
    pub input_results: Vec<AggregationInputResult>,
    pub aggregated_output: FunctionOutput,
    pub execution_time_us: u64,
}

/// The result of one input function of an aggregation.
#[derive(Debug)]
pub struct AggregationInputResult {
    pub input_index: u32,
    pub function_hash: String,
    pub success: bool,
    pub output: FunctionOutput,
    pub execution_time_us: u64,
}

/// The time charged per step, in microseconds.
pub const STEP_TIME_US: u64 = 1000;

/// The abstract value of a step or input result: its index, function,
/// success, output data and version, and time.
pub type ResultEntryView = (u32, Seq<char>, bool, Seq<u8>, Seq<char>, u64);

/// The abstract value of a step result.
pub open spec fn step_view(r: StepResult) -> ResultEntryView {
    (r.step_index, r.function_hash@, r.success, r.output.data@, r.output.version@, r.execution_time_us)
}

/// The abstract value of an input result.
pub open spec fn input_result_view(r: AggregationInputResult) -> ResultEntryView {
    (r.input_index, r.function_hash@, r.success, r.output.data@, r.output.version@, r.execution_time_us)
}

/// The result recorded for the step at index `i` running `hash`: a success
/// with an empty output of version `1.0.0`, taking 1000 microseconds.
pub open spec fn simulated_entry(i: int, hash: Seq<char>) -> ResultEntryView {
    (i as u32, hash, true, seq![], "1.0.0"@, STEP_TIME_US)
}

/// The checks of chain creation: an id of 1 to 64 bytes and 1 to 50 steps.
pub open spec fn chain_check(chain_id: Seq<char>, step_count: nat) -> Result<(), ValenceError> {
    if chain_id.len() == 0 {
        Err(ValenceError::FunctionEmptyChainId)
    } else if byte_len(chain_id) > 64 {
        Err(ValenceError::FunctionChainIdTooLong)
    } else if step_count == 0 {
        Err(ValenceError::FunctionEmptyFunctionSteps)
    } else if step_count > 50 {
        Err(ValenceError::FunctionTooManySteps)
    } else {
        Ok(())
    }
}

/// The checks of aggregation creation: an id of 1 to 64 bytes and 1 to 20
/// input functions.
pub open spec fn aggregation_check(aggregation_id: Seq<char>, input_count: nat) -> Result<(), ValenceError> {
    if aggregation_id.len() == 0 {
        Err(ValenceError::FunctionEmptyAggregationId)
    } else if byte_len(aggregation_id) > 64 {
        Err(ValenceError::FunctionAggregationIdTooLong)
    } else if input_count == 0 {
        Err(ValenceError::FunctionEmptyInputFunctions)
    } else if input_count > 20 {
        Err(ValenceError::FunctionTooManyInputFunctions)
    } else {
        Ok(())
    }
}

/// One more, saturating.
pub open spec fn bumped(n: u64) -> u64 {
    if n == u64::MAX { u64::MAX } else { (n + 1) as u64 }
}

impl FunctionInput {
    /// An input of the data and version.
    pub fn new(data: Vec<u8>, version: String) -> (r: FunctionInput)
        ensures
            r == (FunctionInput { data, version }),
    {
        FunctionInput { data, version }
    }
}

impl FunctionOutput {
    /// An output of the data and version.
    pub fn new(data: Vec<u8>, version: String) -> (r: FunctionOutput)
        ensures
            r == (FunctionOutput { data, version }),
    {
        FunctionOutput { data, version }
    }
}

/// An empty output of version `1.0.0`.
fn empty_output() -> (r: FunctionOutput)
    ensures
        r.data@.len() == 0,
        r.version@ == "1.0.0"@,
{
    FunctionOutput::new(Vec::new(), owned("1.0.0"))
}

/// Sets up the composition system at version 1 with nothing counted.
pub fn initialize(composition_state: &mut FunctionCompositionState, authority: Pubkey, bump: u8) -> (r: Result<(), ValenceError>)
    ensures
        r is Ok,
        final(composition_state).authority == authority,
        final(composition_state).total_compositions == 0,
        final(composition_state).total_chains == 0,
        final(composition_state).total_aggregations == 0,
        final(composition_state).version == 1,
        final(composition_state).bump == bump,
        final(composition_state)._reserved@ == Seq::new(64, |i: int| 0u8),
{
    composition_state.authority = authority;
    composition_state.total_compositions = 0;
    composition_state.total_chains = 0;
    composition_state.total_aggregations = 0;
    composition_state.version = 1;
    composition_state.bump = bump;
    composition_state._reserved = [0u8; 64];
    assert(composition_state._reserved@ =~= Seq::new(64, |i: int| 0u8));
    Ok(())
}

/// Checks a chain's id and number of steps: see `chain_check`.
pub fn check_chain(chain_id: &String, step_count: usize) -> (r: Result<(), ValenceError>)
    ensures
        r == chain_check(chain_id@, step_count as nat),
{
    if chain_id.as_str().is_empty() {
        return Err(ValenceError::FunctionEmptyChainId);
    }
    if str_byte_len(chain_id) > 64 {
        return Err(ValenceError::FunctionChainIdTooLong);
    }
    if step_count == 0 {
        return Err(ValenceError::FunctionEmptyFunctionSteps);
    }
    if step_count > 50 {
        return Err(ValenceError::FunctionTooManySteps);
    }
    Ok(())
}

/// Creates a chain at time `now`: see `chain_check` for when it is refused.
/// The chain is active and has not run; the system counts one more
/// composition and chain (saturating).
pub fn create_function_chain_at(composition_state: &mut FunctionCompositionState, function_chain: &mut FunctionChain, chain_id: String,
    function_steps: Vec<FunctionStep>, execution_mode: ExecutionMode, bump: u8, now: i64) -> (r: Result<(), ValenceError>)
    ensures
        r == chain_check(chain_id@, function_steps@.len()),
        r is Err ==> *final(composition_state) == *old(composition_state) && *final(function_chain) == *old(function_chain),
        r is Ok ==> *final(function_chain) == (FunctionChain {
                chain_id,
                function_steps,
                execution_mode,
                created_at: now,
                last_executed: 0,
                execution_count: 0,
                is_active: true,
                bump,
                ..*old(function_chain)
            })
            && *final(composition_state) == (FunctionCompositionState {
                total_compositions: bumped(old(composition_state).total_compositions),
                total_chains: bumped(old(composition_state).total_chains),
                ..*old(composition_state)
            }),
{
    match check_chain(&chain_id, function_steps.len()) {
        Ok(()) => {}
        Err(e) => { return Err(e); }
    }
    function_chain.chain_id = chain_id;
    function_chain.function_steps = function_steps;
    function_chain.execution_mode = execution_mode;
    function_chain.created_at = now;
    function_chain.last_executed = 0;
    function_chain.execution_count = 0;
    function_chain.is_active = true;
    function_chain.bump = bump;
    composition_state.total_compositions = composition_state.total_compositions.saturating_add(1);
    composition_state.total_chains = composition_state.total_chains.saturating_add(1);
    Ok(())
}

/// Creates a chain as `create_function_chain_at` does, at the clock's time;
/// refused with `UnsupportedSysvar` first where the clock cannot be read.
pub fn create_function_chain(composition_state: &mut FunctionCompositionState, function_chain: &mut FunctionChain, chain_id: String,
    function_steps: Vec<FunctionStep>, execution_mode: ExecutionMode, bump: u8) -> (r: Result<(), ProgramFailure>)
    ensures
        r is Err ==> *final(composition_state) == *old(composition_state) && *final(function_chain) == *old(function_chain),
        r matches Err(ProgramFailure::Kernel(e)) ==> Err::<(), ValenceError>(e) == chain_check(chain_id@, function_steps@.len()),
        r matches Err(e) ==> e == ProgramFailure::Framework(FrameworkError::UnsupportedSysvar) || e is Kernel,
        chain_check(chain_id@, function_steps@.len()) is Err ==> r is Err,
        r is Ok ==> chain_check(chain_id@, function_steps@.len()) is Ok
            && final(function_chain).chain_id == chain_id && final(function_chain).function_steps == function_steps
            && final(function_chain).is_active && final(function_chain).execution_count == 0
            && *final(composition_state) == (FunctionCompositionState {
                total_compositions: bumped(old(composition_state).total_compositions),
                total_chains: bumped(old(composition_state).total_chains),
                ..*old(composition_state)
            }),
{
    let now = match clock_get() {
        Some(c) => c.unix_timestamp,
        None => { return Err(ProgramFailure::Framework(FrameworkError::UnsupportedSysvar)); }
    };
    match create_function_chain_at(composition_state, function_chain, chain_id, function_steps, execution_mode, bump, now) {
        Ok(()) => Ok(()),
        Err(e) => Err(ProgramFailure::Kernel(e)),
    }
}

/// Runs a chain at time `now`: refused with `FunctionChainInactive` for an
/// inactive chain; otherwise each step succeeds with an empty output in
/// 1000 microseconds, the chain counts one more run (saturating) and
/// records the time.
pub fn execute_function_chain_at(function_chain: &mut FunctionChain, _input: &FunctionInput, now: i64) -> (r: Result<CompositionResult, ValenceError>)
    requires
        old(function_chain).function_steps@.len() * 1000 <= u64::MAX,
    ensures
        !old(function_chain).is_active ==> r == Err::<CompositionResult, ValenceError>(ValenceError::FunctionChainInactive)
            && *final(function_chain) == *old(function_chain),
        old(function_chain).is_active ==> (r matches Ok(res)
            && res.success
            && res.step_results@.len() == old(function_chain).function_steps@.len()
            && (forall|i: int| 0 <= i < res.step_results@.len() ==> step_view(#[trigger] res.step_results@[i]) == simulated_entry(i, old(function_chain).function_steps@[i].function_hash@))
            && (forall|i: int| 0 <= i < res.step_results@.len() ==> (#[trigger] res.step_results@[i]).error_message is None)
            && res.final_output.data@.len() == 0 && res.final_output.version@ == "1.0.0"@
            && res.execution_time_us == old(function_chain).function_steps@.len() * 1000
            && *final(function_chain) == (FunctionChain { execution_count: bumped(old(function_chain).execution_count), last_executed: now, ..*old(function_chain) })),
{
    if !function_chain.is_active {
        return Err(ValenceError::FunctionChainInactive);
    }
    let n = function_chain.function_steps.len();
    let mut step_results: Vec<StepResult> = Vec::new();
    let mut total_time: u64 = 0;
    let mut i: usize = 0;
    while i < n
        invariant
            i <= n,
            n == function_chain.function_steps@.len(),
            n * 1000 <= u64::MAX,
            step_results@.len() == i,
            total_time == i * 1000,
            forall|j: int| 0 <= j < i ==> step_view(#[trigger] step_results@[j]) == simulated_entry(j, function_chain.function_steps@[j].function_hash@),
            forall|j: int| 0 <= j < i ==> (#[trigger] step_results@[j]).error_message is None,
        decreases n - i,
    {
        let r = StepResult {
            step_index: i as u32,
            function_hash: function_chain.function_steps[i].function_hash.clone(),
            success: true,
            output: empty_output(),
            execution_time_us: STEP_TIME_US,
            error_message: None,
        };
        assert(i * 1000 + 1000 <= n * 1000) by (nonlinear_arith)
            requires i < n;
        total_time = total_time + r.execution_time_us;
        step_results.push(r);
        i += 1;
    }
    function_chain.execution_count = function_chain.execution_count.saturating_add(1);
    function_chain.last_executed = now;
    Ok(CompositionResult { success: true, step_results, final_output: empty_output(), execution_time_us: total_time })
}

/// Runs a chain as `execute_function_chain_at` does, at the clock's time;
/// refused with `UnsupportedSysvar` first where the clock cannot be read.
pub fn execute_function_chain(function_chain: &mut FunctionChain, input: &FunctionInput) -> (r: Result<CompositionResult, ProgramFailure>)
    requires
        old(function_chain).function_steps@.len() * 1000 <= u64::MAX,
    ensures
        r is Err ==> *final(function_chain) == *old(function_chain),
        r matches Err(e) ==> e == ProgramFailure::Framework(FrameworkError::UnsupportedSysvar) || e == ProgramFailure::Kernel(ValenceError::FunctionChainInactive),
        !old(function_chain).is_active ==> r is Err,
        r matches Ok(res) ==> old(function_chain).is_active && res.success
            && res.step_results@.len() == old(function_chain).function_steps@.len()
            && res.execution_time_us == old(function_chain).function_steps@.len() * 1000
            && final(function_chain).execution_count == bumped(old(function_chain).execution_count),
{
    let now = match clock_get() {
        Some(c) => c.unix_timestamp,
        None => { return Err(ProgramFailure::Framework(FrameworkError::UnsupportedSysvar)); }
    };
    match execute_function_chain_at(function_chain, input, now) {
        Ok(res) => Ok(res),
        Err(e) => Err(ProgramFailure::Kernel(e)),
    }
}

/// Checks an aggregation's id and number of input functions: see
/// `aggregation_check`.
pub fn check_aggregation(aggregation_id: &String, input_count: usize) -> (r: Result<(), ValenceError>)
    ensures
        r == aggregation_check(aggregation_id@, input_count as nat),
{
    if aggregation_id.as_str().is_empty() {
        return Err(ValenceError::FunctionEmptyAggregationId);
    }
    if str_byte_len(aggregation_id) > 64 {
        return Err(ValenceError::FunctionAggregationIdTooLong);
    }
    if input_count == 0 {
        return Err(ValenceError::FunctionEmptyInputFunctions);
    }
    if input_count > 20 {
        return Err(ValenceError::FunctionTooManyInputFunctions);
    }
    Ok(())
}

/// Counts a created aggregation: one more composition and aggregation
/// (saturating).
pub fn record_aggregation_created(composition_state: &mut FunctionCompositionState)
    ensures
        *final(composition_state) == (FunctionCompositionState {
            total_compositions: bumped(old(composition_state).total_compositions),
            total_aggregations: bumped(old(composition_state).total_aggregations),
            ..*old(composition_state)
        }),
{
    composition_state.total_compositions = composition_state.total_compositions.saturating_add(1);
    composition_state.total_aggregations = composition_state.total_aggregations.saturating_add(1);
}

/// The result of running an aggregation on `input_count` inputs: the input
/// at index `i` runs the `i`-th input function and succeeds with an empty
/// output in 1000 microseconds.
pub fn run_aggregation(input_functions: &Vec<FunctionStep>, input_count: usize) -> (r: AggregationResult)
    requires
        input_count <= input_functions@.len(),
        input_count * 1000 <= u64::MAX,
    ensures
        r.success,
        r.input_results@.len() == input_count,
        forall|i: int| 0 <= i < input_count ==> input_result_view(#[trigger] r.input_results@[i]) == simulated_entry(i, input_functions@[i].function_hash@),
        r.aggregated_output.data@.len() == 0 && r.aggregated_output.version@ == "1.0.0"@,
        r.execution_time_us == input_count * 1000,
{
    let mut input_results: Vec<AggregationInputResult> = Vec::new();
    let mut total_time: u64 = 0;
    let mut i: usize = 0;
    while i < input_count
        invariant
            i <= input_count,
            input_count <= input_functions@.len(),
            input_count * 1000 <= u64::MAX,
            input_results@.len() == i,
            total_time == i * 1000,
            forall|j: int| 0 <= j < i ==> input_result_view(#[trigger] input_results@[j]) == simulated_entry(j, input_functions@[j].function_hash@),
        decreases input_count - i,
    {
        let r = AggregationInputResult {
            input_index: i as u32,
            function_hash: input_functions[i].function_hash.clone(),
            success: true,
            output: empty_output(),
            execution_time_us: STEP_TIME_US,
        };
        assert(i * 1000 + 1000 <= input_count * 1000) by (nonlinear_arith)
            requires i < input_count;
        total_time = total_time + r.execution_time_us;
        input_results.push(r);
        i += 1;
    }
    AggregationResult { success: true, input_results, aggregated_output: empty_output(), execution_time_us: total_time }
}

/// Creates an aggregation at time `now`: see `aggregation_check` for when
/// it is refused. The aggregation is active and has not run; the system
/// counts one more composition and aggregation (saturating).
pub fn create_function_aggregation_at(
    composition_state: &mut FunctionCompositionState,
    aggregation: &mut AggregationRecord,
    aggregation_id: String,
    input_functions: Vec<FunctionStep>,
    aggregation_function: FunctionStep,
    aggregation_mode: AggregationMode,
    bump: u8,
    now: i64,
) -> (r: Result<(), ValenceError>)
    ensures
        r == aggregation_check(aggregation_id@, input_functions@.len()),
        r is Err ==> *final(composition_state) == *old(composition_state) && *final(aggregation) == *old(aggregation),
        r is Ok ==> *final(aggregation) == (AggregationRecord {
                aggregation_id,
                input_functions,
                aggregation_function,
                aggregation_mode,
                created_at: now,
                last_executed: 0,
                execution_count: 0,
                is_active: true,
                bump,
            })
            && *final(composition_state) == (FunctionCompositionState {
                total_compositions: bumped(old(composition_state).total_compositions),
                total_aggregations: bumped(old(composition_state).total_aggregations),
                ..*old(composition_state)
            }),
{
    match check_aggregation(&aggregation_id, input_functions.len()) {
        Ok(()) => {}
        Err(e) => { return Err(e); }
    }
    aggregation.aggregation_id = aggregation_id;
    aggregation.input_functions = input_functions;
    aggregation.aggregation_function = aggregation_function;
    aggregation.aggregation_mode = aggregation_mode;
    aggregation.created_at = now;
    aggregation.last_executed = 0;
    aggregation.execution_count = 0;
    aggregation.is_active = true;
    aggregation.bump = bump;
    record_aggregation_created(composition_state);
    Ok(())
}

/// Creates an aggregation as `create_function_aggregation_at` does, at the
/// clock's time; refused with `UnsupportedSysvar` first where the clock
/// cannot be read.
pub fn create_function_aggregation(
    composition_state: &mut FunctionCompositionState,
    aggregation: &mut AggregationRecord,
    aggregation_id: String,
    input_functions: Vec<FunctionStep>,
    aggregation_function: FunctionStep,
    aggregation_mode: AggregationMode,
    bump: u8,
) -> (r: Result<(), ProgramFailure>)
    ensures
        r is Err ==> *final(composition_state) == *old(composition_state) && *final(aggregation) == *old(aggregation),
        r matches Err(ProgramFailure::Kernel(e)) ==> Err::<(), ValenceError>(e) == aggregation_check(aggregation_id@, input_functions@.len()),
        r matches Err(e) ==> e == ProgramFailure::Framework(FrameworkError::UnsupportedSysvar) || e is Kernel,
        aggregation_check(aggregation_id@, input_functions@.len()) is Err ==> r is Err,
        r is Ok ==> aggregation_check(aggregation_id@, input_functions@.len()) is Ok
            && final(aggregation).aggregation_id == aggregation_id && final(aggregation).input_functions == input_functions
            && final(aggregation).aggregation_function == aggregation_function && final(aggregation).aggregation_mode == aggregation_mode
            && final(aggregation).is_active && final(aggregation).execution_count == 0 && final(aggregation).last_executed == 0
            && final(aggregation).bump == bump
            && *final(composition_state) == (FunctionCompositionState {
                total_compositions: bumped(old(composition_state).total_compositions),
                total_aggregations: bumped(old(composition_state).total_aggregations),
                ..*old(composition_state)
            }),
{
    let now = match clock_get() {
        Some(c) => c.unix_timestamp,
        None => { return Err(ProgramFailure::Framework(FrameworkError::UnsupportedSysvar)); }
    };
    match create_function_aggregation_at(composition_state, aggregation, aggregation_id, input_functions, aggregation_function, aggregation_mode, bump, now) {
        Ok(()) => Ok(()),
        Err(e) => Err(ProgramFailure::Kernel(e)),
    }
}

/// Runs an aggregation on `inputs` at time `now`: refused with
/// `FunctionAggregationInactive` for an inactive aggregation; otherwise the
/// input at index `i` runs the `i`-th input function and succeeds with an
/// empty output in 1000 microseconds, and the aggregation counts one more
/// run (saturating) and records the time. Each input needs an input function.
pub fn execute_function_aggregation_at(aggregation: &mut AggregationRecord, inputs: &Vec<FunctionInput>, now: i64) -> (r: Result<AggregationResult, ValenceError>)
    requires
        inputs@.len() <= old(aggregation).input_functions@.len(),
        inputs@.len() * 1000 <= u64::MAX,
    ensures
        !old(aggregation).is_active ==> r == Err::<AggregationResult, ValenceError>(ValenceError::FunctionAggregationInactive)
            && *final(aggregation) == *old(aggregation),
        old(aggregation).is_active ==> (r matches Ok(res)
            && res.success
            && res.input_results@.len() == inputs@.len()
            && (forall|i: int| 0 <= i < inputs@.len() ==> input_result_view(#[trigger] res.input_results@[i]) == simulated_entry(i, old(aggregation).input_functions@[i].function_hash@))
            && res.aggregated_output.data@.len() == 0 && res.aggregated_output.version@ == "1.0.0"@
            && res.execution_time_us == inputs@.len() * 1000
            && *final(aggregation) == (AggregationRecord { execution_count: bumped(old(aggregation).execution_count), last_executed: now, ..*old(aggregation) })),
{
    if !aggregation.is_active {
        return Err(ValenceError::FunctionAggregationInactive);
    }
    let result = run_aggregation(&aggregation.input_functions, inputs.len());
    aggregation.execution_count = aggregation.execution_count.saturating_add(1);
    aggregation.last_executed = now;
    Ok(result)
}

/// Runs an aggregation as `execute_function_aggregation_at` does, at the
/// clock's time; refused with `UnsupportedSysvar` first where the clock
/// cannot be read.
pub fn execute_function_aggregation(aggregation: &mut AggregationRecord, inputs: &Vec<FunctionInput>) -> (r: Result<AggregationResult, ProgramFailure>)
    requires
        inputs@.len() <= old(aggregation).input_functions@.len(),
        inputs@.len() * 1000 <= u64::MAX,
    ensures
        r is Err ==> *final(aggregation) == *old(aggregation),
        r matches Err(e) ==> e == ProgramFailure::Framework(FrameworkError::UnsupportedSysvar) || e == ProgramFailure::Kernel(ValenceError::FunctionAggregationInactive),
        !old(aggregation).is_active ==> r is Err,
        r matches Ok(res) ==> old(aggregation).is_active && res.success
            && res.input_results@.len() == inputs@.len()
            && res.execution_time_us == inputs@.len() * 1000
            && final(aggregation).execution_count == bumped(old(aggregation).execution_count),
{
    let now = match clock_get() {
        Some(c) => c.unix_timestamp,
        None => { return Err(ProgramFailure::Framework(FrameworkError::UnsupportedSysvar)); }
    };
    match execute_function_aggregation_at(aggregation, inputs, now) {
        Ok(res) => Ok(res),
        Err(e) => Err(ProgramFailure::Kernel(e)),
    }
}

} // verus!
