//! Aggregation of function results: the integer side of the estimates and
//! of the strategies that combine outputs.

use vstd::prelude::*;
use crate::error::ValenceError;
use crate::text::owned;
use crate::functions::instructions::{FunctionOutput, AggregationInputResult};
use crate::functions::execution::AggregationMode;

verus! {

/// How numeric outputs are reduced.
#[derive(Debug, Clone)]
pub enum ReductionFunction {
    Sum,
    Average,
    Maximum,
    Minimum,
    Count,
    Custom(String),
}

/// The outcome of checking an aggregation's configuration.
#[derive(Debug)]
pub struct AggregationValidation {
    pub is_valid: bool,
    pub issues: Vec<String>,
    pub recommendations: Vec<String>,
}

/// Limits on each input of an aggregation.
#[derive(Debug, Clone, Copy, PartialEq, Eq, Structural)]
pub struct ResourceLimits {
    pub max_time_ms: u64,
    pub max_memory_bytes: u64,
    pub max_output_size_bytes: u64,
}

/// The kind of an aggregation strategy, without its weights or thresholds.
#[derive(Debug, Clone, Copy, PartialEq, Eq, Structural)]
pub enum StrategyKind {
    SimpleMerge,
    WeightedMerge,
    MajorityVote,
    WeightedVote,
    Consensus,
    Reduce,
    Custom,
}

/// The time a strategy adds to its inputs', in milliseconds.
pub open spec fn time_overhead(kind: StrategyKind) -> int {
    match kind {
        StrategyKind::SimpleMerge => 100,
        StrategyKind::WeightedMerge => 200,
        StrategyKind::MajorityVote => 500,
        StrategyKind::WeightedVote => 600,
        StrategyKind::Consensus => 1000,
        StrategyKind::Reduce => 300,
        StrategyKind::Custom => 1000,
    }
}

/// The memory a strategy adds to its inputs', from the memory of one input.
pub open spec fn memory_overhead(kind: StrategyKind, per_input: int) -> int {
    match kind {
        StrategyKind::SimpleMerge => per_input / 2,
        StrategyKind::WeightedMerge => per_input,
        StrategyKind::MajorityVote => per_input * 2,
        StrategyKind::WeightedVote => per_input * 2,
        StrategyKind::Consensus => per_input * 3,
        StrategyKind::Reduce => per_input,
        StrategyKind::Custom => per_input * 2,
    }
}

/// The outputs of the successful results, one after the other.
pub open spec fn merged_data(results: Seq<AggregationInputResult>) -> Seq<u8>
    decreases results.len(),
{
    if results.len() == 0 {
        seq![]
    } else {
        merged_data(results.drop_last()) + if results.last().success { results.last().output.data@ } else { seq![] }
    }
}

/// The index of the first successful result, or -1.
pub open spec fn first_success(results: Seq<AggregationInputResult>, i: int) -> int
    decreases results.len() - i,
{
    if i < 0 || i >= results.len() {
        -1
    } else if results[i].success {
        i
    } else {
        first_success(results, i + 1)
    }
}

impl Default for ResourceLimits {
    fn default() -> (r: Self)
        ensures
            r == (ResourceLimits { max_time_ms: 10_000, max_memory_bytes: 1_048_576, max_output_size_bytes: 65_536 }),
    {
        ResourceLimits { max_time_ms: 10_000, max_memory_bytes: 1_048_576, max_output_size_bytes: 65_536 }
    }
}

/// The expected time of an aggregation: the time of each input, plus the
/// strategy's overhead.
pub fn estimated_execution_time_ms(kind: StrategyKind, per_input_time_ms: u64, input_count: u32) -> (r: u64)
    requires
        per_input_time_ms * input_count + time_overhead(kind) <= u64::MAX,
    ensures
        r == per_input_time_ms * input_count + time_overhead(kind),
{
    let overhead: u64 = match kind {
        StrategyKind::SimpleMerge => 100,
        StrategyKind::WeightedMerge => 200,
        StrategyKind::MajorityVote => 500,
        StrategyKind::WeightedVote => 600,
        StrategyKind::Consensus => 1000,
        StrategyKind::Reduce => 300,
        StrategyKind::Custom => 1000,
    };
    assert(per_input_time_ms * input_count <= u64::MAX);
    per_input_time_ms * (input_count as u64) + overhead
}

/// The expected memory of an aggregation: the memory of each input, plus
/// the strategy's overhead.
pub fn estimated_memory_bytes(kind: StrategyKind, per_input_memory: u64, input_count: u32) -> (r: u64)
    requires
        per_input_memory * input_count + memory_overhead(kind, per_input_memory as int) <= u64::MAX,
    ensures
        r == per_input_memory * input_count + memory_overhead(kind, per_input_memory as int),
{
    assert(per_input_memory * input_count <= u64::MAX) by (nonlinear_arith)
        requires
            per_input_memory * input_count + memory_overhead(kind, per_input_memory as int) <= u64::MAX,
            memory_overhead(kind, per_input_memory as int) >= 0;
    let total = per_input_memory * (input_count as u64);
    let overhead: u64 = match kind {
        StrategyKind::SimpleMerge => per_input_memory / 2,
        StrategyKind::WeightedMerge => per_input_memory,
        StrategyKind::MajorityVote => per_input_memory * 2,
        StrategyKind::WeightedVote => per_input_memory * 2,
        StrategyKind::Consensus => per_input_memory * 3,
        StrategyKind::Reduce => per_input_memory,
        StrategyKind::Custom => per_input_memory * 2,
    };
    total + overhead
}

/// The expected time as `estimated_execution_time_ms` gives it, or `None`
/// where it does not fit in a `u64`.
pub fn checked_execution_time_ms(kind: StrategyKind, per_input_time_ms: u64, input_count: u32) -> (r: Option<u64>)
    ensures
        per_input_time_ms * input_count + time_overhead(kind) <= u64::MAX ==> r == Some((per_input_time_ms * input_count + time_overhead(kind)) as u64),
        per_input_time_ms * input_count + time_overhead(kind) > u64::MAX ==> r is None,
{
    let a: u128 = per_input_time_ms as u128;
    let b: u128 = input_count as u128;
    assert(a * b <= u64::MAX * u32::MAX) by (nonlinear_arith)
        requires a <= u64::MAX, b <= u32::MAX;
    let total: u128 = a * b;
    let overhead: u128 = match kind {
        StrategyKind::SimpleMerge => 100,
        StrategyKind::WeightedMerge => 200,
        StrategyKind::MajorityVote => 500,
        StrategyKind::WeightedVote => 600,
        StrategyKind::Consensus => 1000,
        StrategyKind::Reduce => 300,
        StrategyKind::Custom => 1000,
    };
    if total + overhead > u64::MAX as u128 {
        None
    } else {
        Some(estimated_execution_time_ms(kind, per_input_time_ms, input_count))
    }
}

/// The expected memory as `estimated_memory_bytes` gives it, or `None`
/// where it does not fit in a `u64`.
pub fn checked_memory_bytes(kind: StrategyKind, per_input_memory: u64, input_count: u32) -> (r: Option<u64>)
    ensures
        per_input_memory * input_count + memory_overhead(kind, per_input_memory as int) <= u64::MAX
            ==> r == Some((per_input_memory * input_count + memory_overhead(kind, per_input_memory as int)) as u64),
        per_input_memory * input_count + memory_overhead(kind, per_input_memory as int) > u64::MAX ==> r is None,
{
    let per: u128 = per_input_memory as u128;
    let b: u128 = input_count as u128;
    assert(per * b <= u64::MAX * u32::MAX) by (nonlinear_arith)
        requires per <= u64::MAX, b <= u32::MAX;
    let total: u128 = per * b;
    let overhead: u128 = match kind {
        StrategyKind::SimpleMerge => per / 2,
        StrategyKind::WeightedMerge => per,
        StrategyKind::MajorityVote => per * 2,
        StrategyKind::WeightedVote => per * 2,
        StrategyKind::Consensus => per * 3,
        StrategyKind::Reduce => per,
        StrategyKind::Custom => per * 2,
    };
    if total + overhead > u64::MAX as u128 {
        None
    } else {
        Some(estimated_memory_bytes(kind, per_input_memory, input_count))
    }
}

/// The issue and recommendation an aggregation's input bounds raise: one
/// exactly where the minimum exceeds the maximum.
pub fn input_bounds_issue(min_inputs: u32, max_inputs: u32) -> (r: Option<(String, String)>)
    ensures
        r is Some <==> min_inputs > max_inputs,
        r matches Some(p) ==> p.0@ == "Minimum inputs cannot be greater than maximum inputs"@
            && p.1@ == "Set min_inputs <= max_inputs"@,
{
    if min_inputs > max_inputs {
        Some((owned("Minimum inputs cannot be greater than maximum inputs"), owned("Set min_inputs <= max_inputs")))
    } else {
        None
    }
}

/// The outputs of the successful results merged into one, of version `1.0.0`.
pub fn simple_merge(results: &Vec<AggregationInputResult>) -> (r: FunctionOutput)
    ensures
        r.data@ == merged_data(results@),
        r.version@ == "1.0.0"@,
{
    let mut data: Vec<u8> = Vec::new();
    let mut i: usize = 0;
    while i < results.len()
        invariant
            i <= results.len(),
            data@ == merged_data(results@.take(i as int)),
        decreases results.len() - i,
    {
        assert(results@.take(i + 1).drop_last() =~= results@.take(i as int));
        assert(results@.take(i + 1).last() == results@[i as int]);
        if results[i].success {
            let mut more = results[i].output.data.clone();
            assert(more@ =~= results@[i as int].output.data@);
            data.append(&mut more);
        } else {
            assert(data@ =~= data@ + Seq::<u8>::empty());
        }
        i += 1;
    }
    assert(results@.take(results.len() as int) =~= results@);
    FunctionOutput { data, version: owned("1.0.0") }
}

/// The output of the first successful result; refused with
/// `FunctionNoSuccessfulResults` where none succeeded.
pub fn majority_vote(results: &Vec<AggregationInputResult>) -> (r: Result<FunctionOutput, ValenceError>)
    ensures
        first_success(results@, 0) < 0 ==> r == Err::<FunctionOutput, ValenceError>(ValenceError::FunctionNoSuccessfulResults),
        first_success(results@, 0) >= 0 ==> (r matches Ok(o)
            && o.data@ == results@[first_success(results@, 0)].output.data@
            && o.version@ == results@[first_success(results@, 0)].output.version@),
{
    let mut i: usize = 0;
    while i < results.len()
        invariant
            i <= results.len(),
            first_success(results@, 0) == first_success(results@, i as int),
        decreases results.len() - i,
    {
        if results[i].success {
            let data = results[i].output.data.clone();
            assert(data@ =~= results@[i as int].output.data@);
            return Ok(FunctionOutput { data, version: results[i].output.version.clone() });
        }
        i += 1;
    }
    Err(ValenceError::FunctionNoSuccessfulResults)
}

/// Runs aggregations whose success rate has been checked.
pub struct AggregationExecutor;

/// The strategy a mode starts with: merge, sum, majority vote or consensus.
pub open spec fn strategy_of_mode(mode: AggregationMode) -> StrategyKind {
    match mode {
        AggregationMode::Merge => StrategyKind::SimpleMerge,
        AggregationMode::Reduce => StrategyKind::Reduce,
        AggregationMode::Vote => StrategyKind::MajorityVote,
        AggregationMode::Consensus => StrategyKind::Consensus,
    }
}

/// The strategy kinds that merge outputs; the others vote.
pub open spec fn merges(kind: StrategyKind) -> bool {
    kind == StrategyKind::SimpleMerge || kind == StrategyKind::WeightedMerge || kind == StrategyKind::Reduce || kind == StrategyKind::Custom
}

/// The kind of strategy a mode starts with.
pub fn strategy_for_mode(mode: AggregationMode) -> (r: StrategyKind)
    ensures
        r == strategy_of_mode(mode),
{
    match mode {
        AggregationMode::Merge => StrategyKind::SimpleMerge,
        AggregationMode::Reduce => StrategyKind::Reduce,
        AggregationMode::Vote => StrategyKind::MajorityVote,
        AggregationMode::Consensus => StrategyKind::Consensus,
    }
}

impl AggregationExecutor {
    /// Aggregates the results of `input_count` inputs: refused with
    /// `FunctionInsufficientInputs` below `min_inputs`, with
    /// `FunctionTooManyInputs` above `max_inputs`, and with
    /// `FunctionInsufficientSuccessRate` where the success rate fell short;
    /// otherwise the merging strategies merge the successful outputs (see
    /// `simple_merge`) and the voting ones take the first successful output
    /// (see `majority_vote`).
    pub fn run(kind: StrategyKind, input_count: usize, min_inputs: u32, max_inputs: u32, success_rate_met: bool, input_results: &Vec<AggregationInputResult>) -> (r: Result<FunctionOutput, ValenceError>)
        ensures
            input_count < min_inputs ==> r == Err::<FunctionOutput, ValenceError>(ValenceError::FunctionInsufficientInputs),
            min_inputs <= input_count && input_count > max_inputs ==> r == Err::<FunctionOutput, ValenceError>(ValenceError::FunctionTooManyInputs),
            min_inputs <= input_count <= max_inputs && !success_rate_met ==> r == Err::<FunctionOutput, ValenceError>(ValenceError::FunctionInsufficientSuccessRate),
            min_inputs <= input_count <= max_inputs && success_rate_met && merges(kind) ==> (r matches Ok(o)
                && o.data@ == merged_data(input_results@) && o.version@ == "1.0.0"@),
            min_inputs <= input_count <= max_inputs && success_rate_met && !merges(kind) ==> ({
                let k = first_success(input_results@, 0);
                &&& k < 0 ==> r == Err::<FunctionOutput, ValenceError>(ValenceError::FunctionNoSuccessfulResults)
                &&& k >= 0 ==> (r matches Ok(o) && o.data@ == input_results@[k].output.data@
                    && o.version@ == input_results@[k].output.version@)
            }),
    {
        if input_count < min_inputs as usize {
            return Err(ValenceError::FunctionInsufficientInputs);
        }
        if input_count > max_inputs as usize {
            return Err(ValenceError::FunctionTooManyInputs);
        }
        if !success_rate_met {
            return Err(ValenceError::FunctionInsufficientSuccessRate);
        }
        match kind {
            StrategyKind::SimpleMerge | StrategyKind::WeightedMerge | StrategyKind::Reduce | StrategyKind::Custom => Ok(simple_merge(input_results)),
            StrategyKind::MajorityVote | StrategyKind::WeightedVote | StrategyKind::Consensus => majority_vote(input_results),
        }
    }
}

} // verus!
