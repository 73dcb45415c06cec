//! The accounts of function composition: chains of steps and the shape of
//! their results.

use vstd::prelude::*;
use crate::pubkey::Pubkey;
use crate::sessions::isolation::Diff;
use crate::functions::instructions::FunctionOutput;

pub use crate::functions::instructions::{StepResult, AggregationInputResult};

verus! {

/// The account of the function composition system.
#[derive(Debug)]
pub struct FunctionCompositionState {
    pub authority: Pubkey,
    pub total_compositions: u64,
    pub total_chains: u64,
    pub total_aggregations: u64,
    pub version: u8,
    /// PDA bump seed.
    pub bump: u8,
    pub _reserved: [u8; 64],
}

/// A chain of function steps.
#[derive(Debug)]
pub struct FunctionChain {
    pub chain_id: String,
    pub function_steps: Vec<FunctionStep>,
    pub execution_mode: ExecutionMode,
    pub created_at: i64,
    pub last_executed: i64,
    pub execution_count: u64,
    pub is_active: bool,
    pub metadata: ChainMetadata,
    /// PDA bump seed.
    pub bump: u8,
}

/// One step of a composition.
#[derive(Debug)]
pub struct FunctionStep {
    /// The hash or id of the function run.
    pub function_hash: String,
    pub input_transformation: InputTransformation,
    pub output_transformation: OutputTransformation,
    /// The indices of the steps this one depends on.
    pub dependencies: Vec<u32>,
    pub condition: Option<StepCondition>,
    pub config: StepConfig,
}

/// How a step's input is formed.
#[derive(Debug)]
pub enum InputTransformation {
    PassThrough,
    MapFromStep(u32),
    MergeFromSteps(Vec<u32>),
    Custom(String),
}

/// How a step's output is formed.
#[derive(Debug)]
pub enum OutputTransformation {
    PassThrough,
    Extract(Vec<String>),
    Transform(String),
}

/// How the steps of a chain run.
#[derive(Debug, Clone, Copy, PartialEq, Eq, Structural)]
pub enum ExecutionMode {
    Sequential,
    Parallel,
    Conditional,
}

/// How the outputs of an aggregation are combined.
#[derive(Debug, Clone, Copy, PartialEq, Eq, Structural)]
pub enum AggregationMode {
    Merge,
    Reduce,
    Vote,
    Consensus,
}

/// When a step runs.
#[derive(Debug)]
pub struct StepCondition {
    pub condition_type: ConditionType,
    pub expected_value: String,
    pub execute_if_true: bool,
}

/// What a step's condition checks.
#[derive(Debug)]
pub enum ConditionType {
    PreviousStepSuccess,
    PreviousStepOutput,
    DiffCountThreshold,
    Custom(String),
}

/// The limits of a step.
#[derive(Debug, Clone, Copy, PartialEq, Eq, Structural)]
pub struct StepConfig {
    pub max_execution_time_us: u64,
    pub max_memory_bytes: u64,
    pub retry_attempts: u32,
    pub continue_on_failure: bool,
}

/// What the aggregation instructions read and write of a function
/// aggregation account: everything but its floating-point statistics.
#[derive(Debug)]
pub struct AggregationRecord {
    pub aggregation_id: String,
    /// The functions that provide the inputs.
    pub input_functions: Vec<FunctionStep>,
    /// The function that combines their results.
    pub aggregation_function: FunctionStep,
    pub aggregation_mode: AggregationMode,
    pub created_at: i64,
    pub last_executed: i64,
    pub execution_count: u64,
    pub is_active: bool,
    /// PDA bump seed.
    pub bump: u8,
}

/// Statistics of a chain.
#[derive(Debug)]
pub struct ChainMetadata {
    pub avg_execution_time_us: u64,
    pub successful_executions: u64,
    pub failed_executions: u64,
    pub most_common_failure: String,
    pub performance_stats: PerformanceStats,
}

/// Timing and memory statistics.
#[derive(Debug, Clone, Copy, PartialEq, Eq, Structural)]
pub struct PerformanceStats {
    pub min_execution_time_us: u64,
    pub max_execution_time_us: u64,
    pub avg_memory_bytes: u64,
    pub peak_memory_bytes: u64,
}

/// The result of running a composition.
#[derive(Debug)]
pub struct CompositionResult {
    pub success: bool,
    pub step_results: Vec<StepResult>,
    pub final_output: FunctionOutput,
    pub generated_diffs: Vec<Diff>,
    pub execution_metadata: CompositionExecutionMetadata,
}

/// What running a composition took.
#[derive(Debug, Clone, Copy)]
pub struct CompositionExecutionMetadata {
    pub total_execution_time_us: u64,
    pub steps_executed: u32,
    pub parallel_branches: u32,
    pub memory_used: u64,
}

/// The in-memory sizes the chain's account space is estimated from.
pub open spec fn chain_sizes() -> (nat, nat, nat) {
    (vstd::layout::size_of::<FunctionStep>(), vstd::layout::size_of::<ExecutionMode>(), vstd::layout::size_of::<ChainMetadata>())
}

/// The account space of a chain.
pub open spec fn chain_space(chain_id_len: nat, step_count: nat) -> nat {
    let (step, mode, meta) = chain_sizes();
    8 + 4 + chain_id_len + 4 + step_count * step + mode + 8 + 8 + 8 + 1 + meta + 1
}

impl FunctionCompositionState {
    /// The account space of the composition state.
    pub const SIZE: usize = 8 + 32 + 8 + 8 + 8 + 1 + 1 + 64;
}

impl FunctionChain {
    /// The account space of a chain with an id of `chain_id_len` bytes and
    /// `step_count` steps, from the in-memory sizes of its parts.
    pub fn get_space(chain_id_len: usize, step_count: usize) -> (r: usize)
        requires
            chain_space(chain_id_len as nat, step_count as nat) <= usize::MAX,
        ensures
            r == chain_space(chain_id_len as nat, step_count as nat),
    {
        let step = core::mem::size_of::<FunctionStep>();
        let mode = core::mem::size_of::<ExecutionMode>();
        let meta = core::mem::size_of::<ChainMetadata>();
        assert(step_count * step <= usize::MAX) by (nonlinear_arith)
            requires
                8 + 4 + chain_id_len + 4 + step_count * step + mode + 8 + 8 + 8 + 1 + meta + 1 <= usize::MAX,
                chain_id_len >= 0, mode >= 0, meta >= 0;
        8 + 4 + chain_id_len + 4 + step_count * step + mode + 8 + 8 + 8 + 1 + meta + 1
    }
}

impl Default for StepConfig {
    fn default() -> (r: Self)
        ensures
            r == (StepConfig { max_execution_time_us: 1_000_000, max_memory_bytes: 1_048_576, retry_attempts: 0, continue_on_failure: false }),
    {
        StepConfig { max_execution_time_us: 1_000_000, max_memory_bytes: 1_048_576, retry_attempts: 0, continue_on_failure: false }
    }
}

impl Default for PerformanceStats {
    fn default() -> (r: Self)
        ensures
            r == (PerformanceStats { min_execution_time_us: 0, max_execution_time_us: 0, avg_memory_bytes: 0, peak_memory_bytes: 0 }),
    {
        PerformanceStats { min_execution_time_us: 0, max_execution_time_us: 0, avg_memory_bytes: 0, peak_memory_bytes: 0 }
    }
}

impl Default for ChainMetadata {
    fn default() -> (r: Self)
        ensures
            r.avg_execution_time_us == 0,
            r.successful_executions == 0,
            r.failed_executions == 0,
            r.most_common_failure@.len() == 0,
            r.performance_stats == (PerformanceStats { min_execution_time_us: 0, max_execution_time_us: 0, avg_memory_bytes: 0, peak_memory_bytes: 0 }),
    {
        ChainMetadata {
            avg_execution_time_us: 0,
            successful_executions: 0,
            failed_executions: 0,
            most_common_failure: String::new(),
            performance_stats: PerformanceStats::default(),
        }
    }
}

} // verus!
