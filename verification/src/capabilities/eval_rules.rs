//! The evaluation rules a shard applies before executing a capability.

use vstd::prelude::*;
use crate::error::ValenceError;
use crate::pubkey::Pubkey;
use crate::processor::execution_engine::{ExecutionContext, ExecutionResult};

verus! {

/// A shard's account, with its evaluation configuration.
#[derive(Debug)]
pub struct ShardState {
    /// Authority that manages the shard.
    pub authority: Pubkey,
    /// The program that executes capabilities.
    pub processor_program: Pubkey,
    pub is_paused: bool,
    pub total_executions: u64,
    pub version: u8,
    /// PDA bump seed.
    pub bump: u8,
    pub eval_config: EvalConfig,
}

/// The evaluation configuration of a shard.
#[derive(Debug)]
pub struct EvalConfig {
    /// Longest execution allowed, in seconds.
    pub max_execution_time: u64,
    pub max_compute_units: u64,
    pub record_execution: bool,
    /// Hashes of the verification functions run by default.
    pub default_verification_functions: Vec<[u8; 32]>,
}

impl Default for EvalConfig {
    fn default() -> (r: Self)
        ensures
            r.max_execution_time == 0,
            r.max_compute_units == 0,
            !r.record_execution,
            r.default_verification_functions@.len() == 0,
    {
        EvalConfig { max_execution_time: 0, max_compute_units: 0, record_execution: false, default_verification_functions: Vec::new() }
    }
}

/// The rules a shard applies to an execution: a non-empty capability id, a
/// non-empty input, and a compute limit (where one is set) within the
/// configured maximum.
pub open spec fn rules_outcome(s: ShardState, id: Seq<char>, input: Seq<u8>, ctx: ExecutionContext) -> Result<(), ValenceError> {
    if id.len() == 0 || input.len() == 0 {
        Err(ValenceError::InvalidInput)
    } else if ctx.compute_limit matches Some(l) && l > s.eval_config.max_compute_units {
        Err(ValenceError::ComputeLimitExceeded)
    } else {
        Ok(())
    }
}

/// What a shard's rules accept, stated on the inputs: an empty capability
/// id or input is refused with `InvalidInput`; otherwise a compute limit
/// above the configured maximum is refused with `ComputeLimitExceeded`; and
/// an execution passes exactly when the id and input are non-empty and any
/// compute limit is within the maximum.
pub proof fn lemma_rules_bound_compute(s: ShardState, id: Seq<char>, input: Seq<u8>, ctx: ExecutionContext)
    ensures
        id.len() == 0 || input.len() == 0 ==> rules_outcome(s, id, input, ctx) == Err::<(), ValenceError>(ValenceError::InvalidInput),
        id.len() > 0 && input.len() > 0 && (ctx.compute_limit matches Some(l) && l > s.eval_config.max_compute_units)
            ==> rules_outcome(s, id, input, ctx) == Err::<(), ValenceError>(ValenceError::ComputeLimitExceeded),
        rules_outcome(s, id, input, ctx) is Ok <==> (id.len() > 0 && input.len() > 0
            && (ctx.compute_limit is None || ctx.compute_limit.unwrap() <= s.eval_config.max_compute_units)),
{
}

impl ShardState {
    /// The account space of a shard, with room estimated for the configuration.
    pub const SPACE: usize = 8 + 32 + 32 + 1 + 8 + 1 + 1 + 128;

    /// Sets up the shard: unpaused, version 1, nothing executed, the default
    /// configuration.
    pub fn process_initialize(&mut self, authority: Pubkey, processor_program: Pubkey, bump: u8) -> (r: Result<(), ValenceError>)
        ensures
            r is Ok,
            final(self).authority == authority,
            final(self).processor_program == processor_program,
            !final(self).is_paused,
            final(self).total_executions == 0,
            final(self).version == 1,
            final(self).bump == bump,
            final(self).eval_config.max_execution_time == 0,
            final(self).eval_config.max_compute_units == 0,
            !final(self).eval_config.record_execution,
            final(self).eval_config.default_verification_functions@.len() == 0,
    {
        self.authority = authority;
        self.processor_program = processor_program;
        self.is_paused = false;
        self.total_executions = 0;
        self.version = 1;
        self.bump = bump;
        self.eval_config = EvalConfig::default();
        Ok(())
    }

    /// Executes a capability under the shard's rules: refused with
    /// `SystemPaused` while paused, as `validate_execution_rules` refuses,
    /// and with `ArithmeticOverflow` where the count cannot grow; otherwise
    /// counted, with a successful result charging one unit per input byte.
    pub fn process_execute_capability(&mut self, capability_id: String, input_data: Vec<u8>, execution_context: &ExecutionContext) -> (r: Result<ExecutionResult, ValenceError>)
        ensures
            old(self).is_paused ==> r == Err::<ExecutionResult, ValenceError>(ValenceError::SystemPaused),
            !old(self).is_paused && rules_outcome(*old(self), capability_id@, input_data@, *execution_context) is Err
                ==> r == Err::<ExecutionResult, ValenceError>(rules_outcome(*old(self), capability_id@, input_data@, *execution_context)->Err_0),
            !old(self).is_paused && rules_outcome(*old(self), capability_id@, input_data@, *execution_context) is Ok && old(self).total_executions == u64::MAX
                ==> r == Err::<ExecutionResult, ValenceError>(ValenceError::ArithmeticOverflow),
            r is Err ==> *final(self) == *old(self),
            !old(self).is_paused && capability_id@.len() > 0 && input_data@.len() > 0
                && (execution_context.compute_limit matches Some(l) && l > old(self).eval_config.max_compute_units)
                ==> r == Err::<ExecutionResult, ValenceError>(ValenceError::ComputeLimitExceeded),
            r is Ok ==> (execution_context.compute_limit matches Some(l) ==> l <= old(self).eval_config.max_compute_units),
            !old(self).is_paused && rules_outcome(*old(self), capability_id@, input_data@, *execution_context) is Ok && old(self).total_executions < u64::MAX
                ==> (r matches Ok(res) && res.success && res.output_data@.len() == 0 && res.gas_used == input_data@.len()
                    && res.error_message is None && res.logs@.len() == 0)
                && *final(self) == (ShardState { total_executions: (old(self).total_executions + 1) as u64, ..*old(self) }),
    {
        if self.is_paused {
            return Err(ValenceError::SystemPaused);
        }
        match self.validate_execution_rules(&capability_id, &input_data, execution_context) {
            Ok(()) => {}
            Err(e) => { return Err(e); }
        }
        match self.total_executions.checked_add(1) {
            Some(n) => { self.total_executions = n; }
            None => { return Err(ValenceError::ArithmeticOverflow); }
        }
        Ok(ExecutionResult { success: true, output_data: Vec::new(), gas_used: input_data.len() as u64, error_message: None, logs: Vec::new() })
    }

    /// Checks the shard's rules: see `rules_outcome`.
    pub fn validate_execution_rules(&self, capability_id: &String, input_data: &Vec<u8>, execution_context: &ExecutionContext) -> (r: Result<(), ValenceError>)
        ensures
            r == rules_outcome(*self, capability_id@, input_data@, *execution_context),
            capability_id@.len() > 0 && input_data@.len() > 0
                && (execution_context.compute_limit matches Some(l) && l > self.eval_config.max_compute_units)
                ==> r == Err::<(), ValenceError>(ValenceError::ComputeLimitExceeded),
            r is Ok ==> (execution_context.compute_limit matches Some(l) ==> l <= self.eval_config.max_compute_units),
    {
        if capability_id.as_str().is_empty() {
            return Err(ValenceError::InvalidInput);
        }
        if input_data.len() == 0 {
            return Err(ValenceError::InvalidInput);
        }
        match execution_context.compute_limit {
            Some(limit) => {
                if limit > self.eval_config.max_compute_units {
                    return Err(ValenceError::ComputeLimitExceeded);
                }
            }
            None => {}
        }
        Ok(())
    }

    /// Replaces the evaluation configuration.
    pub fn update_eval_config(&mut self, new_config: EvalConfig) -> (r: Result<(), ValenceError>)
        ensures
            r is Ok,
            *final(self) == (ShardState { eval_config: new_config, ..*old(self) }),
    {
        self.eval_config = new_config;
        Ok(())
    }

    /// Pauses the shard; refused with `SystemAlreadyPaused` while paused.
    pub fn process_pause(&mut self) -> (r: Result<(), ValenceError>)
        ensures
            old(self).is_paused ==> r == Err::<(), ValenceError>(ValenceError::SystemAlreadyPaused) && *final(self) == *old(self),
            !old(self).is_paused ==> r is Ok && *final(self) == (ShardState { is_paused: true, ..*old(self) }),
    {
        if self.is_paused {
            return Err(ValenceError::SystemAlreadyPaused);
        }
        self.is_paused = true;
        Ok(())
    }

    /// Resumes the shard; refused with `SystemNotPaused` unless paused.
    pub fn process_resume(&mut self) -> (r: Result<(), ValenceError>)
        ensures
            !old(self).is_paused ==> r == Err::<(), ValenceError>(ValenceError::SystemNotPaused) && *final(self) == *old(self),
            old(self).is_paused ==> r is Ok && *final(self) == (ShardState { is_paused: false, ..*old(self) }),
    {
        if !self.is_paused {
            return Err(ValenceError::SystemNotPaused);
        }
        self.is_paused = false;
        Ok(())
    }
}

} // verus!
