//! The processor's instructions.

use vstd::prelude::*;
use crate::error::ValenceError;
use crate::pubkey::Pubkey;
use crate::processor::state::ProcessorState;

verus! {

/// Sets up the processor account: unpaused, with no execution counted.
pub fn initialize(processor_state: &mut ProcessorState, authority: Pubkey, bump: u8)
    ensures
        *final(processor_state) == (ProcessorState { authority, is_paused: false, total_executions: 0, bump, ..*old(processor_state) }),
{
    processor_state.authority = authority;
    processor_state.is_paused = false;
    processor_state.total_executions = 0;
    processor_state.bump = bump;
}

/// Counts the execution of a capability; refused with `ProcessorPaused`
/// while the processor is paused.
pub fn process_capability(processor_state: &mut ProcessorState, _capability_id: &String, _input_data: &Vec<u8>) -> (r: Result<(), ValenceError>)
    requires
        !old(processor_state).is_paused ==> old(processor_state).total_executions < u64::MAX,
    ensures
        old(processor_state).is_paused ==> r == Err::<(), ValenceError>(ValenceError::ProcessorPaused) && *final(processor_state) == *old(processor_state),
        !old(processor_state).is_paused ==> r is Ok
            && *final(processor_state) == (ProcessorState { total_executions: (old(processor_state).total_executions + 1) as u64, ..*old(processor_state) }),
{
    if processor_state.is_paused {
        return Err(ValenceError::ProcessorPaused);
    }
    processor_state.total_executions = processor_state.total_executions + 1;
    Ok(())
}

/// Pauses the processor.
pub fn pause(processor_state: &mut ProcessorState)
    ensures
        *final(processor_state) == (ProcessorState { is_paused: true, ..*old(processor_state) }),
{
    processor_state.is_paused = true;
}

/// Resumes the processor.
pub fn resume(processor_state: &mut ProcessorState)
    ensures
        *final(processor_state) == (ProcessorState { is_paused: false, ..*old(processor_state) }),
{
    processor_state.is_paused = false;
}

/// Pausing a running processor and resuming it gives back the state it
/// had; while paused, it counts no execution.
pub proof fn lemma_pause_resume_round_trip(s: ProcessorState)
    requires
        !s.is_paused,
    ensures
        (ProcessorState { is_paused: false, ..(ProcessorState { is_paused: true, ..s }) }) == s,
        (ProcessorState { is_paused: true, ..s }).total_executions == s.total_executions,
{
}

} // verus!
