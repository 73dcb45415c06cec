//! The scheduler's instructions and the per-shard ordering specification.

use vstd::prelude::*;
use crate::pubkey::Pubkey;
use crate::scheduler::state::SchedulerState;

pub use crate::capabilities::ordering_rules::OrderingConstraint;

verus! {

/// The ordering constraints a shard asks to be respected.
#[derive(Debug)]
pub struct PartialOrderSpec {
    /// The shard the specification belongs to.
    pub shard_id: Pubkey,
    pub constraints: Vec<OrderingConstraint>,
}

/// Sets up the scheduler account.
pub fn initialize(scheduler_state: &mut SchedulerState, authority: Pubkey, bump: u8)
    ensures
        *final(scheduler_state) == (SchedulerState { authority, total_scheduled: 0, active_shard_count: 0, bump, ..*old(scheduler_state) }),
{
    scheduler_state.authority = authority;
    scheduler_state.total_scheduled = 0;
    scheduler_state.active_shard_count = 0;
    scheduler_state.bump = bump;
}

/// Counts the capabilities scheduled for a shard.
pub fn schedule_execution(scheduler_state: &mut SchedulerState, shard_id: Pubkey, capabilities: &Vec<String>)
    requires
        old(scheduler_state).total_scheduled + capabilities@.len() <= u64::MAX,
    ensures
        *final(scheduler_state) == (SchedulerState {
            total_scheduled: (old(scheduler_state).total_scheduled + capabilities@.len()) as u64,
            ..*old(scheduler_state)
        }),
{
    scheduler_state.total_scheduled = scheduler_state.total_scheduled + capabilities.len() as u64;
}

} // verus!
