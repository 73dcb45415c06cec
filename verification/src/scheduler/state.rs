//! The scheduler's account and its counters.

use vstd::prelude::*;
use crate::error::ValenceError;
use crate::pubkey::Pubkey;
use crate::runtime::clock_unix_timestamp;

verus! {

/// The account of the scheduler.
#[derive(Debug, Clone, Copy)]
pub struct SchedulerState {
    /// Authority that controls the scheduler.
    pub authority: Pubkey,
    pub is_paused: bool,
    /// Most shards that may be registered.
    pub max_shards: u16,
    /// Largest queue per shard.
    pub max_queue_size: u16,
    pub total_scheduled: u64,
    pub total_processed: u64,
    pub total_failed: u64,
    pub active_shard_count: u16,
    /// Queue depth across all shards.
    pub global_queue_depth: u32,
    pub last_processed_at: i64,
    /// PDA bump seed.
    pub bump: u8,
}

/// The state after one capability was processed (or failed) at `now`.
pub open spec fn processed_state(s: SchedulerState, success: bool, now: i64) -> SchedulerState {
    SchedulerState {
        total_processed: if success { (s.total_processed + 1) as u64 } else { s.total_processed },
        total_failed: if success { s.total_failed } else { (s.total_failed + 1) as u64 },
        global_queue_depth: if s.global_queue_depth > 0 { (s.global_queue_depth - 1) as u32 } else { 0 },
        last_processed_at: now,
        ..s
    }
}

impl SchedulerState {
    /// The account space of the scheduler state.
    pub const SPACE: usize = 8 + 32 + 1 + 2 + 2 + 8 + 8 + 8 + 2 + 4 + 8 + 1;

    /// Counts `count` more capabilities scheduled and queued.
    pub fn update_scheduled(&mut self, count: u32)
        requires
            old(self).total_scheduled + count <= u64::MAX,
            old(self).global_queue_depth + count <= u32::MAX,
        ensures
            *final(self) == (SchedulerState {
                total_scheduled: (old(self).total_scheduled + count) as u64,
                global_queue_depth: (old(self).global_queue_depth + count) as u32,
                ..*old(self)
            }),
    {
        self.total_scheduled = self.total_scheduled + count as u64;
        self.global_queue_depth = self.global_queue_depth + count;
    }

    /// Counts one capability processed or failed at `now`, taking it off the
    /// queue (the depth stays at 0 when already empty).
    pub fn update_processed_at(&mut self, success: bool, now: i64)
        requires
            success ==> old(self).total_processed < u64::MAX,
            !success ==> old(self).total_failed < u64::MAX,
        ensures
            *final(self) == processed_state(*old(self), success, now),
    {
        if success {
            self.total_processed = self.total_processed + 1;
        } else {
            self.total_failed = self.total_failed + 1;
        }
        if self.global_queue_depth > 0 {
            self.global_queue_depth = self.global_queue_depth - 1;
        }
        self.last_processed_at = now;
    }

    /// `update_processed_at` at the clock's time (0 where the clock cannot be read).
    pub fn update_processed(&mut self, success: bool)
        requires
            success ==> old(self).total_processed < u64::MAX,
            !success ==> old(self).total_failed < u64::MAX,
        ensures
            *final(self) == processed_state(*old(self), success, final(self).last_processed_at),
    {
        let now = clock_unix_timestamp();
        self.update_processed_at(success, now);
    }

    /// Registers a shard, refused with `MaxCapacityReached` when all
    /// `max_shards` places are taken.
    pub fn register_shard(&mut self) -> (r: Result<(), ValenceError>)
        ensures
            old(self).active_shard_count >= old(self).max_shards ==> r == Err::<(), ValenceError>(ValenceError::MaxCapacityReached) && *final(self) == *old(self),
            old(self).active_shard_count < old(self).max_shards ==> r is Ok
                && *final(self) == (SchedulerState { active_shard_count: (old(self).active_shard_count + 1) as u16, ..*old(self) }),
    {
        if self.active_shard_count >= self.max_shards {
            return Err(ValenceError::MaxCapacityReached);
        }
        self.active_shard_count = self.active_shard_count + 1;
        Ok(())
    }

    /// Unregisters a shard; the count stays at 0 when none is registered.
    pub fn unregister_shard(&mut self)
        ensures
            *final(self) == (SchedulerState {
                active_shard_count: if old(self).active_shard_count > 0 { (old(self).active_shard_count - 1) as u16 } else { 0 },
                ..*old(self)
            }),
    {
        if self.active_shard_count > 0 {
            self.active_shard_count = self.active_shard_count - 1;
        }
    }
}

/// Registering a shard where there is room and unregistering it again
/// gives back the state the scheduler had.
pub proof fn lemma_register_unregister_round_trip(s: SchedulerState)
    requires
        s.active_shard_count < s.max_shards,
    ensures
        ({
            let registered = SchedulerState { active_shard_count: (s.active_shard_count + 1) as u16, ..s };
            (SchedulerState {
                active_shard_count: if registered.active_shard_count > 0 { (registered.active_shard_count - 1) as u16 } else { 0 },
                ..registered
            }) == s
        }),
{
}

} // verus!
