//! The diff engine's account and its statistics.

use vstd::prelude::*;
use crate::error::ValenceError;
use crate::pubkey::Pubkey;
use crate::runtime::clock_unix_timestamp;

verus! {

/// The account of the diff engine.
#[derive(Debug, Clone, Copy)]
pub struct DiffState {
    /// Authority that controls the engine.
    pub authority: Pubkey,
    pub is_paused: bool,
    /// Diffs calculated.
    pub total_diffs: u64,
    /// Diffs applied successfully.
    pub total_applied: u64,
    /// Diffs that failed to apply.
    pub total_failed: u64,
    pub total_bytes_processed: u64,
    /// Average diff size, times 1000.
    pub average_diff_size_scaled: u64,
    pub last_diff_at: i64,
    /// Largest diff allowed.
    pub max_diff_size: u32,
    /// PDA bump seed.
    pub bump: u8,
}

impl DiffState {
    /// The account space of the diff state.
    pub const SPACE: usize = 8 + 32 + 1 + 8 + 8 + 8 + 8 + 8 + 8 + 4 + 1;

    /// Counts one more diff of `diff_size` bytes, applied or failed, at time
    /// `now`, and recomputes the average size (times 1000).
    pub fn update_stats_at(&mut self, success: bool, diff_size: usize, now: i64)
        requires
            old(self).total_diffs < u64::MAX,
            success ==> old(self).total_applied < u64::MAX,
            !success ==> old(self).total_failed < u64::MAX,
            (old(self).total_bytes_processed + diff_size) * 1000 <= u64::MAX,
        ensures
            final(self).total_diffs == old(self).total_diffs + 1,
            final(self).total_applied == old(self).total_applied + if success { 1int } else { 0int },
            final(self).total_failed == old(self).total_failed + if success { 0int } else { 1int },
            final(self).total_bytes_processed == old(self).total_bytes_processed + diff_size,
            final(self).average_diff_size_scaled == final(self).total_bytes_processed * 1000 / final(self).total_diffs as int,
            final(self).last_diff_at == now,
            final(self).authority == old(self).authority,
            final(self).is_paused == old(self).is_paused,
            final(self).max_diff_size == old(self).max_diff_size,
            final(self).bump == old(self).bump,
    {
        self.total_diffs = self.total_diffs + 1;
        if success {
            self.total_applied = self.total_applied + 1;
        } else {
            self.total_failed = self.total_failed + 1;
        }
        self.total_bytes_processed = self.total_bytes_processed + diff_size as u64;
        if self.total_diffs > 0 {
            self.average_diff_size_scaled = (self.total_bytes_processed * 1000) / self.total_diffs;
        }
        self.last_diff_at = now;
    }

    /// `update_stats_at` at the clock's time (0 where the clock cannot be read).
    pub fn update_stats(&mut self, success: bool, diff_size: usize)
        requires
            old(self).total_diffs < u64::MAX,
            success ==> old(self).total_applied < u64::MAX,
            !success ==> old(self).total_failed < u64::MAX,
            (old(self).total_bytes_processed + diff_size) * 1000 <= u64::MAX,
        ensures
            final(self).total_diffs == old(self).total_diffs + 1,
            final(self).total_applied == old(self).total_applied + if success { 1int } else { 0int },
            final(self).total_failed == old(self).total_failed + if success { 0int } else { 1int },
            final(self).total_bytes_processed == old(self).total_bytes_processed + diff_size,
            final(self).average_diff_size_scaled == final(self).total_bytes_processed * 1000 / final(self).total_diffs as int,
            final(self).authority == old(self).authority,
            final(self).max_diff_size == old(self).max_diff_size,
    {
        let now = clock_unix_timestamp();
        self.update_stats_at(success, diff_size, now);
    }

    /// Refuses a diff larger than the maximum with `DiffSizeExceeded`.
    pub fn validate_diff_size(&self, diff_size: usize) -> (r: Result<(), ValenceError>)
        ensures
            diff_size > self.max_diff_size ==> r == Err::<(), ValenceError>(ValenceError::DiffSizeExceeded),
            diff_size <= self.max_diff_size ==> r is Ok,
    {
        if diff_size > self.max_diff_size as usize {
            return Err(ValenceError::DiffSizeExceeded);
        }
        Ok(())
    }
}

} // verus!
