//! The processor's account and its statistics.

use vstd::prelude::*;
use crate::pubkey::Pubkey;
use crate::runtime::clock_unix_timestamp;

verus! {

/// The account of the processor.
#[derive(Debug, Clone, Copy)]
pub struct ProcessorState {
    /// Authority that controls the processor.
    pub authority: Pubkey,
    pub is_paused: bool,
    pub total_executions: u64,
    pub total_successes: u64,
    pub total_failures: u64,
    pub total_gas_consumed: u64,
    /// Average gas per execution, times 1000.
    pub average_gas_scaled: u64,
    pub last_execution_at: i64,
    /// PDA bump seed.
    pub bump: u8,
}

impl ProcessorState {
    /// The account space of the processor state.
    pub const SPACE: usize = 8 + 32 + 1 + 8 + 8 + 8 + 8 + 8 + 8 + 1;

    /// Counts one more execution, successful or failed, that used
    /// `gas_used`, at time `now`, and recomputes the average gas (times 1000).
    pub fn update_stats_at(&mut self, success: bool, gas_used: u64, now: i64)
        requires
            old(self).total_executions < u64::MAX,
            success ==> old(self).total_successes < u64::MAX,
            !success ==> old(self).total_failures < u64::MAX,
            (old(self).total_gas_consumed + gas_used) * 1000 <= u64::MAX,
        ensures
            final(self).total_executions == old(self).total_executions + 1,
            final(self).total_successes == old(self).total_successes + if success { 1int } else { 0int },
            final(self).total_failures == old(self).total_failures + if success { 0int } else { 1int },
            final(self).total_gas_consumed == old(self).total_gas_consumed + gas_used,
            final(self).average_gas_scaled == final(self).total_gas_consumed * 1000 / final(self).total_executions as int,
            final(self).last_execution_at == now,
            final(self).authority == old(self).authority,
            final(self).is_paused == old(self).is_paused,
            final(self).bump == old(self).bump,
    {
        self.total_executions = self.total_executions + 1;
        if success {
            self.total_successes = self.total_successes + 1;
        } else {
            self.total_failures = self.total_failures + 1;
        }
        self.total_gas_consumed = self.total_gas_consumed + gas_used;
        if self.total_executions > 0 {
            self.average_gas_scaled = (self.total_gas_consumed * 1000) / self.total_executions;
        }
        self.last_execution_at = now;
    }

    /// `update_stats_at` at the clock's time (0 where the clock cannot be read).
    pub fn update_stats(&mut self, success: bool, gas_used: u64)
        requires
            old(self).total_executions < u64::MAX,
            success ==> old(self).total_successes < u64::MAX,
            !success ==> old(self).total_failures < u64::MAX,
            (old(self).total_gas_consumed + gas_used) * 1000 <= u64::MAX,
        ensures
            final(self).total_executions == old(self).total_executions + 1,
            final(self).total_successes == old(self).total_successes + if success { 1int } else { 0int },
            final(self).total_failures == old(self).total_failures + if success { 0int } else { 1int },
            final(self).total_gas_consumed == old(self).total_gas_consumed + gas_used,
            final(self).average_gas_scaled == final(self).total_gas_consumed * 1000 / final(self).total_executions as int,
            final(self).authority == old(self).authority,
            final(self).is_paused == old(self).is_paused,
            final(self).bump == old(self).bump,
    {
        let now = clock_unix_timestamp();
        self.update_stats_at(success, gas_used, now);
    }
}

} // verus!
