//! Priority-based choice among capabilities.

use vstd::prelude::*;
use crate::pubkey::Pubkey;
use crate::scheduler::topological_scheduler::{desc_order, order_by_keys, index_ints, key_ints};

verus! {

broadcast use vstd::seq_lib::group_seq_properties;

/// Computes priorities of capability executions.
pub struct PriorityEngine;

/// A capability with its priority.
#[derive(Debug)]
pub struct PriorityCapability {
    pub capability_id: String,
    pub shard_id: Pubkey,
    pub priority: u8,
    pub timestamp: i64,
}

/// The abstract value of a capability with its priority.
pub open spec fn pc_view(c: PriorityCapability) -> (Seq<char>, Seq<u8>, u8, i64) {
    (c.capability_id@, c.shard_id.bytes@, c.priority, c.timestamp)
}

/// The abstract values of capabilities with priorities.
pub open spec fn pc_views(v: Seq<PriorityCapability>) -> Seq<(Seq<char>, Seq<u8>, u8, i64)> {
    v.map_values(|c: PriorityCapability| pc_view(c))
}

/// The priorities, as integers.
pub open spec fn pc_keys(v: Seq<PriorityCapability>) -> Seq<int> {
    v.map_values(|c: PriorityCapability| c.priority as int)
}

/// The last index among the first `n` with the highest priority.
pub open spec fn last_max_index(v: Seq<PriorityCapability>, n: int) -> int
    decreases n,
{
    if n <= 1 {
        0
    } else {
        let m = last_max_index(v, n - 1);
        if v[n - 1].priority >= v[m].priority { n - 1 } else { m }
    }
}

impl PriorityCapability {
    /// A copy of the capability.
    pub fn copy_capability(&self) -> (r: PriorityCapability)
        ensures
            pc_view(r) == pc_view(*self),
    {
        PriorityCapability { capability_id: self.capability_id.clone(), shard_id: self.shard_id, priority: self.priority, timestamp: self.timestamp }
    }
}

impl PriorityEngine {
    /// The priority of a capability: its base priority, one more (saturating)
    /// when the shard's load is at most 100.
    pub fn calculate_priority(_capability_id: &String, shard_load: u64, base_priority: u8) -> (r: u8)
        ensures
            r == if shard_load > 100 || base_priority == 255 { base_priority } else { (base_priority + 1) as u8 },
    {
        let load_factor: u8 = if shard_load > 100 { 0 } else { 1 };
        base_priority.saturating_add(load_factor)
    }

    /// The capabilities sorted by priority, highest first, stably.
    pub fn sort_by_priority(capabilities: Vec<PriorityCapability>) -> (r: Vec<PriorityCapability>)
        ensures
            pc_views(r@) == desc_order(pc_keys(capabilities@)).map_values(|i: int| pc_view(capabilities@[i])),
    {
        let mut keys: Vec<u8> = Vec::new();
        let mut i: usize = 0;
        while i < capabilities.len()
            invariant
                i <= capabilities.len(),
                key_ints(keys@) == pc_keys(capabilities@).take(i as int),
            decreases capabilities.len() - i,
        {
            let ghost prev = keys@;
            keys.push(capabilities[i].priority);
            assert(key_ints(keys@) =~= key_ints(prev).push(capabilities@[i as int].priority as int));
            assert(pc_keys(capabilities@).take(i + 1) =~= pc_keys(capabilities@).take(i as int).push(capabilities@[i as int].priority as int));
            i += 1;
        }
        assert(pc_keys(capabilities@).take(capabilities.len() as int) =~= pc_keys(capabilities@));
        let order = order_by_keys(&keys);
        let ghost oi = index_ints(order@);
        let mut r: Vec<PriorityCapability> = Vec::new();
        let mut j: usize = 0;
        while j < order.len()
            invariant
                j <= order.len(),
                keys.len() == capabilities.len(),
                oi == index_ints(order@),
                forall|m: int| 0 <= m < order.len() ==> #[trigger] order@[m] < keys.len(),
                pc_views(r@) == oi.take(j as int).map_values(|i: int| pc_view(capabilities@[i])),
            decreases order.len() - j,
        {
            let ghost prev = pc_views(r@);
            r.push(capabilities[order[j]].copy_capability());
            assert(pc_views(r@) =~= prev.push(pc_view(capabilities@[oi[j as int]])));
            assert(oi.take(j + 1).map_values(|i: int| pc_view(capabilities@[i])) =~= oi.take(j as int).map_values(|i: int| pc_view(capabilities@[i])).push(pc_view(capabilities@[oi[j as int]])));
            j += 1;
        }
        assert(oi.take(order.len() as int) =~= oi);
        r
    }

    /// The capability with the highest priority, the last such among ties;
    /// none for no capability.
    pub fn get_next_high_priority(capabilities: &Vec<PriorityCapability>) -> (r: Option<&PriorityCapability>)
        ensures
            capabilities@.len() == 0 ==> r is None,
            capabilities@.len() > 0 ==> r == Some(&capabilities@[last_max_index(capabilities@, capabilities@.len() as int)]),
    {
        if capabilities.len() == 0 {
            return None;
        }
        let mut best: usize = 0;
        let mut i: usize = 1;
        while i < capabilities.len()
            invariant
                1 <= i <= capabilities.len(),
                best == last_max_index(capabilities@, i as int),
                best < i,
            decreases capabilities.len() - i,
        {
            if capabilities[i].priority >= capabilities[best].priority {
                best = i;
            }
            i += 1;
        }
        Some(&capabilities[best])
    }
}

} // verus!
