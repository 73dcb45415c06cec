//! Allocation of resources to shards.

use vstd::prelude::*;
use crate::error::ValenceError;
use crate::pubkey::Pubkey;

verus! {

/// Allocates resources across shards.
pub struct ResourceAllocator;

/// What a shard asks for.
#[derive(Debug, Clone, Copy)]
pub struct ShardResourceRequirement {
    pub shard_id: Pubkey,
    pub requested: u64,
}

/// What a shard is given.
#[derive(Debug, Clone, Copy)]
pub struct ShardResourceAllocation {
    pub shard_id: Pubkey,
    pub allocated: u64,
}

/// The total of the first `n` requests.
pub open spec fn requested_total(v: Seq<ShardResourceRequirement>, n: int) -> nat
    decreases n,
{
    if n <= 0 || n > v.len() {
        0
    } else {
        (requested_total(v, n - 1) + v[n - 1].requested) as nat
    }
}

impl ResourceAllocator {
    /// Gives each shard what it asks for, refused with
    /// `ResourceAllocationFailed` when the requests exceed what is available.
    pub fn allocate_resources(shard_requirements: &Vec<ShardResourceRequirement>, total_available: u64) -> (r: Result<Vec<ShardResourceAllocation>, ValenceError>)
        requires
            requested_total(shard_requirements@, shard_requirements@.len() as int) <= u64::MAX,
        ensures
            requested_total(shard_requirements@, shard_requirements@.len() as int) > total_available ==>
                r == Err::<Vec<ShardResourceAllocation>, ValenceError>(ValenceError::ResourceAllocationFailed),
            requested_total(shard_requirements@, shard_requirements@.len() as int) <= total_available ==> (r matches Ok(a)
                && a@.len() == shard_requirements@.len()
                && forall|i: int| 0 <= i < a@.len() ==> (#[trigger] a@[i]).shard_id == shard_requirements@[i].shard_id
                    && a@[i].allocated == shard_requirements@[i].requested),
    {
        let ghost v = shard_requirements@;
        let mut total: u64 = 0;
        let mut i: usize = 0;
        while i < shard_requirements.len()
            invariant
                i <= shard_requirements.len(),
                v == shard_requirements@,
                requested_total(v, v.len() as int) <= u64::MAX,
                total == requested_total(v, i as int),
            decreases shard_requirements.len() - i,
        {
            proof {
                lemma_total_monotone(v, i + 1, v.len() as int);
            }
            total = total + shard_requirements[i].requested;
            i += 1;
        }
        if total > total_available {
            return Err(ValenceError::ResourceAllocationFailed);
        }
        let mut allocations: Vec<ShardResourceAllocation> = Vec::new();
        let mut i: usize = 0;
        while i < shard_requirements.len()
            invariant
                i <= shard_requirements.len(),
                allocations@.len() == i,
                forall|j: int| 0 <= j < i ==> (#[trigger] allocations@[j]).shard_id == shard_requirements@[j].shard_id
                    && allocations@[j].allocated == shard_requirements@[j].requested,
            decreases shard_requirements.len() - i,
        {
            allocations.push(ShardResourceAllocation { shard_id: shard_requirements[i].shard_id, allocated: shard_requirements[i].requested });
            i += 1;
        }
        Ok(allocations)
    }

    /// Whether `required` fits in `available`.
    pub fn check_availability(required: u64, available: u64) -> (r: bool)
        ensures
            r == (required <= available),
    {
        required <= available
    }
}

/// The total of a prefix is at most that of a longer prefix.
proof fn lemma_total_monotone(v: Seq<ShardResourceRequirement>, a: int, b: int)
    requires
        0 <= a <= b <= v.len(),
    ensures
        requested_total(v, a) <= requested_total(v, b),
    decreases b - a,
{
    if a < b {
        lemma_total_monotone(v, a, b - 1);
    }
}

} // verus!
