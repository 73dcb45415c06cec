//! Scheduling of capabilities in batches that respect their dependencies.

use vstd::prelude::*;
use crate::error::FrameworkError;
use crate::text::{views, push_unique, contains_string};
use crate::runtime::clock_get;
use crate::capabilities::ordering_rules::copy_strings;
use crate::scheduler::dependency_graph::{
    DependencyGraph, EdgesView, depends_on, ready_wrt, done_before, leveled, layer_views, has_cycle, is_endpoint,
};
use crate::scheduler::partial_order_composer::{ComposedPartialOrder, priority_views};

verus! {

broadcast use vstd::seq_lib::group_seq_properties;

/// An execution order for capabilities.
#[derive(Debug)]
pub struct ExecutionSchedule {
    /// Batches in execution order; the capabilities of a batch may run concurrently.
    pub execution_batches: Vec<ExecutionBatch>,
    /// Number of capabilities of the composed order.
    pub total_capabilities: usize,
    /// Size of the largest batch.
    pub max_parallelism: usize,
    /// How the schedule was made.
    pub metadata: SchedulingMetadata,
}

/// A batch of capabilities that may run concurrently.
#[derive(Debug)]
pub struct ExecutionBatch {
    /// Capabilities of the batch.
    pub capabilities: Vec<String>,
    /// Priority of the batch (higher runs first).
    pub priority: u8,
    /// Expected execution time of the batch.
    pub estimated_duration: Option<u64>,
}

/// Facts about how a schedule was computed.
#[derive(Debug, Clone, Copy)]
pub struct SchedulingMetadata {
    /// Algorithm used.
    pub algorithm: SchedulingAlgorithm,
    /// Time taken to compute the schedule.
    pub computation_time_ms: u64,
    /// Whether every capability runs after all its dependencies.
    pub is_optimal: bool,
    /// Number of dependencies that run late.
    pub constraint_violations: u32,
}

/// Available scheduling algorithms.
#[derive(Debug, Clone, Copy, PartialEq, Eq, Structural)]
pub enum SchedulingAlgorithm {
    /// Kahn's algorithm, level by level.
    Kahn,
    /// Depth-first topological sort.
    DfsTopological,
    /// Kahn's levels reordered by priority.
    PriorityBased,
    /// Resource-aware scheduling (currently the priority-based one).
    ResourceAware,
}

/// The topological scheduler.
pub struct TopologicalScheduler;

/// The capabilities of each batch.
pub open spec fn batch_views(bs: Seq<ExecutionBatch>) -> Seq<Seq<Seq<char>>> {
    bs.map_values(|b: ExecutionBatch| views(b.capabilities@))
}

/// The priority a table gives `cap` (its first entry), 128 if it has none.
pub open spec fn priority_of(t: Seq<(Seq<char>, int)>, cap: Seq<char>) -> int
    decreases t.len(),
{
    if t.len() == 0 {
        128
    } else if t[0].0 == cap {
        t[0].1
    } else {
        priority_of(t.drop_first(), cap)
    }
}

/// The highest priority among `caps`, 0 for none.
pub open spec fn max_priority(t: Seq<(Seq<char>, int)>, caps: Seq<Seq<char>>) -> int
    decreases caps.len(),
{
    if caps.len() == 0 {
        0
    } else {
        let m = max_priority(t, caps.drop_last());
        let p = priority_of(t, caps.last());
        if p > m { p } else { m }
    }
}

/// The priority of a batch: the highest priority of its capabilities, 128 when empty.
pub open spec fn batch_priority(t: Seq<(Seq<char>, int)>, caps: Seq<Seq<char>>) -> int {
    if caps.len() == 0 { 128 } else { max_priority(t, caps) }
}

/// Each batch carries its priority and no duration estimate.
pub open spec fn prioritized(t: Seq<(Seq<char>, int)>, bs: Seq<ExecutionBatch>) -> bool {
    forall|k: int| 0 <= k < bs.len() ==> (#[trigger] bs[k]).priority == batch_priority(t, views(bs[k].capabilities@))
        && bs[k].estimated_duration is None
}

/// `bs` layers the nodes by dependency depth: layer `k` holds exactly the
/// nodes, not in an earlier layer, whose dependencies all lie in earlier
/// layers; nodes never placed can never become ready.
pub open spec fn layering_of(g: EdgesView, nodes: Set<Seq<char>>, bs: Seq<Seq<Seq<char>>>) -> bool {
    &&& forall|k: int| 0 <= k < bs.len() ==> #[trigger] bs[k].len() > 0
    &&& bs.flatten().no_duplicates()
    &&& forall|x: Seq<char>| #[trigger] bs.flatten().contains(x) ==> nodes.contains(x)
    &&& forall|k: int, j: int| 0 <= k < bs.len() && 0 <= j < bs[k].len() ==> ready_wrt(g, #[trigger] bs[k][j], done_before(bs, k))
    &&& forall|k: int, j: int| 0 < k < bs.len() && 0 <= j < bs[k].len() ==> !ready_wrt(g, #[trigger] bs[k][j], done_before(bs, k - 1))
    &&& forall|x: Seq<char>| #[trigger] nodes.contains(x) && !bs.flatten().contains(x) ==> !ready_wrt(g, x, bs.flatten())
}

/// The nodes Kahn's algorithm schedules: the capabilities and every capability with a dependency.
pub open spec fn kahn_nodes(o: ComposedPartialOrder) -> Set<Seq<char>> {
    Set::new(|x: Seq<char>| views(o.capabilities@).contains(x) || exists|b: Seq<char>| #[trigger] depends_on(o.dependency_graph@, x, b))
}

/// The nodes the depth-first sort schedules: the capabilities and every end of a dependency.
pub open spec fn dfs_nodes(o: ComposedPartialOrder) -> Set<Seq<char>> {
    Set::new(|x: Seq<char>| views(o.capabilities@).contains(x) || is_endpoint(o.dependency_graph@, x))
}

/// The priority table of a composed order.
pub open spec fn table_of(o: ComposedPartialOrder) -> Seq<(Seq<char>, int)> {
    priority_views(o.priorities@)
}

/// The indices `i < n` with `keys[i] == level`, increasing.
pub open spec fn indices_at(keys: Seq<int>, level: int, n: int) -> Seq<int>
    decreases n,
{
    if n <= 0 {
        seq![]
    } else {
        indices_at(keys, level, n - 1) + if keys[n - 1] == level { seq![n - 1] } else { seq![] }
    }
}

/// The indices whose key is `lo` or more, by key from 255 down, ties in index order.
pub open spec fn levels_from(keys: Seq<int>, lo: int) -> Seq<int>
    decreases 256 - lo,
{
    if lo > 255 {
        seq![]
    } else {
        levels_from(keys, lo + 1) + indices_at(keys, lo, keys.len() as int)
    }
}

/// The indices of `keys` (each in 0..=255) ordered by key, highest first,
/// equal keys in the order they came: a stable descending sort.
pub open spec fn desc_order(keys: Seq<int>) -> Seq<int> {
    levels_from(keys, 0)
}

/// The capabilities sorted by priority, highest first, stably.
pub open spec fn reorder_caps(t: Seq<(Seq<char>, int)>, caps: Seq<Seq<char>>) -> Seq<Seq<char>> {
    desc_order(caps.map_values(|c: Seq<char>| priority_of(t, c))).map_values(|i: int| caps[i])
}

/// Kahn's levels, in their dependency order, with each level sorted by
/// priority, highest first, stably.
pub open spec fn priority_schedule_of(t: Seq<(Seq<char>, int)>, base: Seq<Seq<Seq<char>>>) -> Seq<Seq<Seq<char>>> {
    base.map_values(|b: Seq<Seq<char>>| reorder_caps(t, b))
}

/// Every capability runs after all its dependencies.
pub open spec fn respects(g: EdgesView, bs: Seq<Seq<Seq<char>>>) -> bool {
    forall|k: int, j: int| 0 <= k < bs.len() && 0 <= j < bs[k].len() ==> ready_wrt(g, #[trigger] bs[k][j], done_before(bs, k))
}

/// The number of edges of `g` among the first `n` from `x` to a dependency not in `done`.
pub open spec fn missing_upto(g: EdgesView, x: Seq<char>, done: Seq<Seq<char>>, n: int) -> nat
    decreases n,
{
    if n <= 0 {
        0
    } else {
        missing_upto(g, x, done, n - 1) + if g[n - 1].0 == x && !done.contains(g[n - 1].1) { 1nat } else { 0nat }
    }
}

/// The dependencies of the capabilities of `batch` that are not in `done`, counted.
pub open spec fn batch_missing(g: EdgesView, batch: Seq<Seq<char>>, done: Seq<Seq<char>>) -> nat
    decreases batch.len(),
{
    if batch.len() == 0 {
        0
    } else {
        batch_missing(g, batch.drop_last(), done) + missing_upto(g, batch.last(), done, g.len() as int)
    }
}

/// The dependencies, over the first `k` batches, that run late.
pub open spec fn violations_upto(g: EdgesView, bs: Seq<Seq<Seq<char>>>, k: int) -> nat
    decreases k,
{
    if k <= 0 {
        0
    } else {
        violations_upto(g, bs, k - 1) + batch_missing(g, bs[k - 1], done_before(bs, k - 1))
    }
}

/// `n`, or `u32::MAX` when `n` is larger.
pub open spec fn capped(n: nat) -> int {
    if n > u32::MAX { u32::MAX as int } else { n as int }
}

/// The capabilities of `batch` not in `done`, in order.
pub open spec fn pending_in(batch: Seq<Seq<char>>, done: Seq<Seq<char>>) -> Seq<Seq<char>>
    decreases batch.len(),
{
    if batch.len() == 0 {
        seq![]
    } else {
        pending_in(batch.drop_last(), done) + if done.contains(batch.last()) { seq![] } else { seq![batch.last()] }
    }
}

/// The pending capabilities of the first batch that has any.
pub open spec fn first_pending(bs: Seq<Seq<Seq<char>>>, done: Seq<Seq<char>>) -> Seq<Seq<char>>
    decreases bs.len(),
{
    if bs.len() == 0 {
        seq![]
    } else if pending_in(bs[0], done).len() > 0 {
        pending_in(bs[0], done)
    } else {
        first_pending(bs.drop_first(), done)
    }
}

/// The abstract value of a batch: capabilities, priority, duration estimate.
pub open spec fn bview(b: ExecutionBatch) -> (Seq<Seq<char>>, u8, Option<u64>) {
    (views(b.capabilities@), b.priority, b.estimated_duration)
}

/// The abstract values of batches.
pub open spec fn bviews(bs: Seq<ExecutionBatch>) -> Seq<(Seq<Seq<char>>, u8, Option<u64>)> {
    bs.map_values(|b: ExecutionBatch| bview(b))
}

/// The batches with the `done` capabilities removed and empty batches dropped.
pub open spec fn after_completion(bs: Seq<(Seq<Seq<char>>, u8, Option<u64>)>, done: Seq<Seq<char>>) -> Seq<(Seq<Seq<char>>, u8, Option<u64>)>
    decreases bs.len(),
{
    if bs.len() == 0 {
        seq![]
    } else {
        let b = bs.last();
        let rest = pending_in(b.0, done);
        after_completion(bs.drop_last(), done) + if rest.len() > 0 { seq![(rest, b.1, b.2)] } else { seq![] }
    }
}

/// The size of the largest batch, 0 for none.
pub open spec fn max_len(bs: Seq<Seq<Seq<char>>>) -> int
    decreases bs.len(),
{
    if bs.len() == 0 {
        0
    } else {
        let m = max_len(bs.drop_last());
        if bs.last().len() > m { bs.last().len() as int } else { m }
    }
}

/// The batches the algorithm gives for the composed order.
pub open spec fn scheduled_by(o: ComposedPartialOrder, algorithm: SchedulingAlgorithm, bs: Seq<ExecutionBatch>) -> bool {
    let g = o.dependency_graph@;
    let t = table_of(o);
    match algorithm {
        SchedulingAlgorithm::Kahn => layering_of(g, kahn_nodes(o), batch_views(bs)) && prioritized(t, bs),
        SchedulingAlgorithm::DfsTopological => layering_of(g, dfs_nodes(o), batch_views(bs)) && prioritized(t, bs),
        _ => (exists|base: Seq<Seq<Seq<char>>>| #[trigger] layering_of(g, kahn_nodes(o), base) && batch_views(bs) == priority_schedule_of(t, base))
            && prioritized(t, bs),
    }
}

/// A `leveled` layering over a node list is a layering of the node set.
pub proof fn lemma_leveled_layering(g: EdgesView, nodes: Seq<Seq<char>>, s: Set<Seq<char>>, bs: Seq<Seq<Seq<char>>>)
    requires
        leveled(g, nodes, bs),
        forall|x: Seq<char>| nodes.contains(x) <==> #[trigger] s.contains(x),
    ensures
        layering_of(g, s, bs),
{
}

/// A capability whose dependencies have all run has no late dependency.
proof fn lemma_ready_none_missing(g: EdgesView, x: Seq<char>, done: Seq<Seq<char>>, n: int)
    requires
        ready_wrt(g, x, done),
        n <= g.len(),
    ensures
        missing_upto(g, x, done, n) == 0,
    decreases n,
{
    if n > 0 {
        lemma_ready_none_missing(g, x, done, n - 1);
        if g[n - 1].0 == x {
            assert(g[n - 1] == (x, g[n - 1].1));
            assert(depends_on(g, x, g[n - 1].1));
        }
    }
}

/// A batch whose capabilities are all ready has no late dependency.
proof fn lemma_batch_none_missing(g: EdgesView, batch: Seq<Seq<char>>, done: Seq<Seq<char>>)
    requires
        forall|j: int| 0 <= j < batch.len() ==> ready_wrt(g, #[trigger] batch[j], done),
    ensures
        batch_missing(g, batch, done) == 0,
    decreases batch.len(),
{
    if batch.len() > 0 {
        assert forall|j: int| 0 <= j < batch.drop_last().len() implies ready_wrt(g, #[trigger] batch.drop_last()[j], done) by {
            assert(batch.drop_last()[j] == batch[j]);
        }
        lemma_batch_none_missing(g, batch.drop_last(), done);
        assert(ready_wrt(g, batch[batch.len() - 1], done));
        lemma_ready_none_missing(g, batch.last(), done, g.len() as int);
    }
}

/// A schedule in which every capability runs after its dependencies counts
/// no violation.
pub proof fn lemma_respecting_schedule_no_violations(g: EdgesView, bs: Seq<Seq<Seq<char>>>, k: int)
    requires
        respects(g, bs),
        k <= bs.len(),
    ensures
        violations_upto(g, bs, k) == 0,
    decreases k,
{
    if k > 0 {
        lemma_respecting_schedule_no_violations(g, bs, k - 1);
        assert forall|j: int| 0 <= j < bs[k - 1].len() implies ready_wrt(g, #[trigger] bs[k - 1][j], done_before(bs, k - 1)) by {}
        lemma_batch_none_missing(g, bs[k - 1], done_before(bs, k - 1));
    }
}

/// The indices below `n` with key `level` are those collected.
proof fn lemma_indices_at(keys: Seq<int>, level: int, n: int, i: int)
    requires
        0 <= n <= keys.len(),
    ensures
        indices_at(keys, level, n).contains(i) <==> (0 <= i < n && keys[i] == level),
    decreases n,
{
    if n > 0 {
        lemma_indices_at(keys, level, n - 1, i);
        let prev = indices_at(keys, level, n - 1);
        if keys[n - 1] == level {
            assert(indices_at(keys, level, n) == prev + seq![n - 1]);
            assert((prev + seq![n - 1])[prev.len() as int] == n - 1);
        } else {
            assert(indices_at(keys, level, n) =~= prev);
        }
    }
}

/// The levels from `lo` collect exactly the indices whose key lies in `lo..=255`.
proof fn lemma_levels_from(keys: Seq<int>, lo: int, i: int)
    requires
        0 <= lo <= 256,
    ensures
        levels_from(keys, lo).contains(i) <==> (0 <= i < keys.len() && lo <= keys[i] <= 255),
    decreases 256 - lo,
{
    if lo <= 255 {
        lemma_levels_from(keys, lo + 1, i);
        lemma_indices_at(keys, lo, keys.len() as int, i);
    }
}

/// Sorting a level by priority keeps exactly its capabilities, where every
/// priority lies in `0..=255`.
proof fn lemma_reorder_same(t: Seq<(Seq<char>, int)>, b: Seq<Seq<char>>, x: Seq<char>)
    requires
        forall|j: int| 0 <= j < t.len() ==> 0 <= #[trigger] t[j].1 <= 255,
    ensures
        reorder_caps(t, b).contains(x) <==> b.contains(x),
{
    let keys = b.map_values(|c: Seq<char>| priority_of(t, c));
    let order = desc_order(keys);
    let r = reorder_caps(t, b);
    assert(r == order.map_values(|i: int| b[i]));
    if b.contains(x) {
        let i = choose|i: int| 0 <= i < b.len() && b[i] == x;
        lemma_priority_of_range(t, x);
        assert(keys[i] == priority_of(t, x));
        lemma_levels_from(keys, 0, i);
        let p = choose|p: int| 0 <= p < order.len() && order[p] == i;
        assert(r[p] == x);
    }
    if r.contains(x) {
        let p = choose|p: int| 0 <= p < r.len() && r[p] == x;
        assert(order.contains(order[p]));
        lemma_levels_from(keys, 0, order[p]);
        assert(b[order[p]] == x);
    }
}

/// A priority looked up in a table of values in `0..=255` lies in that range.
proof fn lemma_priority_of_range(t: Seq<(Seq<char>, int)>, cap: Seq<char>)
    requires
        forall|j: int| 0 <= j < t.len() ==> 0 <= #[trigger] t[j].1 <= 255,
    ensures
        0 <= priority_of(t, cap) <= 255,
    decreases t.len(),
{
    if t.len() > 0 && t[0].0 != cap {
        assert forall|j: int| 0 <= j < t.drop_first().len() implies 0 <= #[trigger] t.drop_first()[j].1 <= 255 by {
            assert(t.drop_first()[j] == t[j + 1]);
        }
        lemma_priority_of_range(t.drop_first(), cap);
    } else if t.len() > 0 {
        assert(0 <= t[0].1 <= 255);
    }
}

/// Sorting each level keeps what the levels before `k` hold.
proof fn lemma_done_before_reordered(t: Seq<(Seq<char>, int)>, base: Seq<Seq<Seq<char>>>, k: int, x: Seq<char>)
    requires
        forall|j: int| 0 <= j < t.len() ==> 0 <= #[trigger] t[j].1 <= 255,
        0 <= k <= base.len(),
    ensures
        done_before(priority_schedule_of(t, base), k).contains(x) <==> done_before(base, k).contains(x),
    decreases k,
{
    let r = priority_schedule_of(t, base);
    if k > 0 {
        lemma_done_before_reordered(t, base, k - 1, x);
        assert(r.take(k) =~= r.take(k - 1).push(r[k - 1]));
        assert(base.take(k) =~= base.take(k - 1).push(base[k - 1]));
        r.take(k - 1).lemma_flatten_push(r[k - 1]);
        base.take(k - 1).lemma_flatten_push(base[k - 1]);
        lemma_reorder_same(t, base[k - 1], x);
        assert(r[k - 1] == reorder_caps(t, base[k - 1]));
    } else {
        assert(r.take(0) =~= Seq::<Seq<Seq<char>>>::empty());
        assert(base.take(0) =~= Seq::<Seq<Seq<char>>>::empty());
    }
}

/// Sorting each level of a layering by priority still runs every
/// capability after all its dependencies.
proof fn lemma_priority_schedule_respects(g: EdgesView, nodes: Set<Seq<char>>, t: Seq<(Seq<char>, int)>, base: Seq<Seq<Seq<char>>>)
    requires
        layering_of(g, nodes, base),
        forall|j: int| 0 <= j < t.len() ==> 0 <= #[trigger] t[j].1 <= 255,
    ensures
        respects(g, priority_schedule_of(t, base)),
{
    let r = priority_schedule_of(t, base);
    assert forall|k: int, j: int| 0 <= k < r.len() && 0 <= j < r[k].len() implies ready_wrt(g, #[trigger] r[k][j], done_before(r, k)) by {
        let y = r[k][j];
        assert(r[k] == reorder_caps(t, base[k]));
        assert(r[k].contains(y));
        lemma_reorder_same(t, base[k], y);
        let m = choose|m: int| 0 <= m < base[k].len() && base[k][m] == y;
        assert(ready_wrt(g, base[k][m], done_before(base, k)));
        assert forall|b: Seq<char>| #[trigger] depends_on(g, y, b) implies done_before(r, k).contains(b) by {
            lemma_done_before_reordered(t, base, k, b);
        }
    }
}

/// Every algorithm's schedule runs every capability after all its
/// dependencies, so it is optimal and counts no violation.
pub proof fn lemma_layered_schedule_sound(o: ComposedPartialOrder, algorithm: SchedulingAlgorithm, bs: Seq<ExecutionBatch>)
    requires
        scheduled_by(o, algorithm, bs),
    ensures
        respects(o.dependency_graph@, batch_views(bs)),
        violations_upto(o.dependency_graph@, batch_views(bs), bs.len() as int) == 0,
{
    let t = table_of(o);
    if algorithm != SchedulingAlgorithm::Kahn && algorithm != SchedulingAlgorithm::DfsTopological {
        let base = choose|base: Seq<Seq<Seq<char>>>| #[trigger] layering_of(o.dependency_graph@, kahn_nodes(o), base)
            && batch_views(bs) == priority_schedule_of(t, base);
        assert forall|j: int| 0 <= j < t.len() implies 0 <= #[trigger] t[j].1 <= 255 by {
            assert(t[j].1 == o.priorities@[j].1 as int);
        }
        lemma_priority_schedule_respects(o.dependency_graph@, kahn_nodes(o), t, base);
    }
    lemma_respecting_schedule_no_violations(o.dependency_graph@, batch_views(bs), bs.len() as int);
}

/// Skipping entries for other capabilities does not change a lookup.
proof fn lemma_priority_of_skip(t: Seq<(Seq<char>, int)>, cap: Seq<char>, i: int)
    requires
        0 <= i <= t.len(),
        forall|j: int| 0 <= j < i ==> (#[trigger] t[j]).0 != cap,
    ensures
        priority_of(t, cap) == priority_of(t.skip(i), cap),
    decreases i,
{
    if i > 0 {
        assert(t.drop_first().skip(i - 1) =~= t.skip(i));
        assert forall|j: int| 0 <= j < i - 1 implies (#[trigger] t.drop_first()[j]).0 != cap by {
            assert(t.drop_first()[j] == t[j + 1]);
        }
        lemma_priority_of_skip(t.drop_first(), cap, i - 1);
    }
}

/// A priority from a table of bytes is a byte.
proof fn lemma_priority_of_byte(t: Seq<(String, u8)>, cap: Seq<char>)
    ensures
        0 <= priority_of(priority_views(t), cap) <= 255,
    decreases t.len(),
{
    let pv = priority_views(t);
    if t.len() > 0 && pv[0].0 != cap {
        assert(pv.drop_first() =~= priority_views(t.drop_first()));
        lemma_priority_of_byte(t.drop_first(), cap);
    }
}

impl ExecutionBatch {
    /// A copy of the batch.
    pub fn copy_batch(&self) -> (r: ExecutionBatch)
        ensures
            bview(r) == bview(*self),
    {
        ExecutionBatch { capabilities: copy_strings(&self.capabilities), priority: self.priority, estimated_duration: self.estimated_duration }
    }
}

impl TopologicalScheduler {
    /// The priority a table gives `cap` (its first entry), 128 if it has none.
    pub fn lookup_priority(priorities: &Vec<(String, u8)>, cap: &String) -> (r: u8)
        ensures
            r == priority_of(priority_views(priorities@), cap@),
    {
        let ghost pv = priority_views(priorities@);
        let mut i: usize = 0;
        while i < priorities.len()
            invariant
                i <= priorities.len(),
                pv == priority_views(priorities@),
                forall|j: int| 0 <= j < i ==> (#[trigger] pv[j]).0 != cap@,
            decreases priorities.len() - i,
        {
            if priorities[i].0 == *cap {
                proof {
                    lemma_priority_of_skip(pv, cap@, i as int);
                    assert(pv.skip(i as int)[0] == pv[i as int]);
                }
                return priorities[i].1;
            }
            i += 1;
        }
        proof {
            lemma_priority_of_skip(pv, cap@, i as int);
            assert(pv.skip(i as int).len() == 0);
        }
        128
    }

    /// The priority of a batch: the highest priority of its capabilities, 128 when empty.
    pub fn calculate_batch_priority(capabilities: &Vec<String>, priorities: &Vec<(String, u8)>) -> (r: u8)
        ensures
            r == batch_priority(priority_views(priorities@), views(capabilities@)),
    {
        if capabilities.len() == 0 {
            return 128;
        }
        let ghost pv = priority_views(priorities@);
        let mut m: u8 = 0;
        let mut i: usize = 0;
        while i < capabilities.len()
            invariant
                i <= capabilities.len(),
                pv == priority_views(priorities@),
                m == max_priority(pv, views(capabilities@).take(i as int)),
            decreases capabilities.len() - i,
        {
            let p = Self::lookup_priority(priorities, &capabilities[i]);
            assert(views(capabilities@).take(i + 1).drop_last() =~= views(capabilities@).take(i as int));
            if p > m {
                m = p;
            }
            i += 1;
        }
        assert(views(capabilities@).take(capabilities.len() as int) =~= views(capabilities@));
        m
    }

    /// Wraps each layer in a batch with its priority.
    fn batches_of(layers: &Vec<Vec<String>>, priorities: &Vec<(String, u8)>) -> (r: Vec<ExecutionBatch>)
        ensures
            batch_views(r@) == layer_views(layers@),
            prioritized(priority_views(priorities@), r@),
    {
        let mut r: Vec<ExecutionBatch> = Vec::new();
        let mut k: usize = 0;
        while k < layers.len()
            invariant
                k <= layers.len(),
                batch_views(r@) == layer_views(layers@).take(k as int),
                prioritized(priority_views(priorities@), r@),
            decreases layers.len() - k,
        {
            let caps = copy_strings(&layers[k]);
            let priority = Self::calculate_batch_priority(&caps, priorities);
            let ghost prev = r@;
            r.push(ExecutionBatch { capabilities: caps, priority, estimated_duration: None });
            proof {
                assert(batch_views(r@) =~= batch_views(prev).push(views(layers@[k as int]@)));
                assert(layer_views(layers@).take(k + 1) =~= layer_views(layers@).take(k as int).push(views(layers@[k as int]@)));
                assert forall|j: int| 0 <= j < r@.len() implies (#[trigger] r@[j]).priority == batch_priority(priority_views(priorities@), views(r@[j].capabilities@))
                    && r@[j].estimated_duration is None by {
                    if j < prev.len() {
                        assert(r@[j] == prev[j]);
                    }
                }
            }
            k += 1;
        }
        assert(layer_views(layers@).take(layers.len() as int) =~= layer_views(layers@));
        r
    }

    /// Kahn's algorithm: the capabilities, and every capability with a
    /// dependency, layered by dependency depth; capabilities caught in a
    /// cycle, or waiting on them, are left out.
    pub fn kahn_topological_sort(composed_order: &ComposedPartialOrder) -> (r: Result<Vec<ExecutionBatch>, FrameworkError>)
        ensures
            r matches Ok(bs) && layering_of(composed_order.dependency_graph@, kahn_nodes(*composed_order), batch_views(bs@))
                && prioritized(table_of(*composed_order), bs@),
    {
        let g = &composed_order.dependency_graph;
        let caps = &composed_order.capabilities;
        let mut nodes: Vec<String> = Vec::new();
        let mut i: usize = 0;
        while i < caps.len()
            invariant
                i <= caps.len(),
                views(nodes@).no_duplicates(),
                forall|x: Seq<char>| #[trigger] views(nodes@).contains(x) <==> views(caps@).take(i as int).contains(x),
            decreases caps.len() - i,
        {
            push_unique(&mut nodes, &caps[i]);
            proof {
                crate::text::lemma_take_succ_contains(views(caps@), i as int);
            }
            i += 1;
        }
        assert(views(caps@).take(caps.len() as int) =~= views(caps@));
        let mut e: usize = 0;
        while e < g.edges.len()
            invariant
                e <= g.edges.len(),
                views(nodes@).no_duplicates(),
                forall|x: Seq<char>| #[trigger] views(nodes@).contains(x) <==>
                    (views(caps@).contains(x) || exists|j: int| 0 <= j < e && (#[trigger] g@[j]).0 == x),
            decreases g.edges.len() - e,
        {
            push_unique(&mut nodes, &g.edges[e].0);
            proof {
                assert forall|x: Seq<char>| #[trigger] views(nodes@).contains(x) <==>
                    (views(caps@).contains(x) || exists|j: int| 0 <= j < e + 1 && (#[trigger] g@[j]).0 == x) by {
                    if x == g@[e as int].0 {
                        assert(0 <= e < e + 1 && g@[e as int].0 == x);
                    }
                }
            }
            e += 1;
        }
        let layers = g.layers(&nodes);
        proof {
            assert forall|x: Seq<char>| views(nodes@).contains(x) <==> #[trigger] kahn_nodes(*composed_order).contains(x) by {
                if exists|j: int| 0 <= j < g@.len() && (#[trigger] g@[j]).0 == x {
                    let j = choose|j: int| 0 <= j < g@.len() && (#[trigger] g@[j]).0 == x;
                    assert(depends_on(g@, x, g@[j].1));
                }
                if exists|b: Seq<char>| #[trigger] depends_on(g@, x, b) {
                    let b = choose|b: Seq<char>| #[trigger] depends_on(g@, x, b);
                    let j = choose|j: int| 0 <= j < g@.len() && g@[j] == (x, b);
                    assert(g@[j].0 == x);
                }
            }
            lemma_leveled_layering(g@, views(nodes@), kahn_nodes(*composed_order), layer_views(layers@));
        }
        Ok(Self::batches_of(&layers, &composed_order.priorities))
    }

    /// Groups capabilities into batches by dependency depth, in the order given.
    fn group_into_batches(ordered_capabilities: Vec<String>, dependency_graph: &DependencyGraph, priorities: &Vec<(String, u8)>) -> (r: Vec<ExecutionBatch>)
        requires
            views(ordered_capabilities@).no_duplicates(),
        ensures
            leveled(dependency_graph@, views(ordered_capabilities@), batch_views(r@)),
            prioritized(priority_views(priorities@), r@),
    {
        let layers = dependency_graph.layers(&ordered_capabilities);
        Self::batches_of(&layers, priorities)
    }

    /// Depth-first topological sort: fails when the dependencies form a
    /// cycle; otherwise the capabilities and every end of a dependency,
    /// layered by dependency depth.
    pub fn dfs_topological_sort(composed_order: &ComposedPartialOrder) -> (r: Result<Vec<ExecutionBatch>, FrameworkError>)
        ensures
            r is Err <==> has_cycle(composed_order.dependency_graph@),
            r matches Err(e) ==> e == FrameworkError::ConstraintRaw,
            r matches Ok(bs) ==> layering_of(composed_order.dependency_graph@, dfs_nodes(*composed_order), batch_views(bs@))
                && prioritized(table_of(*composed_order), bs@),
    {
        let g = &composed_order.dependency_graph;
        if g.has_cycles() {
            return Err(FrameworkError::ConstraintRaw);
        }
        let caps = &composed_order.capabilities;
        let mut nodes = g.endpoints();
        let ghost ends = views(nodes@);
        let mut i: usize = 0;
        while i < caps.len()
            invariant
                i <= caps.len(),
                views(nodes@).no_duplicates(),
                forall|x: Seq<char>| #[trigger] views(nodes@).contains(x) <==> (is_endpoint(g@, x) || views(caps@).take(i as int).contains(x)),
            decreases caps.len() - i,
        {
            push_unique(&mut nodes, &caps[i]);
            proof {
                crate::text::lemma_take_succ_contains(views(caps@), i as int);
            }
            i += 1;
        }
        assert(views(caps@).take(caps.len() as int) =~= views(caps@));
        let ghost nv = views(nodes@);
        let bs = Self::group_into_batches(nodes, g, &composed_order.priorities);
        proof {
            assert forall|x: Seq<char>| nv.contains(x) <==> #[trigger] dfs_nodes(*composed_order).contains(x) by {}
            lemma_leveled_layering(g@, nv, dfs_nodes(*composed_order), batch_views(bs@));
        }
        Ok(bs)
    }
}


/// The keys as integers.
pub open spec fn key_ints(keys: Seq<u8>) -> Seq<int> {
    keys.map_values(|k: u8| k as int)
}

/// The indices as integers.
pub open spec fn index_ints(v: Seq<usize>) -> Seq<int> {
    v.map_values(|i: usize| i as int)
}

/// The indices of `keys` sorted by key, highest first, stably.
pub fn order_by_keys(keys: &Vec<u8>) -> (r: Vec<usize>)
    ensures
        index_ints(r@) == desc_order(key_ints(keys@)),
        forall|j: int| 0 <= j < r.len() ==> #[trigger] r@[j] < keys.len(),
{
    let ghost ks = key_ints(keys@);
    let mut r: Vec<usize> = Vec::new();
    let mut level: u16 = 256;
    while level > 0
        invariant
            level <= 256,
            ks == key_ints(keys@),
            index_ints(r@) == levels_from(ks, level as int),
            forall|j: int| 0 <= j < r.len() ==> #[trigger] r@[j] < keys.len(),
        decreases level,
    {
        let lv: u16 = level - 1;
        let ghost base = index_ints(r@);
        let mut i: usize = 0;
        while i < keys.len()
            invariant
                i <= keys.len(),
                lv < 256,
                ks == key_ints(keys@),
                index_ints(r@) == base + indices_at(ks, lv as int, i as int),
                forall|j: int| 0 <= j < r.len() ==> #[trigger] r@[j] < keys.len(),
            decreases keys.len() - i,
        {
            let ghost prev = r@;
            if keys[i] as u16 == lv {
                r.push(i);
                assert(index_ints(r@) =~= index_ints(prev).push(i as int));
            }
            i += 1;
        }
        level = lv;
    }
    r
}

impl TopologicalScheduler {
    /// The capabilities sorted by priority, highest first, stably.
    pub fn sort_by_priority(capabilities: &Vec<String>, priorities: &Vec<(String, u8)>) -> (r: Vec<String>)
        ensures
            views(r@) == reorder_caps(priority_views(priorities@), views(capabilities@)),
    {
        let ghost t = priority_views(priorities@);
        let ghost cv = views(capabilities@);
        let mut keys: Vec<u8> = Vec::new();
        let mut i: usize = 0;
        while i < capabilities.len()
            invariant
                i <= capabilities.len(),
                t == priority_views(priorities@),
                cv == views(capabilities@),
                key_ints(keys@) == cv.map_values(|c: Seq<char>| priority_of(t, c)).take(i as int),
            decreases capabilities.len() - i,
        {
            let p = Self::lookup_priority(priorities, &capabilities[i]);
            let ghost prev = keys@;
            keys.push(p);
            assert(key_ints(keys@) =~= key_ints(prev).push(p as int));
            assert(cv.map_values(|c: Seq<char>| priority_of(t, c)).take(i + 1) =~= cv.map_values(|c: Seq<char>| priority_of(t, c)).take(i as int).push(priority_of(t, cv[i as int])));
            i += 1;
        }
        assert(cv.map_values(|c: Seq<char>| priority_of(t, c)).take(capabilities.len() as int) =~= cv.map_values(|c: Seq<char>| priority_of(t, c)));
        let order = order_by_keys(&keys);
        let ghost oi = index_ints(order@);
        let mut r: Vec<String> = Vec::new();
        let mut j: usize = 0;
        while j < order.len()
            invariant
                j <= order.len(),
                keys.len() == capabilities.len(),
                cv == views(capabilities@),
                oi == index_ints(order@),
                forall|m: int| 0 <= m < order.len() ==> #[trigger] order@[m] < keys.len(),
                views(r@) == oi.take(j as int).map_values(|i: int| cv[i]),
            decreases order.len() - j,
        {
            let ghost prev = views(r@);
            r.push(capabilities[order[j]].clone());
            assert(views(r@) =~= prev.push(cv[oi[j as int]]));
            assert(oi.take(j + 1).map_values(|i: int| cv[i]) =~= oi.take(j as int).map_values(|i: int| cv[i]).push(cv[oi[j as int]]));
            j += 1;
        }
        assert(oi.take(order.len() as int) =~= oi);
        r
    }

    /// Kahn's levels, kept in their dependency order, each sorted by priority
    /// (highest first, stably) with its priority recomputed.
    pub fn priority_based_schedule(composed_order: &ComposedPartialOrder) -> (r: Result<Vec<ExecutionBatch>, FrameworkError>)
        ensures
            r matches Ok(bs) && scheduled_by(*composed_order, SchedulingAlgorithm::PriorityBased, bs@),
    {
        let basic = match Self::kahn_topological_sort(composed_order) {
            Ok(b) => b,
            Err(e) => { return Err(e); }
        };
        let ghost base = batch_views(basic@);
        let ghost t = table_of(*composed_order);
        let priorities = &composed_order.priorities;
        let mut sorted: Vec<ExecutionBatch> = Vec::new();
        let mut k: usize = 0;
        while k < basic.len()
            invariant
                k <= basic.len(),
                base == batch_views(basic@),
                t == priority_views(priorities@),
                prioritized(t, basic@),
                batch_views(sorted@) == base.map_values(|b: Seq<Seq<char>>| reorder_caps(t, b)).take(k as int),
                prioritized(t, sorted@),
            decreases basic.len() - k,
        {
            let caps = Self::sort_by_priority(&basic[k].capabilities, priorities);
            let priority = Self::calculate_batch_priority(&caps, priorities);
            let ghost prev = sorted@;
            sorted.push(ExecutionBatch { capabilities: caps, priority, estimated_duration: basic[k].estimated_duration });
            proof {
                assert(batch_views(sorted@) =~= batch_views(prev).push(reorder_caps(t, base[k as int])));
                assert(base.map_values(|b: Seq<Seq<char>>| reorder_caps(t, b)).take(k + 1) =~= base.map_values(|b: Seq<Seq<char>>| reorder_caps(t, b)).take(k as int).push(reorder_caps(t, base[k as int])));
                assert(basic@[k as int].estimated_duration is None);
                assert forall|j: int| 0 <= j < sorted@.len() implies (#[trigger] sorted@[j]).priority == batch_priority(t, views(sorted@[j].capabilities@))
                    && sorted@[j].estimated_duration is None by {
                    if j < prev.len() {
                        assert(sorted@[j] == prev[j]);
                    }
                }
            }
            k += 1;
        }
        let ghost sv = base.map_values(|b: Seq<Seq<char>>| reorder_caps(t, b));
        assert(sv.take(basic.len() as int) =~= sv);
        proof {
            assert(layering_of(composed_order.dependency_graph@, kahn_nodes(*composed_order), base));
            assert(batch_views(sorted@) == priority_schedule_of(t, base));
        }
        Ok(sorted)
    }

    /// Resource-aware scheduling; for now the priority-based schedule.
    pub fn resource_aware_schedule(composed_order: &ComposedPartialOrder) -> (r: Result<Vec<ExecutionBatch>, FrameworkError>)
        ensures
            r matches Ok(bs) && scheduled_by(*composed_order, SchedulingAlgorithm::ResourceAware, bs@),
    {
        Self::priority_based_schedule(composed_order)
    }
}


/// The capabilities of the first `k` batches, in order.
fn executed_before(batches: &Vec<ExecutionBatch>, k: usize) -> (r: Vec<String>)
    requires
        k <= batches.len(),
    ensures
        views(r@) == done_before(batch_views(batches@), k as int),
{
    let ghost bv = batch_views(batches@);
    let mut r: Vec<String> = Vec::new();
    let mut m: usize = 0;
    while m < k
        invariant
            m <= k <= batches.len(),
            bv == batch_views(batches@),
            views(r@) == done_before(bv, m as int),
        decreases k - m,
    {
        let ghost before = views(r@);
        let mut more = copy_strings(&batches[m].capabilities);
        r.append(&mut more);
        proof {
            assert(views(r@) =~= before + bv[m as int]);
            assert(bv.take(m + 1) =~= bv.take(m as int).push(bv[m as int]));
            bv.take(m as int).lemma_flatten_push(bv[m as int]);
        }
        m += 1;
    }
    r
}

impl TopologicalScheduler {
    /// Whether every capability of the schedule runs after all its dependencies.
    pub fn verify_schedule_optimality(batches: &Vec<ExecutionBatch>, composed_order: &ComposedPartialOrder) -> (r: bool)
        ensures
            r == respects(composed_order.dependency_graph@, batch_views(batches@)),
    {
        let ghost bv = batch_views(batches@);
        let g = &composed_order.dependency_graph;
        let mut k: usize = 0;
        while k < batches.len()
            invariant
                k <= batches.len(),
                bv == batch_views(batches@),
                g@ == composed_order.dependency_graph@,
                forall|k2: int, j: int| 0 <= k2 < k && 0 <= j < bv[k2].len() ==> ready_wrt(g@, #[trigger] bv[k2][j], done_before(bv, k2)),
            decreases batches.len() - k,
        {
            let executed = executed_before(batches, k);
            let caps = &batches[k].capabilities;
            let mut j: usize = 0;
            while j < caps.len()
                invariant
                    k < batches.len(),
                    j <= caps.len(),
                    bv == batch_views(batches@),
                    caps@ == batches@[k as int].capabilities@,
                    g@ == composed_order.dependency_graph@,
                    views(executed@) == done_before(bv, k as int),
                    forall|j2: int| 0 <= j2 < j ==> ready_wrt(g@, #[trigger] bv[k as int][j2], done_before(bv, k as int)),
                decreases caps.len() - j,
            {
                if !g.is_ready(&caps[j], &executed) {
                    assert(bv[k as int][j as int] == caps@[j as int]@);
                    return false;
                }
                j += 1;
            }
            k += 1;
        }
        true
    }

    /// The number of dependencies that run late: for each capability of
    /// each batch, its dependency edges to capabilities not run before the
    /// batch; the count stops at `u32::MAX`.
    pub fn count_constraint_violations(batches: &Vec<ExecutionBatch>, composed_order: &ComposedPartialOrder) -> (r: u32)
        ensures
            r as int == capped(violations_upto(composed_order.dependency_graph@, batch_views(batches@), batches.len() as int)),
    {
        let ghost bv = batch_views(batches@);
        let g = &composed_order.dependency_graph;
        let mut total: u64 = 0;
        let mut k: usize = 0;
        while k < batches.len()
            invariant
                k <= batches.len(),
                bv == batch_views(batches@),
                total as int == capped(violations_upto(g@, bv, k as int)),
            decreases batches.len() - k,
        {
            let executed = executed_before(batches, k);
            let caps = &batches[k].capabilities;
            let ghost start = violations_upto(g@, bv, k as int);
            let mut j: usize = 0;
            while j < caps.len()
                invariant
                    k < batches.len(),
                    j <= caps.len(),
                    bv == batch_views(batches@),
                    caps@ == batches@[k as int].capabilities@,
                    views(executed@) == done_before(bv, k as int),
                    total as int == capped(start + batch_missing(g@, bv[k as int].take(j as int), done_before(bv, k as int))),
                decreases caps.len() - j,
            {
                let ghost before_j = batch_missing(g@, bv[k as int].take(j as int), done_before(bv, k as int));
                let mut e: usize = 0;
                while e < g.edges.len()
                    invariant
                        k < batches.len(),
                        j < caps.len(),
                        e <= g.edges.len(),
                        bv == batch_views(batches@),
                        caps@ == batches@[k as int].capabilities@,
                        views(executed@) == done_before(bv, k as int),
                        total as int == capped(start + before_j + missing_upto(g@, caps@[j as int]@, done_before(bv, k as int), e as int)),
                    decreases g.edges.len() - e,
                {
                    if g.edges[e].0 == caps[j] && !contains_string(&executed, &g.edges[e].1) {
                        if total < 4294967295 {
                            total = total + 1;
                        }
                    }
                    e += 1;
                }
                proof {
                    assert(bv[k as int].take(j + 1).drop_last() =~= bv[k as int].take(j as int));
                    assert(bv[k as int].take(j + 1).last() == caps@[j as int]@);
                }
                j += 1;
            }
            proof {
                assert(bv[k as int].take(caps.len() as int) =~= bv[k as int]);
            }
            k += 1;
        }
        total as u32
    }

    /// The capabilities of the first batch that still has some not in
    /// `completed`: those, in order; none when every batch is done.
    pub fn get_ready_capabilities(schedule: &ExecutionSchedule, completed_capabilities: &Vec<String>) -> (r: Vec<String>)
        ensures
            views(r@) == first_pending(batch_views(schedule.execution_batches@), views(completed_capabilities@)),
    {
        let batches = &schedule.execution_batches;
        let ghost bv = batch_views(batches@);
        let ghost done = views(completed_capabilities@);
        let mut k: usize = 0;
        while k < batches.len()
            invariant
                k <= batches.len(),
                bv == batch_views(batches@),
                batches@ == schedule.execution_batches@,
                done == views(completed_capabilities@),
                first_pending(bv, done) == first_pending(bv.skip(k as int), done),
            decreases batches.len() - k,
        {
            let caps = &batches[k].capabilities;
            let mut ready: Vec<String> = Vec::new();
            let mut j: usize = 0;
            while j < caps.len()
                invariant
                    k < batches.len(),
                    j <= caps.len(),
                    caps@ == batches@[k as int].capabilities@,
                    bv == batch_views(batches@),
                    done == views(completed_capabilities@),
                    views(ready@) == pending_in(bv[k as int].take(j as int), done),
                decreases caps.len() - j,
            {
                let ghost prev = views(ready@);
                assert(bv[k as int].take(j + 1).drop_last() =~= bv[k as int].take(j as int));
                assert(bv[k as int].take(j + 1).last() == caps@[j as int]@);
                if !contains_string(completed_capabilities, &caps[j]) {
                    ready.push(caps[j].clone());
                    assert(views(ready@) =~= prev.push(caps@[j as int]@));
                }
                j += 1;
            }
            assert(bv[k as int].take(caps.len() as int) =~= bv[k as int]);
            assert(bv.skip(k as int)[0] == bv[k as int]);
            if ready.len() > 0 {
                assert(bv.skip(k as int).len() > 0);
                assert(pending_in(bv.skip(k as int)[0], done).len() > 0);
                return ready;
            }
            assert(bv.skip(k as int).drop_first() =~= bv.skip(k + 1));
            k += 1;
        }
        assert(bv.skip(k as int).len() == 0);
        Vec::new()
    }

    /// Removes the completed capabilities from every batch and drops the
    /// batches left empty; the rest of the schedule is unchanged.
    pub fn mark_capabilities_completed(schedule: &mut ExecutionSchedule, completed: &Vec<String>)
        ensures
            bviews(final(schedule).execution_batches@) == after_completion(bviews(old(schedule).execution_batches@), views(completed@)),
            final(schedule).total_capabilities == old(schedule).total_capabilities,
            final(schedule).max_parallelism == old(schedule).max_parallelism,
            final(schedule).metadata == old(schedule).metadata,
    {
        let ghost bs = bviews(schedule.execution_batches@);
        let ghost done = views(completed@);
        let mut kept: Vec<ExecutionBatch> = Vec::new();
        let mut k: usize = 0;
        while k < schedule.execution_batches.len()
            invariant
                k <= schedule.execution_batches.len(),
                bs == bviews(schedule.execution_batches@),
                done == views(completed@),
                bviews(kept@) == after_completion(bs.take(k as int), done),
            decreases schedule.execution_batches.len() - k,
        {
            let b = &schedule.execution_batches[k];
            let ghost bv = bs[k as int];
            let mut rest: Vec<String> = Vec::new();
            let mut j: usize = 0;
            while j < b.capabilities.len()
                invariant
                    j <= b.capabilities.len(),
                    bv == bview(*b),
                    done == views(completed@),
                    views(rest@) == pending_in(bv.0.take(j as int), done),
                decreases b.capabilities.len() - j,
            {
                let ghost prev = views(rest@);
                assert(bv.0.take(j + 1).drop_last() =~= bv.0.take(j as int));
                assert(bv.0.take(j + 1).last() == b.capabilities@[j as int]@);
                if !contains_string(completed, &b.capabilities[j]) {
                    rest.push(b.capabilities[j].clone());
                    assert(views(rest@) =~= prev.push(b.capabilities@[j as int]@));
                }
                j += 1;
            }
            assert(bv.0.take(b.capabilities.len() as int) =~= bv.0);
            assert(bs.take(k + 1).drop_last() =~= bs.take(k as int));
            assert(bs.take(k + 1).last() == bv);
            let ghost prev = bviews(kept@);
            if rest.len() > 0 {
                kept.push(ExecutionBatch { capabilities: rest, priority: b.priority, estimated_duration: b.estimated_duration });
                assert(bviews(kept@) =~= prev.push((pending_in(bv.0, done), bv.1, bv.2)));
            }
            k += 1;
        }
        assert(bs.take(schedule.execution_batches.len() as int) =~= bs);
        schedule.execution_batches = kept;
    }

    /// The size of the largest batch, 0 for none.
    pub fn max_batch_len(batches: &Vec<ExecutionBatch>) -> (r: usize)
        ensures
            r == max_len(batch_views(batches@)),
    {
        let ghost bv = batch_views(batches@);
        let mut m: usize = 0;
        let mut k: usize = 0;
        while k < batches.len()
            invariant
                k <= batches.len(),
                bv == batch_views(batches@),
                m == max_len(bv.take(k as int)),
            decreases batches.len() - k,
        {
            assert(bv.take(k + 1).drop_last() =~= bv.take(k as int));
            assert(bv.take(k + 1).last().len() == batches@[k as int].capabilities.len());
            if batches[k].capabilities.len() > m {
                m = batches[k].capabilities.len();
            }
            k += 1;
        }
        assert(bv.take(batches.len() as int) =~= bv);
        m
    }

    /// The schedule the algorithm gives for the composed order, with the
    /// given computation time.
    pub fn build_schedule(composed_order: ComposedPartialOrder, algorithm: SchedulingAlgorithm, computation_time_ms: u64) -> (r: Result<ExecutionSchedule, FrameworkError>)
        ensures
            r is Err <==> (algorithm == SchedulingAlgorithm::DfsTopological && has_cycle(composed_order.dependency_graph@)),
            r matches Err(e) ==> e == FrameworkError::ConstraintRaw,
            r matches Ok(s) ==> scheduled_by(composed_order, algorithm, s.execution_batches@)
                && s.total_capabilities == composed_order.capabilities.len()
                && s.max_parallelism == max_len(batch_views(s.execution_batches@))
                && s.metadata.algorithm == algorithm
                && s.metadata.computation_time_ms == computation_time_ms
                && s.metadata.is_optimal == respects(composed_order.dependency_graph@, batch_views(s.execution_batches@))
                && s.metadata.constraint_violations as int == capped(violations_upto(composed_order.dependency_graph@, batch_views(s.execution_batches@), s.execution_batches@.len() as int)),
            r matches Ok(s) ==> respects(composed_order.dependency_graph@, batch_views(s.execution_batches@))
                && s.metadata.is_optimal && s.metadata.constraint_violations == 0,
    {
        let batches = match algorithm {
            SchedulingAlgorithm::Kahn => Self::kahn_topological_sort(&composed_order),
            SchedulingAlgorithm::DfsTopological => Self::dfs_topological_sort(&composed_order),
            SchedulingAlgorithm::PriorityBased => Self::priority_based_schedule(&composed_order),
            SchedulingAlgorithm::ResourceAware => Self::resource_aware_schedule(&composed_order),
        };
        let execution_batches = match batches {
            Ok(b) => b,
            Err(e) => { return Err(e); }
        };
        proof {
            lemma_layered_schedule_sound(composed_order, algorithm, execution_batches@);
        }
        let max_parallelism = Self::max_batch_len(&execution_batches);
        let is_optimal = Self::verify_schedule_optimality(&execution_batches, &composed_order);
        let constraint_violations = Self::count_constraint_violations(&execution_batches, &composed_order);
        Ok(ExecutionSchedule {
            total_capabilities: composed_order.capabilities.len(),
            max_parallelism,
            metadata: SchedulingMetadata { algorithm, computation_time_ms, is_optimal, constraint_violations },
            execution_batches,
        })
    }

    /// Schedules the composed order with the algorithm, timing the work on
    /// the cluster clock. Fails with `UnsupportedSysvar` where the clock
    /// cannot be read, and as `build_schedule` does otherwise.
    pub fn create_schedule(composed_order: ComposedPartialOrder, algorithm: SchedulingAlgorithm) -> (r: Result<ExecutionSchedule, FrameworkError>)
        ensures
            r matches Err(e) ==> e == FrameworkError::UnsupportedSysvar
                || (e == FrameworkError::ConstraintRaw && algorithm == SchedulingAlgorithm::DfsTopological && has_cycle(composed_order.dependency_graph@)),
            algorithm == SchedulingAlgorithm::DfsTopological && has_cycle(composed_order.dependency_graph@) ==> r is Err,
            r matches Ok(s) ==> scheduled_by(composed_order, algorithm, s.execution_batches@)
                && s.total_capabilities == composed_order.capabilities.len()
                && s.max_parallelism == max_len(batch_views(s.execution_batches@))
                && s.metadata.algorithm == algorithm
                && s.metadata.is_optimal == respects(composed_order.dependency_graph@, batch_views(s.execution_batches@)),
            r matches Ok(s) ==> respects(composed_order.dependency_graph@, batch_views(s.execution_batches@))
                && s.metadata.is_optimal && s.metadata.constraint_violations == 0,
    {
        let start = match clock_get() {
            Some(c) => c.unix_timestamp,
            None => { return Err(FrameworkError::UnsupportedSysvar); }
        };
        let ghost o = composed_order;
        let scheduled = Self::build_schedule(composed_order, algorithm, 0);
        let end = match clock_get() {
            Some(c) => c.unix_timestamp,
            None => { return Err(FrameworkError::UnsupportedSysvar); }
        };
        match scheduled {
            Ok(mut s) => {
                s.metadata.computation_time_ms = (end as u64).saturating_sub(start as u64);
                Ok(s)
            }
            Err(e) => Err(e),
        }
    }
}

} // verus!
