//! Composition of the partial orders of several shards into one order.

use vstd::prelude::*;
use crate::error::ValenceError;
use crate::pubkey::Pubkey;
use crate::text::{views, push_unique, contains_string};
use crate::capabilities::ordering_rules::{
    cview, cviews, mentioned, mentioned_in, overlaps, any_shared, collect_capabilities, graph_of_constraints,
    constrained_after, constraints_cyclic, lemma_cycle_same_relation,
};
use crate::scheduler::dependency_graph::{DependencyGraph, has_cycle, is_cycle, depends_on};

pub use crate::capabilities::ordering_rules::OrderingConstraint;

verus! {

broadcast use vstd::seq_lib::group_seq_properties;

/// The abstract value of a constraint: kind, capabilities named, level.
pub type CView = (int, Seq<Seq<char>>, u8);

/// The abstract value of a recorded conflict: the first shard and its
/// constraint, the second shard and its constraint.
pub type ConflictView = (Seq<u8>, CView, Seq<u8>, CView);

/// A partial order from a single shard.
#[derive(Debug)]
pub struct ShardPartialOrder {
    /// Shard that owns this partial order.
    pub shard_id: Pubkey,
    /// Its ordering constraints.
    pub constraints: Vec<OrderingConstraint>,
    /// Version of the partial order.
    pub version: u64,
    /// Priority weight of the shard (higher is more important).
    pub priority_weight: u8,
}

/// The partial order composed from several shards.
#[derive(Debug)]
pub struct ComposedPartialOrder {
    /// Every capability mentioned across all shards, each once.
    pub capabilities: Vec<String>,
    /// The composed constraints.
    pub constraints: Vec<OrderingConstraint>,
    /// Dependency graph of the constraints.
    pub dependency_graph: DependencyGraph,
    /// The priority of each capability.
    pub priorities: Vec<(String, u8)>,
    /// Shards that contributed, in order.
    pub contributing_shards: Vec<Pubkey>,
}

/// How a composition attempt ended.
#[derive(Debug)]
pub enum CompositionResult {
    /// The orders composed.
    Success(ComposedPartialOrder),
    /// Constraints of different shards contradict each other.
    Conflict(CompositionConflict),
    /// The constraints together form a dependency cycle, listed here.
    Cycle(Vec<String>),
}

/// The conflicts found between shards.
#[derive(Debug)]
pub struct CompositionConflict {
    /// `(shard, constraint, other shard, other constraint)` for each conflict.
    pub conflicting_constraints: Vec<(Pubkey, OrderingConstraint, Pubkey, OrderingConstraint)>,
    /// The capabilities involved in the conflicts.
    pub conflicting_capabilities: Vec<String>,
    /// The suggested resolution strategy.
    pub resolution_strategy: ConflictResolutionStrategy,
}

/// Strategies for resolving composition conflicts.
#[derive(Debug, Clone, Copy, PartialEq, Eq, Structural)]
pub enum ConflictResolutionStrategy {
    /// Use the shards' priority weights.
    PriorityBased,
    /// First come, first served.
    TemporalBased,
    /// Majority consensus of the shards.
    ConsensusBased,
    /// Manual intervention.
    Manual,
}

/// The composer of shard partial orders.
pub struct PartialOrderComposer;

/// Two constraints (by their abstract values) conflict when composing: a
/// `Before` against the reverse `Before`, a `Before` against the same pair as
/// `After`, or a `Sequential` against a `Concurrent` sharing a capability.
pub open spec fn views_conflict(v1: CView, v2: CView) -> bool {
    ||| (v1.0 == 0 && v2.0 == 0 && v1.1[0] == v2.1[1] && v1.1[1] == v2.1[0])
    ||| (v1.0 == 0 && v2.0 == 1 && v1.1[0] == v2.1[0] && v1.1[1] == v2.1[1])
    ||| (v1.0 == 3 && v2.0 == 2 && overlaps(v1.1, v2.1))
}

/// The abstract values of the constraints of all shards with key `id`, in order.
pub open spec fn shard_group(orders: Seq<ShardPartialOrder>, id: Seq<u8>) -> Seq<CView>
    decreases orders.len(),
{
    if orders.len() == 0 {
        seq![]
    } else {
        shard_group(orders.drop_last(), id) + if orders.last().shard_id.bytes@ == id {
            cviews(orders.last().constraints@)
        } else {
            seq![]
        }
    }
}

/// `(id1, v1, id2, v2)` for each `v2` of `g2` that `v1` conflicts with, in order.
pub open spec fn pairs_with(id1: Seq<u8>, v1: CView, id2: Seq<u8>, g2: Seq<CView>) -> Seq<ConflictView>
    decreases g2.len(),
{
    if g2.len() == 0 {
        seq![]
    } else {
        pairs_with(id1, v1, id2, g2.drop_last()) + if views_conflict(v1, g2.last()) {
            seq![(id1, v1, id2, g2.last())]
        } else {
            seq![]
        }
    }
}

/// The conflicts of each constraint of `g1` against those of `g2`, in order.
pub open spec fn group_pairs(id1: Seq<u8>, g1: Seq<CView>, id2: Seq<u8>, g2: Seq<CView>) -> Seq<ConflictView>
    decreases g1.len(),
{
    if g1.len() == 0 {
        seq![]
    } else {
        group_pairs(id1, g1.drop_last(), id2, g2) + pairs_with(id1, g1.last(), id2, g2)
    }
}

/// The conflicts between the group of shard `i` and those of shards `i + 1 .. m`.
pub open spec fn row_pairs(orders: Seq<ShardPartialOrder>, i: int, m: int) -> Seq<ConflictView>
    decreases m - i,
{
    if m <= i + 1 {
        seq![]
    } else {
        let id1 = orders[i].shard_id.bytes@;
        let id2 = orders[m - 1].shard_id.bytes@;
        row_pairs(orders, i, m - 1) + group_pairs(id1, shard_group(orders, id1), id2, shard_group(orders, id2))
    }
}

/// The conflicts between shard pairs `(i, j)` with `i < n` and `i < j`.
pub open spec fn pairs_upto(orders: Seq<ShardPartialOrder>, n: int) -> Seq<ConflictView>
    decreases n,
{
    if n <= 0 {
        seq![]
    } else {
        pairs_upto(orders, n - 1) + row_pairs(orders, n - 1, orders.len() as int)
    }
}

/// Every conflict between the constraints of two shards, in the order found:
/// by first shard, then second shard, then constraint of each.
pub open spec fn shard_conflicts(orders: Seq<ShardPartialOrder>) -> Seq<ConflictView> {
    pairs_upto(orders, orders.len() as int)
}

/// A conflict of `v1` with some constraint of `g2` is recorded.
proof fn lemma_pairs_with_found(id1: Seq<u8>, v1: CView, id2: Seq<u8>, g2: Seq<CView>, b: int)
    requires
        0 <= b < g2.len(),
        views_conflict(v1, g2[b]),
    ensures
        pairs_with(id1, v1, id2, g2).len() > 0,
    decreases g2.len(),
{
    if b < g2.len() - 1 {
        lemma_pairs_with_found(id1, v1, id2, g2.drop_last(), b);
    }
}

/// A conflict between some constraint of `g1` and some of `g2` is recorded.
proof fn lemma_group_pairs_found(id1: Seq<u8>, g1: Seq<CView>, id2: Seq<u8>, g2: Seq<CView>, a: int, b: int)
    requires
        0 <= a < g1.len(),
        0 <= b < g2.len(),
        views_conflict(g1[a], g2[b]),
    ensures
        group_pairs(id1, g1, id2, g2).len() > 0,
    decreases g1.len(),
{
    if a == g1.len() - 1 {
        lemma_pairs_with_found(id1, g1.last(), id2, g2, b);
    } else {
        lemma_group_pairs_found(id1, g1.drop_last(), id2, g2, a, b);
    }
}

/// A conflict between the groups of shards `i < j` is in row `i`.
proof fn lemma_row_pairs_found(orders: Seq<ShardPartialOrder>, i: int, m: int, j: int)
    requires
        0 <= i < j < m <= orders.len(),
        group_pairs(orders[i].shard_id.bytes@, shard_group(orders, orders[i].shard_id.bytes@),
            orders[j].shard_id.bytes@, shard_group(orders, orders[j].shard_id.bytes@)).len() > 0,
    ensures
        row_pairs(orders, i, m).len() > 0,
    decreases m - i,
{
    if j < m - 1 {
        lemma_row_pairs_found(orders, i, m - 1, j);
    }
}

/// A conflict in row `i < n` is among the conflicts up to `n`.
proof fn lemma_pairs_upto_found(orders: Seq<ShardPartialOrder>, n: int, i: int)
    requires
        0 <= i < n <= orders.len(),
        row_pairs(orders, i, orders.len() as int).len() > 0,
    ensures
        pairs_upto(orders, n).len() > 0,
    decreases n,
{
    if i < n - 1 {
        lemma_pairs_upto_found(orders, n - 1, i);
    }
}

/// Every constraint of shard `i` is in the group of its key.
proof fn lemma_shard_group_holds(orders: Seq<ShardPartialOrder>, i: int, k: int) -> (a: int)
    requires
        0 <= i < orders.len(),
        0 <= k < orders[i].constraints@.len(),
    ensures
        0 <= a < shard_group(orders, orders[i].shard_id.bytes@).len(),
        shard_group(orders, orders[i].shard_id.bytes@)[a] == cview(orders[i].constraints@[k]),
    decreases orders.len(),
{
    let id = orders[i].shard_id.bytes@;
    let prefix = shard_group(orders.drop_last(), id);
    if i == orders.len() - 1 {
        let a = prefix.len() + k;
        assert(shard_group(orders, id) == prefix + cviews(orders.last().constraints@));
        a
    } else {
        assert(orders.drop_last()[i] == orders[i]);
        let a = lemma_shard_group_holds(orders.drop_last(), i, k);
        a
    }
}

/// Constraint `k` of shard `i` is a sequence and constraint `l` of a later
/// shard `j` a concurrent group, and both name `x`.
pub open spec fn sequence_meets_group(orders: Seq<ShardPartialOrder>, i: int, j: int, k: int, l: int, x: Seq<char>) -> bool {
    &&& 0 <= i < j < orders.len()
    &&& 0 <= k < orders[i].constraints@.len()
    &&& 0 <= l < orders[j].constraints@.len()
    &&& orders[i].constraints@[k] matches OrderingConstraint::Sequential { capabilities } && views(capabilities@).contains(x)
    &&& orders[j].constraints@[l] matches OrderingConstraint::Concurrent { capabilities } && views(capabilities@).contains(x)
}

/// A sequence in one shard and a concurrent group in a later shard that
/// share a capability always conflict: the conflicts between shards are not
/// empty, so composing the orders reports a conflict and does not succeed.
pub proof fn lemma_sequential_meets_concurrent(orders: Seq<ShardPartialOrder>, i: int, j: int, k: int, l: int, x: Seq<char>)
    requires
        sequence_meets_group(orders, i, j, k, l, x),
    ensures
        shard_conflicts(orders).len() > 0,
{
    let c1 = orders[i].constraints@[k];
    let c2 = orders[j].constraints@[l];
    let s1 = views(c1->Sequential_capabilities@);
    let s2 = views(c2->Concurrent_capabilities@);
    assert(s1.contains(x) && s2.contains(x));
    assert(overlaps(s1, s2));
    assert(views_conflict(cview(c1), cview(c2)));
    let a = lemma_shard_group_holds(orders, i, k);
    let b = lemma_shard_group_holds(orders, j, l);
    lemma_group_pairs_found(orders[i].shard_id.bytes@, shard_group(orders, orders[i].shard_id.bytes@),
        orders[j].shard_id.bytes@, shard_group(orders, orders[j].shard_id.bytes@), a, b);
    lemma_row_pairs_found(orders, i, orders.len() as int, j);
    lemma_pairs_upto_found(orders, orders.len() as int, i);
}

/// The abstract values of recorded conflicts.
pub open spec fn conflict_views(v: Seq<(Pubkey, OrderingConstraint, Pubkey, OrderingConstraint)>) -> Seq<ConflictView> {
    v.map_values(|t: (Pubkey, OrderingConstraint, Pubkey, OrderingConstraint)| (t.0.bytes@, cview(t.1), t.2.bytes@, cview(t.3)))
}

/// The constraints of all shards, in order.
pub open spec fn all_constraints(orders: Seq<ShardPartialOrder>) -> Seq<OrderingConstraint>
    decreases orders.len(),
{
    if orders.len() == 0 {
        seq![]
    } else {
        all_constraints(orders.drop_last()) + orders.last().constraints@
    }
}

/// `(capability, level * weight / 255)` for each priority constraint of `cs`, in order.
pub open spec fn level_entries(cs: Seq<OrderingConstraint>, weight: u8) -> Seq<(Seq<char>, int)>
    decreases cs.len(),
{
    if cs.len() == 0 {
        seq![]
    } else {
        level_entries(cs.drop_last(), weight) + match cs.last() {
            OrderingConstraint::Priority { capability, level } => seq![(capability@, (level * weight) / 255)],
            _ => seq![],
        }
    }
}

/// The weighted priority entries of all shards, in order.
pub open spec fn shard_levels(orders: Seq<ShardPartialOrder>) -> Seq<(Seq<char>, int)>
    decreases orders.len(),
{
    if orders.len() == 0 {
        seq![]
    } else {
        shard_levels(orders.drop_last()) + level_entries(orders.last().constraints@, orders.last().priority_weight)
    }
}

/// The priority of `cap`: the highest weighted level given to it, and at least 128.
pub open spec fn best_level(entries: Seq<(Seq<char>, int)>, cap: Seq<char>) -> int
    decreases entries.len(),
{
    if entries.len() == 0 {
        128
    } else {
        let b = best_level(entries.drop_last(), cap);
        if entries.last().0 == cap && entries.last().1 > b {
            entries.last().1
        } else {
            b
        }
    }
}

/// The abstract value of a priority table.
pub open spec fn priority_views(t: Seq<(String, u8)>) -> Seq<(Seq<char>, int)> {
    t.map_values(|e: (String, u8)| (e.0@, e.1 as int))
}

/// The shard keys of the orders, in order.
pub open spec fn shard_ids(orders: Seq<ShardPartialOrder>) -> Seq<Seq<u8>> {
    orders.map_values(|o: ShardPartialOrder| o.shard_id.bytes@)
}

/// The abstract value of a list of keys.
pub open spec fn key_views(v: Seq<Pubkey>) -> Seq<Seq<u8>> {
    v.map_values(|k: Pubkey| k.bytes@)
}

/// The abstract value of a table of weighted levels.
pub open spec fn entry_views(t: Seq<(String, u8)>) -> Seq<(Seq<char>, int)> {
    t.map_values(|e: (String, u8)| (e.0@, e.1 as int))
}

/// `c` lists a cycle of `cs`: each member waits for the next under `cs`,
/// and the last for the first.
pub open spec fn is_constraint_cycle(cs: Seq<OrderingConstraint>, c: Seq<Seq<char>>) -> bool {
    &&& c.len() > 0
    &&& forall|i: int| 0 <= i < c.len() - 1 ==> #[trigger] constrained_after(cs, c[i], c[i + 1])
    &&& constrained_after(cs, c.last(), c[0])
}

/// `x` is named by a constraint of one of the conflicts.
pub open spec fn mentioned_in_conflicts(cs: Seq<ConflictView>, x: Seq<char>) -> bool {
    exists|k: int| 0 <= k < cs.len() && (#[trigger] cs[k].1.1.contains(x) || cs[k].3.1.contains(x))
}

/// The strategy suggested for conflicts: by priority where some shard has a
/// priority weight, else by consensus.
pub open spec fn strategy_for(orders: Seq<ShardPartialOrder>) -> ConflictResolutionStrategy {
    if exists|i: int| 0 <= i < orders.len() && #[trigger] orders[i].priority_weight > 0 {
        ConflictResolutionStrategy::PriorityBased
    } else {
        ConflictResolutionStrategy::ConsensusBased
    }
}

/// `o` is the order composed from `orders`: the capabilities they mention,
/// each once; all their constraints in order; the dependency graph of those
/// constraints; each capability's priority; and the shard keys in order.
pub open spec fn composed_from(o: ComposedPartialOrder, orders: Seq<ShardPartialOrder>) -> bool {
    &&& views(o.capabilities@).no_duplicates()
    &&& forall|x: Seq<char>| #[trigger] views(o.capabilities@).contains(x) <==> mentioned_in(all_constraints(orders), x)
    &&& o.constraints@ == all_constraints(orders)
    &&& forall|x: Seq<char>, y: Seq<char>| #[trigger] depends_on(o.dependency_graph@, x, y) <==> constrained_after(all_constraints(orders), x, y)
    &&& priority_views(o.priorities@) == views(o.capabilities@).map_values(|x: Seq<char>| (x, best_level(shard_levels(orders), x)))
    &&& key_views(o.contributing_shards@) == shard_ids(orders)
}

/// An order composed from shard orders whose constraints form no cycle
/// passes validation: its graph has no cycle, and every capability its
/// constraints mention is among its capabilities.
pub proof fn lemma_composed_order_is_valid(o: ComposedPartialOrder, orders: Seq<ShardPartialOrder>)
    requires
        composed_from(o, orders),
        !constraints_cyclic(all_constraints(orders)),
    ensures
        composed_valid(o),
{
    lemma_cycle_same_relation(o.dependency_graph@, all_constraints(orders));
    assert forall|k: int, x: Seq<char>| 0 <= k < o.constraints@.len() && #[trigger] mentioned(o.constraints@[k]).contains(x)
        implies views(o.capabilities@).contains(x) by {
        assert(mentioned_in(all_constraints(orders), x));
    }
}

/// Growing a prefix of the conflicts by one adds the capabilities of the new one.
pub proof fn lemma_conflicts_take_succ(cv: Seq<ConflictView>, k: int)
    requires
        0 <= k < cv.len(),
    ensures
        forall|x: Seq<char>| #[trigger] mentioned_in_conflicts(cv.take(k + 1), x) <==>
            (mentioned_in_conflicts(cv.take(k), x) || cv[k].1.1.contains(x) || cv[k].3.1.contains(x)),
{
    assert forall|x: Seq<char>| #[trigger] mentioned_in_conflicts(cv.take(k + 1), x) <==>
        (mentioned_in_conflicts(cv.take(k), x) || cv[k].1.1.contains(x) || cv[k].3.1.contains(x)) by {
        if mentioned_in_conflicts(cv.take(k + 1), x) {
            let m = choose|m: int| 0 <= m < k + 1 && (#[trigger] cv.take(k + 1)[m].1.1.contains(x) || cv.take(k + 1)[m].3.1.contains(x));
            assert(cv.take(k + 1)[m] == cv[m]);
            if m < k {
                assert(cv.take(k)[m] == cv[m]);
                assert(cv.take(k)[m].1.1.contains(x) || cv.take(k)[m].3.1.contains(x));
            }
        }
        if mentioned_in_conflicts(cv.take(k), x) {
            let m = choose|m: int| 0 <= m < k && (#[trigger] cv.take(k)[m].1.1.contains(x) || cv.take(k)[m].3.1.contains(x));
            assert(cv.take(k)[m] == cv.take(k + 1)[m]);
            assert(cv.take(k + 1)[m].1.1.contains(x) || cv.take(k + 1)[m].3.1.contains(x));
        }
        if cv[k].1.1.contains(x) || cv[k].3.1.contains(x) {
            assert(cv.take(k + 1)[k] == cv[k]);
            assert(cv.take(k + 1)[k].1.1.contains(x) || cv.take(k + 1)[k].3.1.contains(x));
        }
    }
}

/// A composed order is valid: its dependency graph has no cycle and each
/// constraint names only capabilities of the order.
pub open spec fn composed_valid(o: ComposedPartialOrder) -> bool {
    &&& !has_cycle(o.dependency_graph@)
    &&& forall|k: int, x: Seq<char>| 0 <= k < o.constraints@.len() && #[trigger] mentioned(o.constraints@[k]).contains(x)
            ==> views(o.capabilities@).contains(x)
}

/// The weighted level is a byte.
proof fn lemma_weighted_fits(level: u8, weight: u8)
    ensures
        0 <= (level * weight) / 255 <= 255,
{
    assert(level * weight <= 255 * 255) by (nonlinear_arith)
        requires
            level <= 255,
            weight <= 255,
    ;
    assert(0 <= level * weight) by (nonlinear_arith)
        requires
            0 <= level,
            0 <= weight,
    ;
}

impl PartialOrderComposer {
    /// Composes the partial orders of several shards.
    ///
    /// With no shard the result is the empty order. Otherwise the
    /// constraints of every pair of shards are checked against each other
    /// (the constraints of each shard key taken together); any conflict gives
    /// `Conflict`. Else a dependency cycle among all constraints gives
    /// `Cycle`. Else the composed order holds every capability mentioned,
    /// all constraints in order, their dependency graph and each
    /// capability's priority.
    pub fn compose_partial_orders(shard_orders: Vec<ShardPartialOrder>) -> (r: Result<CompositionResult, ValenceError>)
        ensures
            r is Ok,
            shard_orders@.len() == 0 ==> (r matches Ok(CompositionResult::Success(o))
                && o.capabilities@.len() == 0 && o.constraints@.len() == 0 && o.dependency_graph@.len() == 0
                && o.priorities@.len() == 0 && o.contributing_shards@.len() == 0),
            shard_orders@.len() > 0 && shard_conflicts(shard_orders@).len() > 0 ==> (r matches Ok(CompositionResult::Conflict(c))
                && conflict_views(c.conflicting_constraints@) == shard_conflicts(shard_orders@)
                && (forall|x: Seq<char>| #[trigger] views(c.conflicting_capabilities@).contains(x) <==> mentioned_in_conflicts(shard_conflicts(shard_orders@), x))
                && c.resolution_strategy == strategy_for(shard_orders@)),
            shard_orders@.len() > 0 && shard_conflicts(shard_orders@).len() == 0 ==> match r {
                Ok(CompositionResult::Cycle(c)) => constraints_cyclic(all_constraints(shard_orders@))
                    && is_constraint_cycle(all_constraints(shard_orders@), views(c@)),
                Ok(CompositionResult::Success(o)) => !constraints_cyclic(all_constraints(shard_orders@))
                    && composed_from(o, shard_orders@),
                _ => false,
            },
            r matches Ok(CompositionResult::Success(o)) ==> composed_valid(o),
            (exists|i: int, j: int, k: int, l: int, x: Seq<char>| #[trigger] sequence_meets_group(shard_orders@, i, j, k, l, x))
                ==> r matches Ok(CompositionResult::Conflict(_)),
    {
        proof {
            if exists|i: int, j: int, k: int, l: int, x: Seq<char>| #[trigger] sequence_meets_group(shard_orders@, i, j, k, l, x) {
                let (i, j, k, l, x) = choose|i: int, j: int, k: int, l: int, x: Seq<char>| #[trigger] sequence_meets_group(shard_orders@, i, j, k, l, x);
                lemma_sequential_meets_concurrent(shard_orders@, i, j, k, l, x);
            }
        }
        if shard_orders.len() == 0 {
            let o = ComposedPartialOrder {
                capabilities: Vec::new(),
                constraints: Vec::new(),
                dependency_graph: DependencyGraph::new(),
                priorities: Vec::new(),
                contributing_shards: Vec::new(),
            };
            proof {
                if has_cycle(o.dependency_graph@) {
                    let s = choose|s: Seq<Seq<char>>| #[trigger] crate::scheduler::dependency_graph::self_blocking(o.dependency_graph@, s);
                    assert(s.contains(s[0]));
                }
            }
            return Ok(CompositionResult::Success(o));
        }
        let contributing_shards = Self::shard_keys(&shard_orders);
        if let Some(conflict) = Self::detect_conflicts(&shard_orders) {
            return Ok(CompositionResult::Conflict(conflict));
        }
        let ghost orders = shard_orders@;
        let levels = Self::level_table(&shard_orders);
        let all = Self::into_constraints(shard_orders);
        let capabilities = collect_capabilities(&all);
        let dependency_graph = graph_of_constraints(&all);
        proof {
            lemma_cycle_same_relation(dependency_graph@, all@);
        }
        if let Some(cycle) = Self::detect_cycles(&dependency_graph) {
            proof {
                let c = views(cycle@);
                assert forall|i: int| 0 <= i < c.len() - 1 implies #[trigger] constrained_after(all@, c[i], c[i + 1]) by {
                    assert(depends_on(dependency_graph@, c[i], c[i + 1]));
                }
                assert(depends_on(dependency_graph@, c.last(), c[0]));
            }
            return Ok(CompositionResult::Cycle(cycle));
        }
        let priorities = Self::compute_priorities(&levels, &capabilities);
        let o = ComposedPartialOrder { capabilities, constraints: all, dependency_graph, priorities, contributing_shards };
        proof {
            assert forall|k: int, x: Seq<char>| 0 <= k < o.constraints@.len() && #[trigger] mentioned(o.constraints@[k]).contains(x)
                implies views(o.capabilities@).contains(x) by {
                assert(mentioned_in(all@, x));
            }
        }
        Ok(CompositionResult::Success(o))
    }

    /// The key of each shard order, in order.
    pub fn shard_keys(orders: &Vec<ShardPartialOrder>) -> (r: Vec<Pubkey>)
        ensures
            key_views(r@) == shard_ids(orders@),
    {
        let mut r: Vec<Pubkey> = Vec::new();
        let mut i: usize = 0;
        while i < orders.len()
            invariant
                i <= orders.len(),
                key_views(r@) == shard_ids(orders@).take(i as int),
            decreases orders.len() - i,
        {
            let ghost prev = key_views(r@);
            r.push(orders[i].shard_id);
            assert(key_views(r@) =~= prev.push(orders@[i as int].shard_id.bytes@));
            assert(shard_ids(orders@).take(i + 1) =~= shard_ids(orders@).take(i as int).push(orders@[i as int].shard_id.bytes@));
            i += 1;
        }
        assert(shard_ids(orders@).take(orders.len() as int) =~= shard_ids(orders@));
        r
    }

    /// Adds the capabilities a constraint mentions to `capabilities`, each once.
    pub fn extract_capabilities(constraint: &OrderingConstraint, capabilities: &mut Vec<String>)
        ensures
            forall|x: Seq<char>| #[trigger] views(final(capabilities)@).contains(x) <==> (views(old(capabilities)@).contains(x) || mentioned(*constraint).contains(x)),
            views(old(capabilities)@).no_duplicates() ==> views(final(capabilities)@).no_duplicates(),
    {
        let caps = constraint.capabilities();
        let ghost start = views(capabilities@);
        let mut i: usize = 0;
        while i < caps.len()
            invariant
                i <= caps.len(),
                forall|x: Seq<char>| #[trigger] views(capabilities@).contains(x) <==> (start.contains(x) || views(caps@).take(i as int).contains(x)),
                start.no_duplicates() ==> views(capabilities@).no_duplicates(),
            decreases caps.len() - i,
        {
            push_unique(capabilities, &caps[i]);
            proof {
                crate::text::lemma_take_succ_contains(views(caps@), i as int);
            }
            i += 1;
        }
        assert(views(caps@).take(caps.len() as int) =~= views(caps@));
    }

    /// Whether two constraints conflict when composing.
    pub fn constraints_conflict(c1: &OrderingConstraint, c2: &OrderingConstraint) -> (r: bool)
        ensures
            r == views_conflict(cview(*c1), cview(*c2)),
            (c1 matches OrderingConstraint::Sequential { capabilities: s } && c2 matches OrderingConstraint::Concurrent { capabilities: c }
                && overlaps(views(s@), views(c@))) ==> r,
    {
        match (c1, c2) {
            (OrderingConstraint::Before { capability_a: a1, capability_b: b1 }, OrderingConstraint::Before { capability_a: a2, capability_b: b2 }) =>
                *a1 == *b2 && *b1 == *a2,
            (OrderingConstraint::Before { capability_a: a1, capability_b: b1 }, OrderingConstraint::After { capability_a: a2, capability_b: b2 }) =>
                *a1 == *a2 && *b1 == *b2,
            (OrderingConstraint::Sequential { capabilities: seq }, OrderingConstraint::Concurrent { capabilities: conc }) =>
                any_shared(seq, conc),
            _ => false,
        }
    }

    /// The constraints of every shard order with key `id`, in order.
    pub fn shard_constraints(orders: &Vec<ShardPartialOrder>, id: &Pubkey) -> (r: Vec<OrderingConstraint>)
        ensures
            cviews(r@) == shard_group(orders@, id.bytes@),
    {
        let mut r: Vec<OrderingConstraint> = Vec::new();
        let mut i: usize = 0;
        while i < orders.len()
            invariant
                i <= orders.len(),
                cviews(r@) == shard_group(orders@.take(i as int), id.bytes@),
            decreases orders.len() - i,
        {
            let ghost base = cviews(r@);
            if orders[i].shard_id == *id {
                let cs = &orders[i].constraints;
                let mut k: usize = 0;
                while k < cs.len()
                    invariant
                        k <= cs.len(),
                        cviews(r@) == base + cviews(cs@).take(k as int),
                    decreases cs.len() - k,
                {
                    let ghost prev = cviews(r@);
                    r.push(cs[k].clone_constraint());
                    assert(cviews(r@) =~= prev.push(cview(cs@[k as int])));
                    assert(cviews(cs@).take(k + 1) =~= cviews(cs@).take(k as int).push(cview(cs@[k as int])));
                    k += 1;
                }
                assert(cviews(cs@).take(cs.len() as int) =~= cviews(cs@));
            }
            assert(orders@.take(i + 1).drop_last() =~= orders@.take(i as int));
            i += 1;
        }
        assert(orders@.take(orders.len() as int) =~= orders@);
        r
    }

    /// Every conflict between the constraints of two shards, in the order
    /// found: by first shard, then second shard, then constraint of each.
    pub fn find_conflicts(orders: &Vec<ShardPartialOrder>) -> (r: Vec<(Pubkey, OrderingConstraint, Pubkey, OrderingConstraint)>)
        ensures
            conflict_views(r@) == shard_conflicts(orders@),
    {
        let mut r: Vec<(Pubkey, OrderingConstraint, Pubkey, OrderingConstraint)> = Vec::new();
        let mut i: usize = 0;
        while i < orders.len()
            invariant
                i <= orders.len(),
                conflict_views(r@) == pairs_upto(orders@, i as int),
            decreases orders.len() - i,
        {
            let id1 = orders[i].shard_id;
            let g1 = Self::shard_constraints(orders, &id1);
            let ghost base_i = conflict_views(r@);
            let mut j: usize = i + 1;
            while j < orders.len()
                invariant
                    i < j <= orders.len(),
                    i < orders.len(),
                    id1 == orders@[i as int].shard_id,
                    cviews(g1@) == shard_group(orders@, id1.bytes@),
                    conflict_views(r@) == base_i + row_pairs(orders@, i as int, j as int),
                decreases orders.len() - j,
            {
                let id2 = orders[j].shard_id;
                let g2 = Self::shard_constraints(orders, &id2);
                let ghost base_j = conflict_views(r@);
                let mut k1: usize = 0;
                while k1 < g1.len()
                    invariant
                        k1 <= g1.len(),
                        conflict_views(r@) == base_j + group_pairs(id1.bytes@, cviews(g1@).take(k1 as int), id2.bytes@, cviews(g2@)),
                    decreases g1.len() - k1,
                {
                    let ghost base_k = conflict_views(r@);
                    let ghost v1 = cview(g1@[k1 as int]);
                    let mut k2: usize = 0;
                    while k2 < g2.len()
                        invariant
                            k1 < g1.len(),
                            k2 <= g2.len(),
                            v1 == cview(g1@[k1 as int]),
                            conflict_views(r@) == base_k + pairs_with(id1.bytes@, v1, id2.bytes@, cviews(g2@).take(k2 as int)),
                        decreases g2.len() - k2,
                    {
                        let ghost prev = conflict_views(r@);
                        assert(cviews(g2@).take(k2 + 1).drop_last() =~= cviews(g2@).take(k2 as int));
                        if Self::constraints_conflict(&g1[k1], &g2[k2]) {
                            r.push((id1, g1[k1].clone_constraint(), id2, g2[k2].clone_constraint()));
                            assert(conflict_views(r@) =~= prev.push((id1.bytes@, v1, id2.bytes@, cview(g2@[k2 as int]))));
                        }
                        k2 += 1;
                    }
                    assert(cviews(g2@).take(g2.len() as int) =~= cviews(g2@));
                    assert(cviews(g1@).take(k1 + 1).drop_last() =~= cviews(g1@).take(k1 as int));
                    k1 += 1;
                }
                assert(cviews(g1@).take(g1.len() as int) =~= cviews(g1@));
                j += 1;
            }
            i += 1;
        }
        r
    }

    /// The conflicts between shards, with the capabilities they involve and a
    /// suggested strategy; `None` when there is none.
    pub fn detect_conflicts(orders: &Vec<ShardPartialOrder>) -> (r: Option<CompositionConflict>)
        ensures
            r is Some <==> shard_conflicts(orders@).len() > 0,
            r matches Some(c) ==> conflict_views(c.conflicting_constraints@) == shard_conflicts(orders@)
                && (forall|x: Seq<char>| #[trigger] views(c.conflicting_capabilities@).contains(x) <==> mentioned_in_conflicts(shard_conflicts(orders@), x))
                && c.resolution_strategy == strategy_for(orders@),
    {
        let conflicts = Self::find_conflicts(orders);
        if conflicts.len() == 0 {
            return None;
        }
        let mut caps_all: Vec<String> = Vec::new();
        let mut k: usize = 0;
        while k < conflicts.len()
            invariant
                k <= conflicts.len(),
                forall|x: Seq<char>| #[trigger] views(caps_all@).contains(x) <==> mentioned_in_conflicts(conflict_views(conflicts@).take(k as int), x),
            decreases conflicts.len() - k,
        {
            let mut caps: Vec<String> = Vec::new();
            Self::extract_capabilities(&conflicts[k].1, &mut caps);
            Self::extract_capabilities(&conflicts[k].3, &mut caps);
            let ghost before = views(caps_all@);
            let ghost added = views(caps@);
            caps_all.append(&mut caps);
            proof {
                let cv = conflict_views(conflicts@);
                assert(views(caps_all@) =~= before + added);
                assert(cv[k as int].1.1 == mentioned(conflicts@[k as int].1));
                assert(cv[k as int].3.1 == mentioned(conflicts@[k as int].3));
                lemma_conflicts_take_succ(cv, k as int);
                assert forall|x: Seq<char>| #[trigger] views(caps_all@).contains(x) <==> mentioned_in_conflicts(cv.take(k + 1), x) by {
                    if views(caps_all@).contains(x) {
                        let j = choose|j: int| 0 <= j < views(caps_all@).len() && views(caps_all@)[j] == x;
                        if j < before.len() {
                            assert(before[j] == x);
                        } else {
                            assert(added[j - before.len()] == x);
                        }
                    }
                    if before.contains(x) {
                        let j = choose|j: int| 0 <= j < before.len() && before[j] == x;
                        assert(views(caps_all@)[j] == x);
                    }
                    if added.contains(x) {
                        let j = choose|j: int| 0 <= j < added.len() && added[j] == x;
                        assert(views(caps_all@)[before.len() + j] == x);
                    }
                }
            }
            k += 1;
        }
        assert(conflict_views(conflicts@).take(conflicts.len() as int) =~= conflict_views(conflicts@));
        let mut weighted = false;
        let mut i: usize = 0;
        while i < orders.len()
            invariant
                i <= orders.len(),
                weighted == exists|j: int| 0 <= j < i && #[trigger] orders@[j].priority_weight > 0,
            decreases orders.len() - i,
        {
            if orders[i].priority_weight > 0 {
                weighted = true;
            }
            i += 1;
        }
        let resolution_strategy = if weighted {
            ConflictResolutionStrategy::PriorityBased
        } else {
            ConflictResolutionStrategy::ConsensusBased
        };
        Some(CompositionConflict { conflicting_constraints: conflicts, conflicting_capabilities: caps_all, resolution_strategy })
    }

    /// The dependency graph of the constraints: `Before { a, b }` makes `b`
    /// wait for `a`, `After { a, b }` makes `a` wait for `b`, and a
    /// `Sequential` list makes each capability wait for the one before it.
    pub fn build_dependency_graph(constraints: &Vec<OrderingConstraint>) -> (r: Result<DependencyGraph, ValenceError>)
        ensures
            r matches Ok(g) && forall|x: Seq<char>, y: Seq<char>| #[trigger] depends_on(g@, x, y) <==> constrained_after(constraints@, x, y),
    {
        Ok(graph_of_constraints(constraints))
    }

    /// A dependency cycle of the graph, if it has one.
    pub fn detect_cycles(graph: &DependencyGraph) -> (r: Option<Vec<String>>)
        ensures
            r is Some <==> has_cycle(graph@),
            r matches Some(c) ==> is_cycle(graph@, views(c@)),
    {
        graph.find_cycle()
    }

    /// `(capability, level * weight / 255)` for each priority constraint of
    /// each shard, in order.
    pub fn level_table(orders: &Vec<ShardPartialOrder>) -> (r: Vec<(String, u8)>)
        ensures
            entry_views(r@) == shard_levels(orders@),
    {
        let mut r: Vec<(String, u8)> = Vec::new();
        let mut i: usize = 0;
        while i < orders.len()
            invariant
                i <= orders.len(),
                entry_views(r@) == shard_levels(orders@.take(i as int)),
            decreases orders.len() - i,
        {
            let ghost base = entry_views(r@);
            let cs = &orders[i].constraints;
            let weight = orders[i].priority_weight;
            let mut k: usize = 0;
            while k < cs.len()
                invariant
                    k <= cs.len(),
                    entry_views(r@) == base + level_entries(cs@.take(k as int), weight),
                decreases cs.len() - k,
            {
                let ghost prev = entry_views(r@);
                assert(cs@.take(k + 1).drop_last() =~= cs@.take(k as int));
                if let OrderingConstraint::Priority { capability, level } = &cs[k] {
                    proof {
                        lemma_weighted_fits(*level, weight);
                    }
                    let product: u16 = (*level as u16) * (weight as u16);
                    let weighted: u8 = (product / 255) as u8;
                    r.push((capability.clone(), weighted));
                    assert(entry_views(r@) =~= prev.push((capability@, (*level * weight) / 255)));
                } else {
                }
                k += 1;
            }
            assert(cs@.take(cs.len() as int) =~= cs@);
            assert(orders@.take(i + 1).drop_last() =~= orders@.take(i as int));
            i += 1;
        }
        assert(orders@.take(orders.len() as int) =~= orders@);
        r
    }

    /// The priority of `cap` in a table of weighted levels: the highest level
    /// the table gives it, and at least 128.
    pub fn best_priority(table: &Vec<(String, u8)>, cap: &String) -> (r: u8)
        ensures
            r == best_level(entry_views(table@), cap@),
    {
        let mut r: u8 = 128;
        let mut i: usize = 0;
        while i < table.len()
            invariant
                i <= table.len(),
                r == best_level(entry_views(table@).take(i as int), cap@),
            decreases table.len() - i,
        {
            assert(entry_views(table@).take(i + 1).drop_last() =~= entry_views(table@).take(i as int));
            if table[i].0 == *cap && table[i].1 > r {
                r = table[i].1;
            }
            i += 1;
        }
        assert(entry_views(table@).take(table.len() as int) =~= entry_views(table@));
        r
    }

    /// The priority of each capability, in the order of `capabilities`.
    pub fn compute_priorities(table: &Vec<(String, u8)>, capabilities: &Vec<String>) -> (r: Vec<(String, u8)>)
        ensures
            priority_views(r@) == views(capabilities@).map_values(|x: Seq<char>| (x, best_level(entry_views(table@), x))),
    {
        let mut r: Vec<(String, u8)> = Vec::new();
        let mut i: usize = 0;
        while i < capabilities.len()
            invariant
                i <= capabilities.len(),
                priority_views(r@) == views(capabilities@).take(i as int).map_values(|x: Seq<char>| (x, best_level(entry_views(table@), x))),
            decreases capabilities.len() - i,
        {
            let p = Self::best_priority(table, &capabilities[i]);
            let ghost prev = priority_views(r@);
            let ghost f = |x: Seq<char>| (x, best_level(entry_views(table@), x));
            r.push((capabilities[i].clone(), p));
            proof {
                let c = capabilities@[i as int]@;
                assert(priority_views(r@) =~= prev.push((c, p as int)));
                assert(views(capabilities@).take(i + 1) =~= views(capabilities@).take(i as int).push(c));
                assert(views(capabilities@).take(i + 1).map_values(f) =~= views(capabilities@).take(i as int).map_values(f).push(f(c)));
            }
            i += 1;
        }
        assert(views(capabilities@).take(capabilities.len() as int) =~= views(capabilities@));
        r
    }

    /// All constraints of the orders, in order, moved out of them.
    pub fn into_constraints(orders: Vec<ShardPartialOrder>) -> (r: Vec<OrderingConstraint>)
        ensures
            r@ == all_constraints(orders@),
    {
        let ghost orig = orders@;
        let n: usize = orders.len();
        let mut orders = orders;
        let mut r: Vec<OrderingConstraint> = Vec::new();
        let mut i: usize = 0;
        while orders.len() > 0
            invariant
                i <= orig.len(),
                orig.len() == n,
                orders@ == orig.subrange(i as int, orig.len() as int),
                r@ == all_constraints(orig.take(i as int)),
            decreases orders.len(),
        {
            let mut o = orders.remove(0);
            assert(o == orig[i as int]);
            r.append(&mut o.constraints);
            assert(orig.take(i + 1).drop_last() =~= orig.take(i as int));
            i += 1;
        }
        assert(orig.take(orig.len() as int) =~= orig);
        r
    }

    /// Whether a composed order is valid: no dependency cycle, and every
    /// capability a constraint names is among the order's capabilities.
    pub fn validate_composed_order(composed_order: &ComposedPartialOrder) -> (r: Result<bool, ValenceError>)
        ensures
            r == Ok::<bool, ValenceError>(composed_valid(*composed_order)),
    {
        if composed_order.dependency_graph.has_cycles() {
            return Ok(false);
        }
        let cs = &composed_order.constraints;
        let caps = &composed_order.capabilities;
        assert(cs@ == composed_order.constraints@ && caps@ == composed_order.capabilities@);
        let mut k: usize = 0;
        while k < cs.len()
            invariant
                k <= cs.len(),
                cs@ == composed_order.constraints@,
                caps@ == composed_order.capabilities@,
                !has_cycle(composed_order.dependency_graph@),
                forall|k2: int, x: Seq<char>| 0 <= k2 < k && #[trigger] mentioned(cs@[k2]).contains(x) ==> views(caps@).contains(x),
            decreases cs.len() - k,
        {
            let names = cs[k].capabilities();
            let mut j: usize = 0;
            while j < names.len()
                invariant
                    k < cs.len(),
                    j <= names.len(),
                    cs@ == composed_order.constraints@,
                    caps@ == composed_order.capabilities@,
                    views(names@) == mentioned(cs@[k as int]),
                    forall|j2: int| 0 <= j2 < j ==> views(caps@).contains(#[trigger] views(names@)[j2]),
                decreases names.len() - j,
            {
                if !contains_string(caps, &names[j]) {
                    assert(mentioned(cs@[k as int]).contains(views(names@)[j as int]));
                    assert(!views(caps@).contains(views(names@)[j as int]));
                    return Ok(false);
                }
                j += 1;
            }
            proof {
                assert forall|k2: int, x: Seq<char>| 0 <= k2 < k + 1 && #[trigger] mentioned(cs@[k2]).contains(x) implies views(caps@).contains(x) by {
                    if k2 == k {
                        let j2 = choose|j2: int| 0 <= j2 < views(names@).len() && views(names@)[j2] == x;
                    }
                }
            }
            k += 1;
        }
        Ok(true)
    }
}

} // verus!
