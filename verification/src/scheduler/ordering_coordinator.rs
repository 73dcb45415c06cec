//! Coordination of the ordering rules of several shards: conflicts between
//! them, their resolution, and context-dependent adjustment of constraints.

use vstd::prelude::*;
use crate::error::ValenceError;
use crate::pubkey::Pubkey;
use crate::text::{views, owned, push_unique, contains_string, has_substring, contains_text, list_text, list_string, debug_text, debug_quoted, joined, decimal, push_decimal};
use crate::runtime::{base58, pubkey_base58};
use crate::capabilities::ordering_rules::{
    OrderingConstraint, cview, cviews, mentioned, mentioned_in, collect_capabilities, copy_strings,
};
use crate::scheduler::dependency_graph::{DependencyGraph, depends_on, has_cycle, self_blocking, has_dependency_in, EdgesView};
use crate::scheduler::instructions::PartialOrderSpec;
use crate::scheduler::partial_order_composer::CView;

verus! {

broadcast use vstd::seq_lib::group_seq_properties;

/// The context a constraint may depend on.
#[derive(Debug)]
pub struct ExecutionContext {
    /// Available resources, in percent.
    pub resource_availability: u32,
    pub active_capabilities: Vec<String>,
    pub block_height: u64,
    pub timestamp: i64,
}

/// Resource usage, in percent, that priorities may depend on.
#[derive(Debug, Clone, Copy)]
pub struct ResourceMetrics {
    pub cpu_usage: u32,
    pub memory_usage: u32,
    pub network_usage: u32,
    pub storage_usage: u32,
}

/// Constraints cached by shard.
pub type ConstraintCache = Vec<(Pubkey, Vec<OrderingConstraint>)>;

/// Coordinates the ordering rules of several shards.
pub struct OrderingCoordinator;

/// The result of coordinating shards.
#[derive(Debug)]
pub struct CoordinationResult {
    pub plan: CoordinationPlan,
    /// The conflicts left unresolved.
    pub conflicts: Vec<OrderingConflict>,
}

/// How shards are to be executed together.
#[derive(Debug, Clone, Copy)]
pub struct CoordinationPlan {
    pub shard_count: usize,
    pub total_constraints: usize,
    pub coordination_strategy: CoordinationStrategy,
}

/// Whether shards run one after another or side by side.
#[derive(Debug, Clone, Copy, PartialEq, Eq, Structural)]
pub enum CoordinationStrategy {
    Sequential,
    Parallel,
}

/// A conflict between the ordering rules of shards.
#[derive(Debug)]
pub struct OrderingConflict {
    pub shard_a: Pubkey,
    pub shard_b: Pubkey,
    pub conflict_type: ConflictType,
    pub details: String,
}

/// The kind of an ordering conflict.
#[derive(Debug, Clone, Copy, PartialEq, Eq, Structural)]
pub enum ConflictType {
    ContradictoryOrdering,
    ResourceContention,
    CyclicDependency,
}

/// The constraints of all shards, in order.
pub open spec fn orders_constraints(orders: Seq<PartialOrderSpec>) -> Seq<OrderingConstraint>
    decreases orders.len(),
{
    if orders.len() == 0 {
        seq![]
    } else {
        orders_constraints(orders.drop_last()) + orders.last().constraints@
    }
}

/// A constraint a shard may not give: `Before` a capability and itself, or
/// an empty `Sequential` list.
pub open spec fn invalid_constraint(c: OrderingConstraint) -> bool {
    match c {
        OrderingConstraint::Before { capability_a, capability_b } => capability_a@ == capability_b@,
        OrderingConstraint::Sequential { capabilities } => capabilities.len() == 0,
        _ => false,
    }
}

/// The shard's constraints are all allowed.
pub open spec fn shard_order_valid(cs: Seq<OrderingConstraint>) -> bool {
    forall|k: int| 0 <= k < cs.len() ==> !invalid_constraint(#[trigger] cs[k])
}

/// No `Sequential` list among the constraints is empty.
pub open spec fn no_empty_sequence(cs: Seq<OrderingConstraint>) -> bool {
    forall|k: int| 0 <= k < cs.len() ==> !((#[trigger] cs[k]) matches OrderingConstraint::Sequential { capabilities } && capabilities.len() == 0)
}

/// The constraint says `x` runs before `y`: `Before { x, y }` or `After { y, x }`.
pub open spec fn says_before(c: OrderingConstraint, x: Seq<char>, y: Seq<char>) -> bool {
    match c {
        OrderingConstraint::Before { capability_a, capability_b } => capability_a@ == x && capability_b@ == y,
        OrderingConstraint::After { capability_a, capability_b } => capability_b@ == x && capability_a@ == y,
        _ => false,
    }
}

/// Some constraint of `cs` says `x` runs before `y`.
pub open spec fn orders_before(cs: Seq<OrderingConstraint>, x: Seq<char>, y: Seq<char>) -> bool {
    exists|k: int| 0 <= k < cs.len() && #[trigger] says_before(cs[k], x, y)
}

/// One shard orders a pair one way and the other the other way.
pub open spec fn contradicts(a: Seq<OrderingConstraint>, b: Seq<OrderingConstraint>) -> bool {
    exists|x: Seq<char>, y: Seq<char>| #[trigger] orders_before(a, x, y) && #[trigger] orders_before(b, y, x)
}

/// The details recorded for a contradiction on `x` before `y`.
pub open spec fn contradiction_text(x: Seq<char>, y: Seq<char>) -> Seq<char> {
    x + " before "@ + y + " in shard A, but reversed in shard B"@
}

/// The coordination graph: `Before { a, b }` and `After { b, a }` lead from
/// `a` to `b`, and a `Sequential` list from each capability to the next.
pub open spec fn coord_edge(c: OrderingConstraint, x: Seq<char>, y: Seq<char>) -> bool {
    match c {
        OrderingConstraint::Before { capability_a, capability_b } => x == capability_a@ && y == capability_b@,
        OrderingConstraint::After { capability_a, capability_b } => x == capability_b@ && y == capability_a@,
        OrderingConstraint::Sequential { capabilities } =>
            exists|i: int| 0 <= i && i + 1 < capabilities.len() && x == capabilities@[i]@ && #[trigger] capabilities@[i + 1]@ == y,
        _ => false,
    }
}

/// Some constraint leads from `x` to `y`.
pub open spec fn coord_related(cs: Seq<OrderingConstraint>, x: Seq<char>, y: Seq<char>) -> bool {
    exists|k: int| 0 <= k < cs.len() && #[trigger] coord_edge(cs[k], x, y)
}

/// Every member of the nonempty group `s` leads to a member of `s`.
pub open spec fn coord_blocking(cs: Seq<OrderingConstraint>, s: Seq<Seq<char>>) -> bool {
    &&& s.len() > 0
    &&& forall|x: Seq<char>| #[trigger] s.contains(x) ==> exists|y: Seq<char>| s.contains(y) && #[trigger] coord_related(cs, x, y)
}

/// The coordination graph of the constraints has a cycle.
pub open spec fn coord_cyclic(cs: Seq<OrderingConstraint>) -> bool {
    exists|s: Seq<Seq<char>>| #[trigger] coord_blocking(cs, s)
}

/// The pairs `(i, j)`, `j` in `i + 1 .. m`, of shards that contradict each other.
pub open spec fn contra_row(orders: Seq<PartialOrderSpec>, i: int, m: int) -> Seq<(int, int)>
    decreases m - i,
{
    if m <= i + 1 {
        seq![]
    } else {
        contra_row(orders, i, m - 1) + if contradicts(orders[i].constraints@, orders[m - 1].constraints@) { seq![(i, m - 1)] } else { seq![] }
    }
}

/// The pairs `(i, j)`, `i < n`, `i < j`, of shards that contradict each other, in order.
pub open spec fn contra_pairs(orders: Seq<PartialOrderSpec>, n: int) -> Seq<(int, int)>
    decreases n,
{
    if n <= 0 {
        seq![]
    } else {
        contra_pairs(orders, n - 1) + contra_row(orders, n - 1, orders.len() as int)
    }
}

/// `c` reports that shards `a` and `b` order some pair in opposite ways.
pub open spec fn reports_contradiction(c: OrderingConflict, a: PartialOrderSpec, b: PartialOrderSpec) -> bool {
    &&& c.shard_a == a.shard_id && c.shard_b == b.shard_id
    &&& c.conflict_type == ConflictType::ContradictoryOrdering
    &&& exists|x: Seq<char>, y: Seq<char>| #[trigger] orders_before(a.constraints@, x, y) && #[trigger] orders_before(b.constraints@, y, x)
            && c.details@ == contradiction_text(x, y)
}

/// `c` reports a dependency cycle.
pub open spec fn reports_cycle(c: OrderingConflict) -> bool {
    &&& c.shard_a.bytes@ == crate::pubkey::zero_bytes() && c.shard_b.bytes@ == crate::pubkey::zero_bytes()
    &&& c.conflict_type == ConflictType::CyclicDependency
    &&& c.details@ == "Cyclic dependency detected in capability ordering"@
}

/// Some shard orders a pair with `Before` or `After`.
pub open spec fn has_votes(orders: Seq<PartialOrderSpec>) -> bool {
    exists|k: int| 0 <= k < orders_constraints(orders).len() && #[trigger] vote_of(orders_constraints(orders)[k]) is Some
}

/// Some shard gives a priority.
pub open spec fn has_priorities(orders: Seq<PartialOrderSpec>) -> bool {
    exists|k: int| 0 <= k < orders_constraints(orders).len() && (#[trigger] orders_constraints(orders)[k]) is Priority
}

/// The vote a constraint casts: `a before b` or `a after b`.
pub open spec fn vote_of(c: OrderingConstraint) -> Option<Seq<char>> {
    match c {
        OrderingConstraint::Before { capability_a, capability_b } => Some(capability_a@ + " before "@ + capability_b@),
        OrderingConstraint::After { capability_a, capability_b } => Some(capability_a@ + " after "@ + capability_b@),
        _ => None,
    }
}

/// The number of constraints among the first `n` that cast the vote `v`.
pub open spec fn vote_count(cs: Seq<OrderingConstraint>, v: Seq<char>, n: int) -> nat
    decreases n,
{
    if n <= 0 || n > cs.len() {
        0
    } else {
        vote_count(cs, v, n - 1) + if vote_of(cs[n - 1]) == Some(v) { 1nat } else { 0nat }
    }
}

/// A conflict stays unresolved: a contradiction where no shard votes on an
/// ordering, or a contention where no shard gives a priority.
pub open spec fn stays_unresolved(c: OrderingConflict, orders: Seq<PartialOrderSpec>) -> bool {
    match c.conflict_type {
        ConflictType::ContradictoryOrdering => !has_votes(orders),
        ConflictType::CyclicDependency => false,
        ConflictType::ResourceContention => !has_priorities(orders),
    }
}

/// Some capability is mentioned by two different shards.
pub open spec fn shares_capability(orders: Seq<PartialOrderSpec>) -> bool {
    exists|i: int, j: int, x: Seq<char>| 0 <= i < j < orders.len()
        && #[trigger] mentioned_in(orders[i].constraints@, x) && #[trigger] mentioned_in(orders[j].constraints@, x)
}

/// The constraints from the first `n` shards are all allowed.
pub open spec fn all_valid(orders: Seq<PartialOrderSpec>) -> bool {
    forall|i: int| 0 <= i < orders.len() ==> shard_order_valid(#[trigger] orders[i].constraints@)
}

/// The total number of constraints of the shards.
pub open spec fn constraint_total(orders: Seq<PartialOrderSpec>) -> nat
    decreases orders.len(),
{
    if orders.len() == 0 {
        0
    } else {
        constraint_total(orders.drop_last()) + orders.last().constraints@.len()
    }
}

/// The abstract values of a list of conflicts: kind and shards.
pub open spec fn conflict_kinds(v: Seq<OrderingConflict>) -> Seq<ConflictType> {
    v.map_values(|c: OrderingConflict| c.conflict_type)
}

/// The flattened constraints of a prefix followed by one more shard.
proof fn lemma_orders_constraints_push(orders: Seq<PartialOrderSpec>, i: int)
    requires
        0 <= i < orders.len(),
    ensures
        orders_constraints(orders.take(i + 1)) == orders_constraints(orders.take(i)) + orders[i].constraints@,
{
    assert(orders.take(i + 1).drop_last() =~= orders.take(i));
}

/// A cycle of the coordination graph is a cycle of a graph with the same edges.
pub proof fn lemma_coord_cycle_same(g: EdgesView, cs: Seq<OrderingConstraint>)
    requires
        forall|x: Seq<char>, y: Seq<char>| #[trigger] depends_on(g, x, y) <==> coord_related(cs, x, y),
    ensures
        has_cycle(g) == coord_cyclic(cs),
{
    if has_cycle(g) {
        let s = choose|s: Seq<Seq<char>>| #[trigger] self_blocking(g, s);
        assert forall|x: Seq<char>| #[trigger] s.contains(x) implies exists|y: Seq<char>| s.contains(y) && #[trigger] coord_related(cs, x, y) by {
            let y = choose|y: Seq<char>| s.contains(y) && #[trigger] depends_on(g, x, y);
            assert(coord_related(cs, x, y));
        }
        assert(coord_blocking(cs, s));
    }
    if coord_cyclic(cs) {
        let s = choose|s: Seq<Seq<char>>| #[trigger] coord_blocking(cs, s);
        assert forall|x: Seq<char>| #[trigger] s.contains(x) implies has_dependency_in(g, x, s) by {
            let y = choose|y: Seq<char>| s.contains(y) && #[trigger] coord_related(cs, x, y);
            assert(depends_on(g, x, y));
        }
        assert(self_blocking(g, s));
    }
}

/// A contradiction needs an ordering, so some shard votes.
proof fn lemma_contradiction_votes(orders: Seq<PartialOrderSpec>, i: int)
    requires
        0 <= i < orders.len(),
        exists|x: Seq<char>, y: Seq<char>| #[trigger] orders_before(orders[i].constraints@, x, y),
    ensures
        has_votes(orders),
    decreases orders.len(),
{
    let (x, y) = choose|x: Seq<char>, y: Seq<char>| #[trigger] orders_before(orders[i].constraints@, x, y);
    let k = choose|k: int| 0 <= k < orders[i].constraints@.len() && #[trigger] says_before(orders[i].constraints@[k], x, y);
    if i == orders.len() - 1 {
        let all = orders_constraints(orders);
        let pre = orders_constraints(orders.drop_last());
        assert(all == pre + orders.last().constraints@);
        assert(all[pre.len() + k] == orders[i].constraints@[k]);
        assert(vote_of(all[pre.len() + k]) is Some);
    } else {
        assert(orders.drop_last()[i] == orders[i]);
        lemma_contradiction_votes(orders.drop_last(), i);
        let pre = orders_constraints(orders.drop_last());
        let m = choose|m: int| 0 <= m < pre.len() && #[trigger] vote_of(pre[m]) is Some;
        let all = orders_constraints(orders);
        assert(all[m] == pre[m]);
    }
}

impl OrderingConflict {
    /// A copy of the conflict.
    pub fn copy_conflict(&self) -> (r: OrderingConflict)
        ensures
            r.shard_a == self.shard_a,
            r.shard_b == self.shard_b,
            r.conflict_type == self.conflict_type,
            r.details@ == self.details@,
    {
        OrderingConflict { shard_a: self.shard_a, shard_b: self.shard_b, conflict_type: self.conflict_type, details: self.details.clone() }
    }
}

impl OrderingCoordinator {
    /// Checks one shard's constraints: refuses `Before` a capability and
    /// itself, and an empty `Sequential` list.
    pub fn validate_shard_order(order: &PartialOrderSpec) -> (r: Result<(), ValenceError>)
        ensures
            shard_order_valid(order.constraints@) ==> r is Ok,
            !shard_order_valid(order.constraints@) ==> r == Err::<(), ValenceError>(ValenceError::InvalidOrderingConstraint),
    {
        let cs = &order.constraints;
        let mut k: usize = 0;
        while k < cs.len()
            invariant
                k <= cs.len(),
                cs@ == order.constraints@,
                forall|j: int| 0 <= j < k ==> !invalid_constraint(#[trigger] cs@[j]),
            decreases cs.len() - k,
        {
            let bad = match &cs[k] {
                OrderingConstraint::Before { capability_a, capability_b } => *capability_a == *capability_b,
                OrderingConstraint::Sequential { capabilities } => capabilities.len() == 0,
                _ => false,
            };
            if bad {
                assert(invalid_constraint(cs@[k as int]));
                return Err(ValenceError::InvalidOrderingConstraint);
            }
            k += 1;
        }
        Ok(())
    }

    /// The pair `(x, y)` a constraint orders `x` before `y`, if it orders one.
    fn before_pair(c: &OrderingConstraint) -> (r: Option<(&String, &String)>)
        ensures
            r matches Some(p) ==> says_before(*c, p.0@, p.1@),
            r is None ==> forall|x: Seq<char>, y: Seq<char>| !#[trigger] says_before(*c, x, y),
            r matches Some(p) ==> forall|x: Seq<char>, y: Seq<char>| #[trigger] says_before(*c, x, y) ==> x == p.0@ && y == p.1@,
    {
        match c {
            OrderingConstraint::Before { capability_a, capability_b } => Some((capability_a, capability_b)),
            OrderingConstraint::After { capability_a, capability_b } => Some((capability_b, capability_a)),
            _ => None,
        }
    }

    /// Whether the constraints order `y` before `x`... reversed: whether
    /// some constraint of `cs` says `x` runs before `y`.
    fn orders_pair(cs: &Vec<OrderingConstraint>, x: &String, y: &String) -> (r: bool)
        ensures
            r == orders_before(cs@, x@, y@),
    {
        let mut k: usize = 0;
        while k < cs.len()
            invariant
                k <= cs.len(),
                forall|j: int| 0 <= j < k ==> !#[trigger] says_before(cs@[j], x@, y@),
            decreases cs.len() - k,
        {
            if let Some(p) = Self::before_pair(&cs[k]) {
                if *p.0 == *x && *p.1 == *y {
                    return true;
                }
            }
            k += 1;
        }
        false
    }

    /// A contradiction between two shards: a pair the first orders one way
    /// and the second the other way.
    pub fn check_contradictory_ordering(order_a: &PartialOrderSpec, order_b: &PartialOrderSpec) -> (r: Option<OrderingConflict>)
        ensures
            r is Some <==> contradicts(order_a.constraints@, order_b.constraints@),
            r matches Some(c) ==> reports_contradiction(c, *order_a, *order_b),
    {
        let ca = &order_a.constraints;
        let mut k: usize = 0;
        while k < ca.len()
            invariant
                k <= ca.len(),
                ca@ == order_a.constraints@,
                forall|j: int, x: Seq<char>, y: Seq<char>| 0 <= j < k && #[trigger] says_before(ca@[j], x, y) ==> !orders_before(order_b.constraints@, y, x),
            decreases ca.len() - k,
        {
            if let Some(p) = Self::before_pair(&ca[k]) {
                if Self::orders_pair(&order_b.constraints, p.1, p.0) {
                    let mut details = p.0.clone();
                    details.append(" before ");
                    details.append(p.1.as_str());
                    details.append(" in shard A, but reversed in shard B");
                    proof {
                        assert(orders_before(order_a.constraints@, p.0@, p.1@));
                    }
                    return Some(OrderingConflict {
                        shard_a: order_a.shard_id,
                        shard_b: order_b.shard_id,
                        conflict_type: ConflictType::ContradictoryOrdering,
                        details,
                    });
                }
            }
            k += 1;
        }
        proof {
            if contradicts(order_a.constraints@, order_b.constraints@) {
                let (x, y) = choose|x: Seq<char>, y: Seq<char>| #[trigger] orders_before(order_a.constraints@, x, y) && #[trigger] orders_before(order_b.constraints@, y, x);
                let j = choose|j: int| 0 <= j < ca@.len() && #[trigger] says_before(ca@[j], x, y);
            }
        }
        None
    }

    /// The coordination graph of the constraints.
    fn coordination_graph(cs: &Vec<OrderingConstraint>) -> (g: DependencyGraph)
        requires
            no_empty_sequence(cs@),
        ensures
            forall|x: Seq<char>, y: Seq<char>| #[trigger] depends_on(g@, x, y) <==> coord_related(cs@, x, y),
    {
        let mut g = DependencyGraph::new();
        let mut k: usize = 0;
        while k < cs.len()
            invariant
                k <= cs.len(),
                forall|x: Seq<char>, y: Seq<char>| #[trigger] depends_on(g@, x, y) <==> coord_related(cs@.take(k as int), x, y),
            decreases cs.len() - k,
        {
            let ghost g0 = g@;
            let ghost c = cs@[k as int];
            match &cs[k] {
                OrderingConstraint::Before { capability_a, capability_b } => {
                    g.add_edge(capability_a, capability_b);
                    assert forall|x: Seq<char>, y: Seq<char>| #[trigger] depends_on(g@, x, y) <==> (depends_on(g0, x, y) || coord_edge(c, x, y)) by {}
                }
                OrderingConstraint::After { capability_a, capability_b } => {
                    g.add_edge(capability_b, capability_a);
                    assert forall|x: Seq<char>, y: Seq<char>| #[trigger] depends_on(g@, x, y) <==> (depends_on(g0, x, y) || coord_edge(c, x, y)) by {}
                }
                OrderingConstraint::Sequential { capabilities } => {
                    let mut i: usize = 0;
                    while i < capabilities.len() && i + 1 < capabilities.len()
                        invariant
                            i + 1 <= capabilities.len() || capabilities.len() == 0,
                            forall|x: Seq<char>, y: Seq<char>| #[trigger] depends_on(g@, x, y) <==> (depends_on(g0, x, y)
                                || exists|j: int| 0 <= j < i && j + 1 < capabilities.len() && x == capabilities@[j]@ && #[trigger] capabilities@[j + 1]@ == y),
                        decreases capabilities.len() - i,
                    {
                        g.add_edge(&capabilities[i], &capabilities[i + 1]);
                        proof {
                            assert forall|x: Seq<char>, y: Seq<char>| #[trigger] depends_on(g@, x, y) <==> (depends_on(g0, x, y)
                                || exists|j: int| 0 <= j < i + 1 && j + 1 < capabilities.len() && x == capabilities@[j]@ && #[trigger] capabilities@[j + 1]@ == y) by {
                                if x == capabilities@[i as int]@ && y == capabilities@[i + 1]@ {
                                    assert(capabilities@[(i as int) + 1]@ == y);
                                }
                            }
                        }
                        i += 1;
                    }
                    assert forall|x: Seq<char>, y: Seq<char>| #[trigger] depends_on(g@, x, y) <==> (depends_on(g0, x, y) || coord_edge(c, x, y)) by {
                        if coord_edge(c, x, y) {
                            let j = choose|j: int| 0 <= j && j + 1 < capabilities.len() && x == capabilities@[j]@ && #[trigger] capabilities@[j + 1]@ == y;
                            assert(0 <= j < i && j + 1 < capabilities.len() && x == capabilities@[j]@ && capabilities@[j + 1]@ == y);
                        }
                    }
                }
                _ => {
                    assert forall|x: Seq<char>, y: Seq<char>| #[trigger] depends_on(g@, x, y) <==> (depends_on(g0, x, y) || coord_edge(c, x, y)) by {}
                }
            }
            proof {
                let t = cs@;
                assert forall|x: Seq<char>, y: Seq<char>| #[trigger] depends_on(g@, x, y) <==> coord_related(t.take(k + 1), x, y) by {
                    assert(t.take(k + 1)[k as int] == c);
                    if coord_related(t.take(k + 1), x, y) {
                        let j = choose|j: int| 0 <= j < k + 1 && #[trigger] coord_edge(t.take(k + 1)[j], x, y);
                        if j < k {
                            assert(t.take(k as int)[j] == t.take(k + 1)[j]);
                            assert(coord_related(t.take(k as int), x, y));
                        }
                    }
                    if coord_related(t.take(k as int), x, y) {
                        let j = choose|j: int| 0 <= j < k && #[trigger] coord_edge(t.take(k as int)[j], x, y);
                        assert(t.take(k as int)[j] == t.take(k + 1)[j]);
                    }
                }
            }
            k += 1;
        }
        assert(cs@.take(cs.len() as int) =~= cs@);
        g
    }

    /// All constraints of the shards, copied, in order.
    fn all_constraints_of(orders: &Vec<PartialOrderSpec>) -> (r: Vec<OrderingConstraint>)
        ensures
            cviews(r@) == cviews(orders_constraints(orders@)),
            forall|k: int| 0 <= k < r@.len() ==> cview(#[trigger] r@[k]) == cview(orders_constraints(orders@)[k]),
    {
        let mut r: Vec<OrderingConstraint> = Vec::new();
        let mut i: usize = 0;
        while i < orders.len()
            invariant
                i <= orders.len(),
                cviews(r@) == cviews(orders_constraints(orders@.take(i as int))),
            decreases orders.len() - i,
        {
            proof {
                lemma_orders_constraints_push(orders@, i as int);
            }
            let ghost base = cviews(r@);
            let cs = &orders[i].constraints;
            let mut k: usize = 0;
            while k < cs.len()
                invariant
                    k <= cs.len(),
                    cviews(r@) == base + cviews(cs@).take(k as int),
                decreases cs.len() - k,
            {
                let ghost prev = cviews(r@);
                r.push(cs[k].clone_constraint());
                assert(cviews(r@) =~= prev.push(cview(cs@[k as int])));
                assert(cviews(cs@).take(k + 1) =~= cviews(cs@).take(k as int).push(cview(cs@[k as int])));
                k += 1;
            }
            assert(cviews(cs@).take(cs.len() as int) =~= cviews(cs@));
            assert(cviews(orders_constraints(orders@.take(i + 1))) =~= cviews(orders_constraints(orders@.take(i as int))) + cviews(cs@));
            i += 1;
        }
        assert(orders@.take(orders.len() as int) =~= orders@);
        proof {
            assert forall|k: int| 0 <= k < r@.len() implies cview(#[trigger] r@[k]) == cview(orders_constraints(orders@)[k]) by {
                assert(cviews(r@)[k] == cviews(orders_constraints(orders@))[k]);
            }
        }
        r
    }

    /// A cyclic-dependency conflict where the shards' constraints, taken
    /// together, lead around a cycle.
    pub fn detect_cyclic_dependencies(shard_orders: &Vec<PartialOrderSpec>) -> (r: Option<OrderingConflict>)
        requires
            no_empty_sequence(orders_constraints(shard_orders@)),
        ensures
            r is Some <==> coord_cyclic(orders_constraints(shard_orders@)),
            r matches Some(c) ==> reports_cycle(c),
    {
        let all = Self::all_constraints_of(shard_orders);
        proof {
            assert(cviews(all@).len() == all@.len());
            assert(cviews(orders_constraints(shard_orders@)).len() == orders_constraints(shard_orders@).len());
            lemma_same_views_coord(all@, orders_constraints(shard_orders@));
        }
        let g = Self::coordination_graph(&all);
        proof {
            lemma_coord_cycle_same(g@, all@);
            lemma_coord_cyclic_same(all@, orders_constraints(shard_orders@));
        }
        if g.has_cycles() {
            let d = Pubkey::default_key();
            return Some(OrderingConflict {
                shard_a: d,
                shard_b: d,
                conflict_type: ConflictType::CyclicDependency,
                details: owned("Cyclic dependency detected in capability ordering"),
            });
        }
        None
    }
}

/// Constraints with the same abstract values lead the same way, and have
/// the same empty lists.
proof fn lemma_same_views_coord(a: Seq<OrderingConstraint>, b: Seq<OrderingConstraint>)
    requires
        a.len() == b.len(),
        forall|k: int| 0 <= k < a.len() ==> cview(#[trigger] a[k]) == cview(b[k]),
    ensures
        no_empty_sequence(b) ==> no_empty_sequence(a),
        forall|x: Seq<char>, y: Seq<char>| #[trigger] coord_related(a, x, y) <==> coord_related(b, x, y),
{
    assert forall|k: int, x: Seq<char>, y: Seq<char>| 0 <= k < a.len() implies #[trigger] coord_edge(a[k], x, y) == coord_edge(b[k], x, y) by {
        assert(cview(a[k]) == cview(b[k]));
        match (a[k], b[k]) {
            (OrderingConstraint::Sequential { capabilities: ca }, OrderingConstraint::Sequential { capabilities: cb }) => {
                assert(views(ca@) == views(cb@));
                if coord_edge(a[k], x, y) {
                    let i = choose|i: int| 0 <= i && i + 1 < ca.len() && x == ca@[i]@ && #[trigger] ca@[i + 1]@ == y;
                    assert(views(ca@)[i] == views(cb@)[i] && views(ca@)[i + 1] == views(cb@)[i + 1]);
                    assert(x == cb@[i]@ && cb@[i + 1]@ == y);
                }
                if coord_edge(b[k], x, y) {
                    let i = choose|i: int| 0 <= i && i + 1 < cb.len() && x == cb@[i]@ && #[trigger] cb@[i + 1]@ == y;
                    assert(views(ca@)[i] == views(cb@)[i] && views(ca@)[i + 1] == views(cb@)[i + 1]);
                    assert(x == ca@[i]@ && ca@[i + 1]@ == y);
                }
            },
            _ => {},
        }
    }
    assert forall|x: Seq<char>, y: Seq<char>| #[trigger] coord_related(a, x, y) <==> coord_related(b, x, y) by {
        if coord_related(a, x, y) {
            let k = choose|k: int| 0 <= k < a.len() && #[trigger] coord_edge(a[k], x, y);
            assert(coord_edge(b[k], x, y));
        }
        if coord_related(b, x, y) {
            let k = choose|k: int| 0 <= k < b.len() && #[trigger] coord_edge(b[k], x, y);
            assert(coord_edge(a[k], x, y));
        }
    }
    if no_empty_sequence(b) {
        assert forall|k: int| 0 <= k < a.len() implies !((#[trigger] a[k]) matches OrderingConstraint::Sequential { capabilities } && capabilities.len() == 0) by {
            assert(cview(a[k]) == cview(b[k]));
            assert(!(b[k] matches OrderingConstraint::Sequential { capabilities } && capabilities.len() == 0));
            match (a[k], b[k]) {
                (OrderingConstraint::Sequential { capabilities: ca }, OrderingConstraint::Sequential { capabilities: cb }) => {
                    assert(views(ca@).len() == views(cb@).len());
                },
                _ => {},
            }
        }
    }
}

/// The same relation gives the same cycles.
proof fn lemma_coord_cyclic_same(a: Seq<OrderingConstraint>, b: Seq<OrderingConstraint>)
    requires
        forall|x: Seq<char>, y: Seq<char>| #[trigger] coord_related(a, x, y) <==> coord_related(b, x, y),
    ensures
        coord_cyclic(a) == coord_cyclic(b),
{
    if coord_cyclic(a) {
        let s = choose|s: Seq<Seq<char>>| #[trigger] coord_blocking(a, s);
        assert forall|x: Seq<char>| #[trigger] s.contains(x) implies exists|y: Seq<char>| s.contains(y) && #[trigger] coord_related(b, x, y) by {
            let y = choose|y: Seq<char>| s.contains(y) && #[trigger] coord_related(a, x, y);
            assert(coord_related(b, x, y));
        }
        assert(coord_blocking(b, s));
    }
    if coord_cyclic(b) {
        let s = choose|s: Seq<Seq<char>>| #[trigger] coord_blocking(b, s);
        assert forall|x: Seq<char>| #[trigger] s.contains(x) implies exists|y: Seq<char>| s.contains(y) && #[trigger] coord_related(a, x, y) by {
            let y = choose|y: Seq<char>| s.contains(y) && #[trigger] coord_related(b, x, y);
            assert(coord_related(a, x, y));
        }
        assert(coord_blocking(a, s));
    }
}

/// The priority-ordered capabilities: each capability given a priority,
/// once, in order of first mention, with the highest level it is given.
pub open spec fn prio_entries(cs: Seq<OrderingConstraint>, n: int) -> Seq<(Seq<char>, u8)>
    decreases n,
{
    if n <= 0 || n > cs.len() {
        seq![]
    } else {
        let prev = prio_entries(cs, n - 1);
        match cs[n - 1] {
            OrderingConstraint::Priority { capability, level } => raise_entry(prev, capability@, level),
            _ => prev,
        }
    }
}

/// The index of the first entry for `cap` from `i` on, or the length.
pub open spec fn entry_index(entries: Seq<(Seq<char>, u8)>, cap: Seq<char>, i: int) -> int
    decreases entries.len() - i,
{
    if i < 0 || i >= entries.len() {
        entries.len() as int
    } else if entries[i].0 == cap {
        i
    } else {
        entry_index(entries, cap, i + 1)
    }
}

/// `entries` with `cap` raised to at least `level`, or added at the end with it.
pub open spec fn raise_entry(entries: Seq<(Seq<char>, u8)>, cap: Seq<char>, level: u8) -> Seq<(Seq<char>, u8)> {
    let i = entry_index(entries, cap, 0);
    if i < entries.len() {
        if level > entries[i].1 { entries.update(i, (cap, level)) } else { entries }
    } else {
        entries.push((cap, level))
    }
}

/// The text of a priority-based resolution: the capabilities given a
/// priority, by highest level first (ties in order of first mention),
/// each as `{:?}` prints it.
pub open spec fn priority_resolution_text(cs: Seq<OrderingConstraint>) -> Seq<char> {
    let e = prio_entries(cs, cs.len() as int);
    let order = crate::scheduler::topological_scheduler::desc_order(e.map_values(|p: (Seq<char>, u8)| p.1 as int));
    "Resolved using priority ordering: "@ + list_text(order.map_values(|i: int| debug_text(e[i].0)))
}

/// The text of a temporal resolution: the shards' keys in order.
pub open spec fn temporal_resolution_text(orders: Seq<PartialOrderSpec>) -> Seq<char> {
    "Resolved using temporal ordering: "@ + list_text(orders.map_values(|o: PartialOrderSpec| base58(o.shard_id.bytes@)))
}

/// Whether the context keeps a constraint: a priority of level 7 or more,
/// or any priority with more than half the resources available; a
/// sequence when under 30% of resources are available or it has more than
/// five capabilities; anything else always.
pub open spec fn keeps_constraint(c: OrderingConstraint, availability: u32) -> bool {
    match c {
        OrderingConstraint::Priority { level, .. } => level >= 7 || availability > 50,
        OrderingConstraint::Sequential { capabilities } => availability < 30 || capabilities.len() > 5,
        _ => true,
    }
}

/// The constraints the context adds for a constraint: a concurrent group
/// becomes a sequence when under 20% of resources are available.
pub open spec fn extra_constraints(c: OrderingConstraint, availability: u32) -> Seq<CView> {
    match c {
        OrderingConstraint::Concurrent { capabilities } => if availability < 20 { seq![(3int, views(capabilities@), 0u8)] } else { seq![] },
        _ => seq![],
    }
}

/// The constraints after the context is applied to the first `n`.
pub open spec fn conditioned(cs: Seq<OrderingConstraint>, availability: u32, n: int) -> Seq<CView>
    decreases n,
{
    if n <= 0 || n > cs.len() {
        seq![]
    } else {
        conditioned(cs, availability, n - 1)
            + (if keeps_constraint(cs[n - 1], availability) { seq![cview(cs[n - 1])] } else { seq![] })
            + extra_constraints(cs[n - 1], availability)
    }
}

/// A priority constraint of level 7 or more survives the context whatever
/// resources are available: it is kept, and its abstract value stays among
/// the conditioned constraints of every prefix that holds it.
pub proof fn lemma_high_priority_always_kept(cs: Seq<OrderingConstraint>, availability: u32, k: int, n: int)
    requires
        0 <= k < n <= cs.len(),
        cs[k] matches OrderingConstraint::Priority { level, .. } && level >= 7,
    ensures
        keeps_constraint(cs[k], availability),
        conditioned(cs, availability, n).contains(cview(cs[k])),
    decreases n,
{
    let prev = conditioned(cs, availability, n - 1);
    let kept = if keeps_constraint(cs[n - 1], availability) { seq![cview(cs[n - 1])] } else { seq![] };
    let whole = prev + kept + extra_constraints(cs[n - 1], availability);
    assert(conditioned(cs, availability, n) == whole);
    if k == n - 1 {
        assert(whole[prev.len() as int] == cview(cs[k]));
    } else {
        lemma_high_priority_always_kept(cs, availability, k, n - 1);
        let j = choose|j: int| 0 <= j < prev.len() && prev[j] == cview(cs[k]);
        assert(whole[j] == cview(cs[k]));
    }
}

/// A byte read as a signed byte.
pub open spec fn as_i8(level: u8) -> int {
    if level < 128 { level as int } else { level - 256 }
}

/// The raw adjustment for a capability: 2 down for a compute capability
/// when the CPU is over 80% busy, 2 down for a memory capability when memory
/// is over 80% used, 3 up for an urgent or realtime one.
pub open spec fn raw_adjustment(cap: Seq<char>, m: ResourceMetrics) -> int {
    (if m.cpu_usage > 80 && has_substring(cap, "compute"@) { -2int } else { 0int })
        + (if m.memory_usage > 80 && has_substring(cap, "memory"@) { -2int } else { 0int })
        + (if has_substring(cap, "urgent"@) || has_substring(cap, "realtime"@) { 3int } else { 0int })
}

/// The adjustment that keeps the level within 0..=10.
pub open spec fn bounded_adjustment(cap: Seq<char>, level: u8, m: ResourceMetrics) -> int {
    let t = as_i8(level) + raw_adjustment(cap, m);
    if t > 10 { 10 - as_i8(level) } else if t < 0 { -as_i8(level) } else { raw_adjustment(cap, m) }
}

/// The adjustment is computed without overflowing a signed byte.
pub open spec fn adjustment_fits(cap: Seq<char>, level: u8, m: ResourceMetrics) -> bool {
    level != 128 && -128 <= as_i8(level) + raw_adjustment(cap, m) <= 127
}

/// The level after adjustment.
pub open spec fn adjusted_level(cap: Seq<char>, level: u8, m: ResourceMetrics) -> u8 {
    (as_i8(level) + bounded_adjustment(cap, level, m)) as u8
}

/// Every priority of the constraints can be adjusted.
pub open spec fn adjustments_fit(cs: Seq<OrderingConstraint>, m: ResourceMetrics) -> bool {
    forall|k: int| 0 <= k < cs.len() ==> ((#[trigger] cs[k]) matches OrderingConstraint::Priority { capability, level }
        ==> adjustment_fits(capability@, level, m))
}

/// The constraints with every priority adjusted.
pub open spec fn adjusted(cs: Seq<OrderingConstraint>, m: ResourceMetrics) -> Seq<CView> {
    cs.map_values(|c: OrderingConstraint| match c {
        OrderingConstraint::Priority { capability, level } => (4int, seq![capability@], adjusted_level(capability@, level, m)),
        _ => cview(c),
    })
}

/// The cached constraints of a shard: its first entry.
pub open spec fn cached_for(cache: Seq<(Pubkey, Vec<OrderingConstraint>)>, shard: Seq<u8>) -> Option<Seq<CView>>
    decreases cache.len(),
{
    if cache.len() == 0 {
        None
    } else if cache[0].0.bytes@ == shard {
        Some(cviews(cache[0].1@))
    } else {
        cached_for(cache.drop_first(), shard)
    }
}

impl OrderingCoordinator {
    /// Conflicts between the shards: a contradiction for each pair of shards
    /// that order some pair of capabilities in opposite ways, by first then
    /// second shard, and then a cycle conflict when all constraints together
    /// lead around a cycle.
    pub fn check_inter_shard_conflicts(shard_orders: &Vec<PartialOrderSpec>) -> (r: Vec<OrderingConflict>)
        requires
            no_empty_sequence(orders_constraints(shard_orders@)),
        ensures
            r@.len() == contra_pairs(shard_orders@, shard_orders@.len() as int).len()
                + if coord_cyclic(orders_constraints(shard_orders@)) { 1int } else { 0int },
            forall|k: int| 0 <= k < contra_pairs(shard_orders@, shard_orders@.len() as int).len() ==>
                reports_contradiction(#[trigger] r@[k], shard_orders@[contra_pairs(shard_orders@, shard_orders@.len() as int)[k].0],
                    shard_orders@[contra_pairs(shard_orders@, shard_orders@.len() as int)[k].1]),
            coord_cyclic(orders_constraints(shard_orders@)) ==> reports_cycle(r@.last()),
    {
        let ghost o = shard_orders@;
        let mut conflicts: Vec<OrderingConflict> = Vec::new();
        let n = shard_orders.len();
        let mut i: usize = 0;
        while i < n
            invariant
                i <= n,
                n == shard_orders.len(),
                o == shard_orders@,
                conflicts@.len() == contra_pairs(o, i as int).len(),
                forall|k: int| 0 <= k < conflicts@.len() ==> #[trigger] contra_pairs(o, i as int)[k].0 < i
                    && 0 <= contra_pairs(o, i as int)[k].0 < contra_pairs(o, i as int)[k].1 < n
                    && reports_contradiction(conflicts@[k], o[contra_pairs(o, i as int)[k].0], o[contra_pairs(o, i as int)[k].1]),
            decreases n - i,
        {
            let ghost base = contra_pairs(o, i as int);
            let mut j: usize = i + 1;
            while j < n
                invariant
                    i < j <= n,
                    n == shard_orders.len(),
                    o == shard_orders@,
                    conflicts@.len() == base.len() + contra_row(o, i as int, j as int).len(),
                    forall|k: int| 0 <= k < conflicts@.len() ==> #[trigger] (base + contra_row(o, i as int, j as int))[k].0 <= i
                        && 0 <= (base + contra_row(o, i as int, j as int))[k].0 < (base + contra_row(o, i as int, j as int))[k].1 < n
                        && reports_contradiction(conflicts@[k], o[(base + contra_row(o, i as int, j as int))[k].0], o[(base + contra_row(o, i as int, j as int))[k].1]),
                decreases n - j,
            {
                let ghost prev = conflicts@;
                let ghost row = contra_row(o, i as int, j as int);
                match Self::check_contradictory_ordering(&shard_orders[i], &shard_orders[j]) {
                    Some(c) => {
                        conflicts.push(c);
                        proof {
                            assert(contra_row(o, i as int, j + 1) =~= row.push((i as int, j as int)));
                            assert((base + contra_row(o, i as int, j + 1)) =~= (base + row).push((i as int, j as int)));
                            assert forall|k: int| 0 <= k < conflicts@.len() implies #[trigger] (base + contra_row(o, i as int, j + 1))[k].0 <= i
                                && 0 <= (base + contra_row(o, i as int, j + 1))[k].0 < (base + contra_row(o, i as int, j + 1))[k].1 < n
                                && reports_contradiction(conflicts@[k], o[(base + contra_row(o, i as int, j + 1))[k].0], o[(base + contra_row(o, i as int, j + 1))[k].1]) by {
                                if k < prev.len() {
                                    assert(conflicts@[k] == prev[k]);
                                    assert((base + contra_row(o, i as int, j + 1))[k] == (base + row)[k]);
                                }
                            }
                        }
                    }
                    None => {
                        proof {
                            assert(contra_row(o, i as int, j + 1) =~= row);
                        }
                    }
                }
                j += 1;
            }
            proof {
                assert(contra_pairs(o, i + 1) =~= base + contra_row(o, i as int, n as int));
            }
            i += 1;
        }
        if let Some(c) = Self::detect_cyclic_dependencies(shard_orders) {
            conflicts.push(c);
        }
        conflicts
    }

    /// The ordering most shards vote for, if any shard orders a pair: the
    /// text `a before b` or `a after b` of a `Before` or `After` constraint
    /// cast by the most constraints (the first such among ties).
    pub fn consensus_based_resolution(conflict: &OrderingConflict, shard_orders: &Vec<PartialOrderSpec>) -> (r: Option<String>)
        ensures
            r is Some <==> has_votes(shard_orders@),
            r matches Some(t) ==> exists|k: int| 0 <= k < orders_constraints(shard_orders@).len()
                && #[trigger] vote_of(orders_constraints(shard_orders@)[k]) == Some(t@),
            r matches Some(t) ==> forall|k: int| 0 <= k < orders_constraints(shard_orders@).len()
                && #[trigger] vote_of(orders_constraints(shard_orders@)[k]) is Some ==>
                vote_count(orders_constraints(shard_orders@), vote_of(orders_constraints(shard_orders@)[k])->0, orders_constraints(shard_orders@).len() as int)
                    <= vote_count(orders_constraints(shard_orders@), t@, orders_constraints(shard_orders@).len() as int),
    {
        let all = Self::all_constraints_of(shard_orders);
        let ghost cs = orders_constraints(shard_orders@);
        proof {
            assert(cviews(all@).len() == all@.len());
            assert(cviews(cs).len() == cs.len());
            lemma_same_votes(all@, cs);
        }
        let mut texts: Vec<String> = Vec::new();
        let mut k: usize = 0;
        while k < all.len()
            invariant
                k <= all.len(),
                all@.len() == cs.len(),
                forall|j: int| 0 <= j < all@.len() ==> vote_of(#[trigger] all@[j]) == vote_of(cs[j]),
                texts@.len() == k,
                forall|j: int| 0 <= j < k ==> #[trigger] vote_text_or_empty(all@[j]) == texts@[j]@,
            decreases all.len() - k,
        {
            let t = Self::vote_string(&all[k]);
            texts.push(t);
            k += 1;
        }
        let mut best: Option<(usize, usize)> = None;
        let mut k: usize = 0;
        while k < all.len()
            invariant
                k <= all.len(),
                all@.len() == cs.len(),
                texts@.len() == all@.len(),
                forall|j: int| 0 <= j < all@.len() ==> vote_of(#[trigger] all@[j]) == vote_of(cs[j]),
                forall|j: int| 0 <= j < all@.len() ==> #[trigger] vote_text_or_empty(all@[j]) == texts@[j]@,
                forall|t: Seq<char>, n: int| 0 <= n <= all@.len() ==> #[trigger] vote_count(all@, t, n) == vote_count(cs, t, n),
                best is None <==> forall|j: int| 0 <= j < k ==> vote_of(#[trigger] cs[j]) is None,
                best matches Some(b) ==> b.0 < k && vote_of(cs[b.0 as int]) is Some
                    && b.1 == vote_count(cs, vote_of(cs[b.0 as int])->0, cs.len() as int)
                    && forall|j: int| 0 <= j < k && #[trigger] vote_of(cs[j]) is Some ==> vote_count(cs, vote_of(cs[j])->0, cs.len() as int) <= b.1,
            decreases all.len() - k,
        {
            if Self::vote_string_some(&all[k]) {
                let c = Self::count_text(&all, &texts, k);
                let better = match best {
                    None => true,
                    Some(b) => c > b.1,
                };
                if better {
                    best = Some((k, c));
                }
            }
            k += 1;
        }
        match best {
            None => {
                proof {
                    if has_votes(shard_orders@) {
                        let j = choose|j: int| 0 <= j < cs.len() && #[trigger] vote_of(cs[j]) is Some;
                    }
                }
                None
            }
            Some(b) => {
                let t = texts[b.0].clone();
                assert(vote_text_or_empty(all@[b.0 as int]) == texts@[b.0 as int]@);
                assert(vote_of(all@[b.0 as int]) == vote_of(cs[b.0 as int]));
                assert(vote_of(cs[b.0 as int]) == Some(t@));
                Some(t)
            }
        }
    }

    /// The vote text of a constraint, empty for one that casts none.
    fn vote_string(c: &OrderingConstraint) -> (r: String)
        ensures
            r@ == vote_text_or_empty(*c),
    {
        match c {
            OrderingConstraint::Before { capability_a, capability_b } => {
                let mut t = capability_a.clone();
                t.append(" before ");
                t.append(capability_b.as_str());
                t
            }
            OrderingConstraint::After { capability_a, capability_b } => {
                let mut t = capability_a.clone();
                t.append(" after ");
                t.append(capability_b.as_str());
                t
            }
            _ => String::new(),
        }
    }

    /// Whether the constraint casts a vote.
    fn vote_string_some(c: &OrderingConstraint) -> (r: bool)
        ensures
            r == vote_of(*c) is Some,
    {
        match c {
            OrderingConstraint::Before { .. } | OrderingConstraint::After { .. } => true,
            _ => false,
        }
    }

    /// The number of constraints casting the vote of constraint `k`.
    fn count_text(all: &Vec<OrderingConstraint>, texts: &Vec<String>, k: usize) -> (r: usize)
        requires
            k < all.len(),
            texts@.len() == all@.len(),
            vote_of(all@[k as int]) is Some,
            forall|j: int| 0 <= j < all@.len() ==> #[trigger] vote_text_or_empty(all@[j]) == texts@[j]@,
        ensures
            r == vote_count(all@, vote_of(all@[k as int])->0, all@.len() as int),
    {
        let ghost v = vote_of(all@[k as int])->0;
        assert(vote_text_or_empty(all@[k as int]) == texts@[k as int]@);
        let mut c: usize = 0;
        let mut j: usize = 0;
        while j < all.len()
            invariant
                j <= all.len(),
                k < all.len(),
                texts@.len() == all@.len(),
                v == vote_of(all@[k as int])->0,
                vote_of(all@[k as int]) is Some,
                texts@[k as int]@ == v,
                forall|m: int| 0 <= m < all@.len() ==> #[trigger] vote_text_or_empty(all@[m]) == texts@[m]@,
                c == vote_count(all@, v, j as int),
                c <= j,
            decreases all.len() - j,
        {
            assert(vote_text_or_empty(all@[k as int]) == texts@[k as int]@);
            if Self::vote_string_some(&all[j]) && texts[j] == texts[k] {
                assert(vote_text_or_empty(all@[j as int]) == texts@[j as int]@);
                c = c + 1;
            } else {
                assert(vote_text_or_empty(all@[j as int]) == texts@[j as int]@);
            }
            j += 1;
        }
        c
    }
}

/// The vote text of a constraint, empty for one that casts none.
pub open spec fn vote_text_or_empty(c: OrderingConstraint) -> Seq<char> {
    match vote_of(c) {
        Some(t) => t,
        None => seq![],
    }
}

/// Constraints with the same abstract values cast the same votes.
proof fn lemma_same_votes(a: Seq<OrderingConstraint>, b: Seq<OrderingConstraint>)
    requires
        a.len() == b.len(),
        forall|k: int| 0 <= k < a.len() ==> cview(#[trigger] a[k]) == cview(b[k]),
    ensures
        forall|k: int| 0 <= k < a.len() ==> vote_of(#[trigger] a[k]) == vote_of(b[k]),
        forall|t: Seq<char>, n: int| 0 <= n <= a.len() ==> #[trigger] vote_count(a, t, n) == vote_count(b, t, n),
{
    assert forall|k: int| 0 <= k < a.len() implies vote_of(#[trigger] a[k]) == vote_of(b[k]) by {
        assert(cview(a[k]) == cview(b[k]));
        match (a[k], b[k]) {
            (OrderingConstraint::Before { capability_a: a1, capability_b: b1 }, OrderingConstraint::Before { capability_a: a2, capability_b: b2 }) => {
                assert(seq![a1@, b1@][0] == seq![a2@, b2@][0]);
                assert(seq![a1@, b1@][1] == seq![a2@, b2@][1]);
            },
            (OrderingConstraint::After { capability_a: a1, capability_b: b1 }, OrderingConstraint::After { capability_a: a2, capability_b: b2 }) => {
                assert(seq![a1@, b1@][0] == seq![a2@, b2@][0]);
                assert(seq![a1@, b1@][1] == seq![a2@, b2@][1]);
            },
            _ => {},
        }
    }
    assert forall|t: Seq<char>, n: int| 0 <= n <= a.len() implies #[trigger] vote_count(a, t, n) == vote_count(b, t, n) by {
        lemma_vote_count_same(a, b, t, n);
    }
}

proof fn lemma_vote_count_same(a: Seq<OrderingConstraint>, b: Seq<OrderingConstraint>, t: Seq<char>, n: int)
    requires
        a.len() == b.len(),
        0 <= n <= a.len(),
        forall|k: int| 0 <= k < a.len() ==> vote_of(#[trigger] a[k]) == vote_of(b[k]),
    ensures
        vote_count(a, t, n) == vote_count(b, t, n),
    decreases n,
{
    if n > 0 {
        lemma_vote_count_same(a, b, t, n - 1);
        assert(vote_of(a[n - 1]) == vote_of(b[n - 1]));
    }
}

/// The abstract value of a list of (capability, level) entries.
pub open spec fn entry_pairs(v: Seq<(String, u8)>) -> Seq<(Seq<char>, u8)> {
    v.map_values(|e: (String, u8)| (e.0@, e.1))
}

impl OrderingCoordinator {
    /// The temporal resolution, always found: the shards' keys in order.
    pub fn temporal_based_resolution(conflict: &OrderingConflict, shard_orders: &Vec<PartialOrderSpec>) -> (r: Option<String>)
        ensures
            r matches Some(t) && t@ == temporal_resolution_text(shard_orders@),
    {
        let mut keys: Vec<String> = Vec::new();
        let mut i: usize = 0;
        while i < shard_orders.len()
            invariant
                i <= shard_orders.len(),
                views(keys@) == shard_orders@.take(i as int).map_values(|o: PartialOrderSpec| base58(o.shard_id.bytes@)),
            decreases shard_orders.len() - i,
        {
            let k = pubkey_base58(&shard_orders[i].shard_id);
            let ghost prev = views(keys@);
            keys.push(k);
            assert(views(keys@) =~= prev.push(base58(shard_orders@[i as int].shard_id.bytes@)));
            assert(shard_orders@.take(i + 1).map_values(|o: PartialOrderSpec| base58(o.shard_id.bytes@))
                =~= shard_orders@.take(i as int).map_values(|o: PartialOrderSpec| base58(o.shard_id.bytes@)).push(base58(shard_orders@[i as int].shard_id.bytes@)));
            i += 1;
        }
        assert(shard_orders@.take(shard_orders.len() as int) =~= shard_orders@);
        let mut t = owned("Resolved using temporal ordering: ");
        let list = list_string(&keys);
        t.append(list.as_str());
        Some(t)
    }

    /// The priority resolution, found when some shard gives a priority: the
    /// capabilities given one, by highest level first (ties in order of
    /// first mention).
    pub fn priority_based_resolution(conflict: &OrderingConflict, shard_orders: &Vec<PartialOrderSpec>) -> (r: Option<String>)
        ensures
            r is Some <==> has_priorities(shard_orders@),
            r matches Some(t) ==> t@ == priority_resolution_text(orders_constraints(shard_orders@)),
    {
        let all = Self::all_constraints_of(shard_orders);
        let ghost cs = orders_constraints(shard_orders@);
        proof {
            assert(cviews(all@).len() == all@.len());
            assert(cviews(cs).len() == cs.len());
            lemma_same_entries(all@, cs, cs.len() as int);
        }
        let mut entries: Vec<(String, u8)> = Vec::new();
        let mut any = false;
        let mut k: usize = 0;
        while k < all.len()
            invariant
                k <= all.len(),
                all@.len() == cs.len(),
                forall|j: int| 0 <= j < all@.len() ==> cview(#[trigger] all@[j]) == cview(cs[j]),
                entry_pairs(entries@) == prio_entries(all@, k as int),
                any == exists|j: int| 0 <= j < k && (#[trigger] cs[j]) is Priority,
            decreases all.len() - k,
        {
            let ghost prev = entry_pairs(entries@);
            assert(cview(all@[k as int]) == cview(cs[k as int]));
            if let OrderingConstraint::Priority { capability, level } = &all[k] {
                any = true;
                let mut i: usize = 0;
                while i < entries.len() && entries[i].0 != *capability
                    invariant
                        i <= entries.len(),
                        prev == entry_pairs(entries@),
                        entry_index(prev, capability@, 0) == entry_index(prev, capability@, i as int),
                    decreases entries.len() - i,
                {
                    i += 1;
                }
                assert(entry_index(prev, capability@, i as int) == i);
                if i < entries.len() {
                    if *level > entries[i].1 {
                        entries.set(i, (capability.clone(), *level));
                        assert(entry_pairs(entries@) =~= prev.update(i as int, (capability@, *level)));
                    }
                } else {
                    entries.push((capability.clone(), *level));
                    assert(entry_pairs(entries@) =~= prev.push((capability@, *level)));
                }
            }
            k += 1;
        }
        if !any {
            return None;
        }
        let ghost e = entry_pairs(entries@);
        let mut keys: Vec<u8> = Vec::new();
        let mut i: usize = 0;
        while i < entries.len()
            invariant
                i <= entries.len(),
                e == entry_pairs(entries@),
                crate::scheduler::topological_scheduler::key_ints(keys@) == e.map_values(|p: (Seq<char>, u8)| p.1 as int).take(i as int),
            decreases entries.len() - i,
        {
            let ghost prev = keys@;
            keys.push(entries[i].1);
            assert(crate::scheduler::topological_scheduler::key_ints(keys@) =~= crate::scheduler::topological_scheduler::key_ints(prev).push(entries@[i as int].1 as int));
            assert(e.map_values(|p: (Seq<char>, u8)| p.1 as int).take(i + 1) =~= e.map_values(|p: (Seq<char>, u8)| p.1 as int).take(i as int).push(e[i as int].1 as int));
            i += 1;
        }
        assert(e.map_values(|p: (Seq<char>, u8)| p.1 as int).take(entries.len() as int) =~= e.map_values(|p: (Seq<char>, u8)| p.1 as int));
        let order = crate::scheduler::topological_scheduler::order_by_keys(&keys);
        let ghost oi = crate::scheduler::topological_scheduler::index_ints(order@);
        let mut names: Vec<String> = Vec::new();
        let mut j: usize = 0;
        while j < order.len()
            invariant
                j <= order.len(),
                keys.len() == entries.len(),
                e == entry_pairs(entries@),
                oi == crate::scheduler::topological_scheduler::index_ints(order@),
                forall|m: int| 0 <= m < order.len() ==> #[trigger] order@[m] < keys.len(),
                views(names@) == oi.take(j as int).map_values(|q: int| debug_text(e[q].0)),
            decreases order.len() - j,
        {
            let d = debug_quoted(&entries[order[j]].0);
            let ghost prev = views(names@);
            names.push(d);
            assert(views(names@) =~= prev.push(debug_text(e[oi[j as int]].0)));
            assert(oi.take(j + 1).map_values(|q: int| debug_text(e[q].0)) =~= oi.take(j as int).map_values(|q: int| debug_text(e[q].0)).push(debug_text(e[oi[j as int]].0)));
            j += 1;
        }
        assert(oi.take(order.len() as int) =~= oi);
        let mut t = owned("Resolved using priority ordering: ");
        let list = list_string(&names);
        t.append(list.as_str());
        Some(t)
    }

    /// The conflicts left after resolution: a contradiction stays when no
    /// shard orders any pair, a contention when no shard gives a priority; a
    /// cycle is always resolved.
    pub fn resolve_conflicts(conflicts: &Vec<OrderingConflict>, shard_orders: &Vec<PartialOrderSpec>) -> (r: Result<Vec<OrderingConflict>, ValenceError>)
        ensures
            r matches Ok(kept) && conflict_kinds(kept@) == conflict_kinds(conflicts@.filter(|c: OrderingConflict| stays_unresolved(c, shard_orders@))),
    {
        let ghost pred = |c: OrderingConflict| stays_unresolved(c, shard_orders@);
        let mut resolved: Vec<OrderingConflict> = Vec::new();
        let mut i: usize = 0;
        while i < conflicts.len()
            invariant
                i <= conflicts.len(),
                pred == (|c: OrderingConflict| stays_unresolved(c, shard_orders@)),
                conflict_kinds(resolved@) == conflict_kinds(conflicts@.take(i as int).filter(pred)),
            decreases conflicts.len() - i,
        {
            let c = &conflicts[i];
            let found = match c.conflict_type {
                ConflictType::ContradictoryOrdering => Self::consensus_based_resolution(c, shard_orders).is_some(),
                ConflictType::CyclicDependency => Self::temporal_based_resolution(c, shard_orders).is_some(),
                ConflictType::ResourceContention => Self::priority_based_resolution(c, shard_orders).is_some(),
            };
            let ghost prev = resolved@;
            proof {
                reveal(Seq::filter);
                assert(conflicts@.take(i + 1).drop_last() =~= conflicts@.take(i as int));
                assert(conflicts@.take(i + 1).last() == conflicts@[i as int]);
                assert(found == !pred(conflicts@[i as int]));
            }
            if !found {
                resolved.push(c.copy_conflict());
                assert(conflict_kinds(resolved@) =~= conflict_kinds(prev).push(conflicts@[i as int].conflict_type));
                assert(conflicts@.take(i + 1).filter(pred) == conflicts@.take(i as int).filter(pred).push(conflicts@[i as int]));
                assert(conflict_kinds(conflicts@.take(i + 1).filter(pred)) =~= conflict_kinds(conflicts@.take(i as int).filter(pred)).push(conflicts@[i as int].conflict_type));
            } else {
                assert(conflicts@.take(i + 1).filter(pred) == conflicts@.take(i as int).filter(pred));
            }
            i += 1;
        }
        assert(conflicts@.take(conflicts.len() as int) =~= conflicts@);
        Ok(resolved)
    }

    /// `Parallel` when no capability is mentioned by two shards, else `Sequential`.
    pub fn determine_coordination_strategy(shard_orders: &Vec<PartialOrderSpec>) -> (r: CoordinationStrategy)
        ensures
            r == if shares_capability(shard_orders@) { CoordinationStrategy::Sequential } else { CoordinationStrategy::Parallel },
    {
        let ghost o = shard_orders@;
        let mut all: Vec<String> = Vec::new();
        let mut shared = false;
        let mut i: usize = 0;
        while i < shard_orders.len()
            invariant
                i <= shard_orders.len(),
                o == shard_orders@,
                forall|x: Seq<char>| #[trigger] views(all@).contains(x) <==> exists|i1: int| 0 <= i1 < i && #[trigger] mentioned_in(o[i1].constraints@, x),
                shared == exists|i1: int, i2: int, x: Seq<char>| 0 <= i1 < i2 < i
                    && #[trigger] mentioned_in(o[i1].constraints@, x) && #[trigger] mentioned_in(o[i2].constraints@, x),
            decreases shard_orders.len() - i,
        {
            let caps = collect_capabilities(&shard_orders[i].constraints);
            let ghost before = views(all@);
            let ghost shared0 = shared;
            let mut k: usize = 0;
            while k < caps.len()
                invariant
                    k <= caps.len(),
                    i < shard_orders.len(),
                    o == shard_orders@,
                    views(caps@).no_duplicates(),
                    forall|x: Seq<char>| #[trigger] views(caps@).contains(x) <==> mentioned_in(o[i as int].constraints@, x),
                    forall|x: Seq<char>| #[trigger] before.contains(x) <==> exists|i1: int| 0 <= i1 < i && #[trigger] mentioned_in(o[i1].constraints@, x),
                    forall|x: Seq<char>| #[trigger] views(all@).contains(x) <==> (before.contains(x) || views(caps@).take(k as int).contains(x)),
                    shared == (shared0 || exists|m: int| 0 <= m < k && before.contains(#[trigger] views(caps@)[m])),
                decreases caps.len() - k,
            {
                let ghost c = views(caps@)[k as int];
                proof {
                    crate::text::lemma_take_succ_contains(views(caps@), k as int);
                    if views(caps@).take(k as int).contains(c) {
                        let m = choose|m: int| 0 <= m < k && views(caps@).take(k as int)[m] == c;
                        assert(views(caps@)[m] == views(caps@)[k as int]);
                    }
                }
                if contains_string(&all, &caps[k]) {
                    shared = true;
                }
                push_unique(&mut all, &caps[k]);
                k += 1;
            }
            proof {
                assert(views(caps@).take(caps.len() as int) =~= views(caps@));
                assert forall|x: Seq<char>| #[trigger] views(all@).contains(x) <==> exists|i1: int| 0 <= i1 < i + 1 && #[trigger] mentioned_in(o[i1].constraints@, x) by {
                    if views(all@).contains(x) && !before.contains(x) {
                        assert(mentioned_in(o[i as int].constraints@, x));
                    }
                    if exists|i1: int| 0 <= i1 < i + 1 && #[trigger] mentioned_in(o[i1].constraints@, x) {
                        let i1 = choose|i1: int| 0 <= i1 < i + 1 && #[trigger] mentioned_in(o[i1].constraints@, x);
                        if i1 == i {
                            assert(views(caps@).contains(x));
                        } else {
                            assert(before.contains(x));
                        }
                    }
                }
                let newly = exists|i1: int, i2: int, x: Seq<char>| 0 <= i1 < i2 < i + 1
                    && #[trigger] mentioned_in(o[i1].constraints@, x) && #[trigger] mentioned_in(o[i2].constraints@, x);
                if shared {
                    if !shared0 {
                        let m = choose|m: int| 0 <= m < caps.len() && before.contains(#[trigger] views(caps@)[m]);
                        let x = views(caps@)[m];
                        assert(views(caps@).contains(x));
                        let i1 = choose|i1: int| 0 <= i1 < i && #[trigger] mentioned_in(o[i1].constraints@, x);
                        assert(mentioned_in(o[i as int].constraints@, x));
                    }
                    assert(newly);
                } else {
                    assert(!newly) by {
                        if newly {
                            let (i1, i2, x) = choose|i1: int, i2: int, x: Seq<char>| 0 <= i1 < i2 < i + 1
                                && #[trigger] mentioned_in(o[i1].constraints@, x) && #[trigger] mentioned_in(o[i2].constraints@, x);
                            if i2 == i {
                                assert(before.contains(x));
                                assert(views(caps@).contains(x));
                                let m = choose|m: int| 0 <= m < views(caps@).len() && views(caps@)[m] == x;
                                assert(before.contains(views(caps@)[m]));
                            }
                        }
                    }
                }
            }
            i += 1;
        }
        if shared { CoordinationStrategy::Sequential } else { CoordinationStrategy::Parallel }
    }
}

/// Constraints with the same abstract values give the same priority entries.
proof fn lemma_same_entries(a: Seq<OrderingConstraint>, b: Seq<OrderingConstraint>, n: int)
    requires
        a.len() == b.len(),
        0 <= n <= a.len(),
        forall|k: int| 0 <= k < a.len() ==> cview(#[trigger] a[k]) == cview(b[k]),
    ensures
        prio_entries(a, n) == prio_entries(b, n),
        forall|k: int| 0 <= k < a.len() ==> ((#[trigger] a[k]) is Priority <==> b[k] is Priority),
    decreases n,
{
    if n > 0 {
        lemma_same_entries(a, b, n - 1);
        assert(cview(a[n - 1]) == cview(b[n - 1]));
        match (a[n - 1], b[n - 1]) {
            (OrderingConstraint::Priority { capability: c1, level: l1 }, OrderingConstraint::Priority { capability: c2, level: l2 }) => {
                assert(seq![c1@][0] == seq![c2@][0]);
            },
            _ => {},
        }
    }
    assert forall|k: int| 0 <= k < a.len() implies ((#[trigger] a[k]) is Priority <==> b[k] is Priority) by {
        assert(cview(a[k]) == cview(b[k]));
    }
}

/// Shards whose constraints are all allowed give no empty sequence.
proof fn lemma_valid_no_empty(orders: Seq<PartialOrderSpec>)
    requires
        all_valid(orders),
    ensures
        no_empty_sequence(orders_constraints(orders)),
    decreases orders.len(),
{
    if orders.len() > 0 {
        assert forall|i: int| 0 <= i < orders.drop_last().len() implies shard_order_valid(#[trigger] orders.drop_last()[i].constraints@) by {
            assert(orders.drop_last()[i] == orders[i]);
        }
        lemma_valid_no_empty(orders.drop_last());
        let pre = orders_constraints(orders.drop_last());
        let last = orders.last().constraints@;
        assert(shard_order_valid(orders[orders.len() - 1].constraints@));
        assert forall|k: int| 0 <= k < (pre + last).len() implies !((#[trigger] (pre + last)[k]) matches OrderingConstraint::Sequential { capabilities } && capabilities.len() == 0) by {
            if k < pre.len() {
                assert((pre + last)[k] == pre[k]);
            } else {
                assert((pre + last)[k] == last[k - pre.len()]);
                assert(!invalid_constraint(last[k - pre.len()]));
            }
        }
    }
}

/// A sequence none of whose elements satisfies `p` has no element left by the filter.
proof fn lemma_filter_none<A>(s: Seq<A>, p: spec_fn(A) -> bool)
    requires
        forall|k: int| 0 <= k < s.len() ==> !p(#[trigger] s[k]),
    ensures
        s.filter(p).len() == 0,
{
    if s.filter(p).len() > 0 {
        let x = s.filter(p)[0];
        assert(s.filter(p).contains(x));
        s.lemma_filter_contains_rev(p, x);
        let k = choose|k: int| 0 <= k < s.len() && s[k] == x;
        assert(!p(s[k]));
    }
}

impl OrderingCoordinator {
    /// Coordinates the shards: refuses with `InvalidOrderingConstraint` a
    /// shard with a constraint it may not give; otherwise finds the
    /// conflicts between the shards, resolves them, and plans: the number
    /// of shards and constraints, and whether the shards can run side by
    /// side.
    pub fn coordinate_shards(shard_orders: &Vec<PartialOrderSpec>) -> (r: Result<CoordinationResult, ValenceError>)
        requires
            constraint_total(shard_orders@) <= usize::MAX,
        ensures
            !all_valid(shard_orders@) ==> r == Err::<CoordinationResult, ValenceError>(ValenceError::InvalidOrderingConstraint),
            all_valid(shard_orders@) ==> (r matches Ok(res)
                && res.plan.shard_count == shard_orders@.len()
                && res.plan.total_constraints == constraint_total(shard_orders@)
                && res.plan.coordination_strategy == (if shares_capability(shard_orders@) { CoordinationStrategy::Sequential } else { CoordinationStrategy::Parallel })
                && res.conflicts@.len() == 0),
    {
        let mut i: usize = 0;
        let mut total: usize = 0;
        while i < shard_orders.len()
            invariant
                i <= shard_orders.len(),
                constraint_total(shard_orders@) <= usize::MAX,
                forall|j: int| 0 <= j < i ==> shard_order_valid(#[trigger] shard_orders@[j].constraints@),
                total == constraint_total(shard_orders@.take(i as int)),
            decreases shard_orders.len() - i,
        {
            match Self::validate_shard_order(&shard_orders[i]) {
                Ok(()) => {}
                Err(e) => {
                    return Err(e);
                }
            }
            proof {
                assert(shard_orders@.take(i + 1).drop_last() =~= shard_orders@.take(i as int));
                lemma_total_prefix(shard_orders@, i + 1);
            }
            total = total + shard_orders[i].constraints.len();
            i += 1;
        }
        assert(shard_orders@.take(shard_orders.len() as int) =~= shard_orders@);
        proof {
            lemma_valid_no_empty(shard_orders@);
        }
        let conflicts = Self::check_inter_shard_conflicts(shard_orders);
        let resolved = if conflicts.len() > 0 {
            match Self::resolve_conflicts(&conflicts, shard_orders) {
                Ok(v) => v,
                Err(e) => { return Err(e); }
            }
        } else {
            Vec::new()
        };
        proof {
            let o = shard_orders@;
            let pairs = contra_pairs(o, o.len() as int);
            let pred = |c: OrderingConflict| stays_unresolved(c, o);
            assert forall|k: int| 0 <= k < conflicts@.len() implies !pred(#[trigger] conflicts@[k]) by {
                if k < pairs.len() {
                    assert(reports_contradiction(conflicts@[k], o[pairs[k].0], o[pairs[k].1]));
                    lemma_pair_in_range(o, o.len() as int, k);
                    lemma_contradiction_votes(o, pairs[k].0);
                } else {
                    assert(reports_cycle(conflicts@.last()));
                    assert(conflicts@[k] == conflicts@.last());
                }
            }
            lemma_filter_none(conflicts@, pred);
            assert(conflict_kinds(resolved@).len() == resolved@.len());
        }
        let strategy = Self::determine_coordination_strategy(shard_orders);
        Ok(CoordinationResult {
            plan: CoordinationPlan { shard_count: shard_orders.len(), total_constraints: total, coordination_strategy: strategy },
            conflicts: resolved,
        })
    }

    /// Whether the context keeps a constraint.
    pub fn should_apply_constraint(constraint: &OrderingConstraint, context: &ExecutionContext) -> (r: bool)
        ensures
            r == keeps_constraint(*constraint, context.resource_availability),
            (constraint matches OrderingConstraint::Priority { level, .. } && level >= 7) ==> r,
    {
        match constraint {
            OrderingConstraint::Priority { level, .. } => *level >= 7 || context.resource_availability > 50,
            OrderingConstraint::Sequential { capabilities } => context.resource_availability < 30 || capabilities.len() > 5,
            _ => true,
        }
    }

    /// The constraints the context adds for a constraint: a concurrent group
    /// becomes a sequence when under 20% of resources are available.
    pub fn generate_contextual_constraints(constraint: &OrderingConstraint, context: &ExecutionContext) -> (r: Option<Vec<OrderingConstraint>>)
        ensures
            r is Some <==> extra_constraints(*constraint, context.resource_availability).len() > 0,
            r matches Some(v) ==> cviews(v@) == extra_constraints(*constraint, context.resource_availability),
    {
        match constraint {
            OrderingConstraint::Concurrent { capabilities } => {
                if context.resource_availability < 20 {
                    let mut v: Vec<OrderingConstraint> = Vec::new();
                    v.push(OrderingConstraint::Sequential { capabilities: copy_strings(capabilities) });
                    assert(cviews(v@) =~= seq![(3int, views(capabilities@), 0u8)]);
                    Some(v)
                } else {
                    None
                }
            }
            _ => None,
        }
    }

    /// The constraints of one shard with the context applied.
    fn conditioned_constraints(cs: &Vec<OrderingConstraint>, context: &ExecutionContext) -> (r: Vec<OrderingConstraint>)
        ensures
            cviews(r@) == conditioned(cs@, context.resource_availability, cs@.len() as int),
    {
        let ghost a = context.resource_availability;
        let mut out: Vec<OrderingConstraint> = Vec::new();
        let mut k: usize = 0;
        while k < cs.len()
            invariant
                k <= cs.len(),
                a == context.resource_availability,
                cviews(out@) == conditioned(cs@, a, k as int),
            decreases cs.len() - k,
        {
            let ghost prev = cviews(out@);
            if Self::should_apply_constraint(&cs[k], context) {
                out.push(cs[k].clone_constraint());
                assert(cviews(out@) =~= prev.push(cview(cs@[k as int])));
            }
            let ghost mid = cviews(out@);
            match Self::generate_contextual_constraints(&cs[k], context) {
                Some(mut more) => {
                    let ghost m = cviews(more@);
                    out.append(&mut more);
                    assert(cviews(out@) =~= mid + m);
                }
                None => {
                    assert(extra_constraints(cs@[k as int], a) =~= Seq::<CView>::empty());
                }
            }
            assert(cviews(out@) =~= conditioned(cs@, a, k + 1));
            k += 1;
        }
        out
    }

    /// Applies the context to every shard's constraints: keeps those the
    /// context keeps and adds those it generates.
    pub fn apply_conditional_constraints(shard_orders: &mut Vec<PartialOrderSpec>, execution_context: &ExecutionContext) -> (r: Result<(), ValenceError>)
        ensures
            r is Ok,
            final(shard_orders)@.len() == old(shard_orders)@.len(),
            forall|i: int| 0 <= i < old(shard_orders)@.len() ==> (#[trigger] final(shard_orders)@[i]).shard_id == old(shard_orders)@[i].shard_id
                && cviews(final(shard_orders)@[i].constraints@) == conditioned(old(shard_orders)@[i].constraints@,
                    execution_context.resource_availability, old(shard_orders)@[i].constraints@.len() as int),
            forall|i: int, k: int| 0 <= i < old(shard_orders)@.len() && 0 <= k < old(shard_orders)@[i].constraints@.len()
                && (#[trigger] old(shard_orders)@[i].constraints@[k] matches OrderingConstraint::Priority { level, .. } && level >= 7)
                ==> cviews(final(shard_orders)@[i].constraints@).contains(cview(old(shard_orders)@[i].constraints@[k])),
    {
        let ghost o = shard_orders@;
        let mut i: usize = 0;
        while i < shard_orders.len()
            invariant
                i <= shard_orders.len(),
                shard_orders@.len() == o.len(),
                o == old(shard_orders)@,
                forall|j: int| i <= j < o.len() ==> #[trigger] shard_orders@[j] == o[j],
                forall|j: int| 0 <= j < i ==> (#[trigger] shard_orders@[j]).shard_id == o[j].shard_id
                    && cviews(shard_orders@[j].constraints@) == conditioned(o[j].constraints@, execution_context.resource_availability, o[j].constraints@.len() as int),
            decreases shard_orders.len() - i,
        {
            let fresh = Self::conditioned_constraints(&shard_orders[i].constraints, execution_context);
            let ghost before = shard_orders@;
            shard_orders[i].constraints = fresh;
            proof {
                assert forall|j: int| 0 <= j < i + 1 implies (#[trigger] shard_orders@[j]).shard_id == o[j].shard_id
                    && cviews(shard_orders@[j].constraints@) == conditioned(o[j].constraints@, execution_context.resource_availability, o[j].constraints@.len() as int) by {
                    if j < i {
                        assert(shard_orders@[j] == before[j]);
                    }
                }
                assert forall|j: int| i + 1 <= j < o.len() implies #[trigger] shard_orders@[j] == o[j] by {
                    assert(shard_orders@[j] == before[j]);
                }
            }
            i += 1;
        }
        proof {
            assert forall|i: int, k: int| 0 <= i < o.len() && 0 <= k < o[i].constraints@.len()
                && (#[trigger] o[i].constraints@[k] matches OrderingConstraint::Priority { level, .. } && level >= 7)
                implies cviews(shard_orders@[i].constraints@).contains(cview(o[i].constraints@[k])) by {
                lemma_high_priority_always_kept(o[i].constraints@, execution_context.resource_availability, k, o[i].constraints@.len() as int);
            }
        }
        Ok(())
    }

    /// The adjustment of a priority level: 2 down for a compute capability
    /// when the CPU is over 80% busy, 2 down for a memory capability when
    /// memory is over 80% used, 3 up for an urgent or realtime one, bounded
    /// so that the level stays within 0..=10.
    pub fn calculate_priority_adjustment(capability: &String, current_priority: u8, metrics: &ResourceMetrics) -> (r: i8)
        requires
            adjustment_fits(capability@, current_priority, *metrics),
        ensures
            r == bounded_adjustment(capability@, current_priority, *metrics),
    {

        let mut adjustment: i8 = 0;
        if metrics.cpu_usage > 80 && contains_text(capability, "compute") {
            adjustment = adjustment - 2;
        }
        if metrics.memory_usage > 80 && contains_text(capability, "memory") {
            adjustment = adjustment - 2;
        }
        if contains_text(capability, "urgent") || contains_text(capability, "realtime") {
            adjustment = adjustment + 3;
        }
        let cur: i8 = if current_priority < 128 { current_priority as i8 } else { ((current_priority as i16) - 256) as i8 };
        if cur + adjustment > 10 {
            adjustment = 10 - cur;
        } else if cur + adjustment < 0 {
            adjustment = -cur;
        }
        adjustment
    }

    /// The constraints of one shard with every priority adjusted.
    fn adjusted_constraints(cs: &Vec<OrderingConstraint>, metrics: &ResourceMetrics) -> (r: Vec<OrderingConstraint>)
        requires
            adjustments_fit(cs@, *metrics),
        ensures
            cviews(r@) == adjusted(cs@, *metrics),
    {
        let mut out: Vec<OrderingConstraint> = Vec::new();
        let mut k: usize = 0;
        while k < cs.len()
            invariant
                k <= cs.len(),
                adjustments_fit(cs@, *metrics),
                cviews(out@) == adjusted(cs@, *metrics).take(k as int),
            decreases cs.len() - k,
        {
            let ghost prev = cviews(out@);
            match &cs[k] {
                OrderingConstraint::Priority { capability, level } => {
                    assert(adjustment_fits(capability@, *level, *metrics));
                    let adj = Self::calculate_priority_adjustment(capability, *level, metrics);
                    let cur: i8 = if *level < 128 { *level as i8 } else { ((*level as i16) - 256) as i8 };
                    let sum: i8 = cur + adj;
                    let bounded: i8 = if sum < 0 { 0 } else if sum > 10 { 10 } else { sum };
                    out.push(OrderingConstraint::Priority { capability: capability.clone(), level: bounded as u8 });
                    assert(cviews(out@) =~= prev.push((4int, seq![capability@], adjusted_level(capability@, *level, *metrics))));
                }
                _ => {
                    out.push(cs[k].clone_constraint());
                    assert(cviews(out@) =~= prev.push(cview(cs@[k as int])));
                }
            }
            assert(adjusted(cs@, *metrics).take(k + 1) =~= adjusted(cs@, *metrics).take(k as int).push(adjusted(cs@, *metrics)[k as int]));
            k += 1;
        }
        assert(adjusted(cs@, *metrics).take(cs.len() as int) =~= adjusted(cs@, *metrics));
        out
    }

    /// Adjusts every priority of every shard to the resource metrics.
    pub fn adjust_priorities_dynamically(shard_orders: &mut Vec<PartialOrderSpec>, resource_metrics: &ResourceMetrics) -> (r: Result<(), ValenceError>)
        requires
            forall|i: int| 0 <= i < old(shard_orders)@.len() ==> adjustments_fit(#[trigger] old(shard_orders)@[i].constraints@, *resource_metrics),
        ensures
            r is Ok,
            final(shard_orders)@.len() == old(shard_orders)@.len(),
            forall|i: int| 0 <= i < old(shard_orders)@.len() ==> (#[trigger] final(shard_orders)@[i]).shard_id == old(shard_orders)@[i].shard_id
                && cviews(final(shard_orders)@[i].constraints@) == adjusted(old(shard_orders)@[i].constraints@, *resource_metrics),
    {
        let ghost o = shard_orders@;
        let mut i: usize = 0;
        while i < shard_orders.len()
            invariant
                i <= shard_orders.len(),
                shard_orders@.len() == o.len(),
                o == old(shard_orders)@,
                forall|j: int| 0 <= j < o.len() ==> adjustments_fit(#[trigger] o[j].constraints@, *resource_metrics),
                forall|j: int| i <= j < o.len() ==> #[trigger] shard_orders@[j] == o[j],
                forall|j: int| 0 <= j < i ==> (#[trigger] shard_orders@[j]).shard_id == o[j].shard_id
                    && cviews(shard_orders@[j].constraints@) == adjusted(o[j].constraints@, *resource_metrics),
            decreases shard_orders.len() - i,
        {
            assert(shard_orders@[i as int] == o[i as int]);
            let fresh = Self::adjusted_constraints(&shard_orders[i].constraints, resource_metrics);
            let ghost before = shard_orders@;
            shard_orders[i].constraints = fresh;
            proof {
                assert forall|j: int| 0 <= j < i + 1 implies (#[trigger] shard_orders@[j]).shard_id == o[j].shard_id
                    && cviews(shard_orders@[j].constraints@) == adjusted(o[j].constraints@, *resource_metrics) by {
                    if j < i {
                        assert(shard_orders@[j] == before[j]);
                    }
                }
                assert forall|j: int| i + 1 <= j < o.len() implies #[trigger] shard_orders@[j] == o[j] by {
                    assert(shard_orders@[j] == before[j]);
                }
            }
            i += 1;
        }
        Ok(())
    }

    /// Caches the constraints of a shard, replacing what was cached for it.
    pub fn cache_constraints(shard_id: &Pubkey, constraints: &Vec<OrderingConstraint>, cache: &mut ConstraintCache)
        ensures
            cached_for(final(cache)@, shard_id.bytes@) == Some(cviews(constraints@)),
            forall|k: Seq<u8>| k != shard_id.bytes@ ==> #[trigger] cached_for(final(cache)@, k) == cached_for(old(cache)@, k),
    {
        let mut copy: Vec<OrderingConstraint> = Vec::new();
        let mut k: usize = 0;
        while k < constraints.len()
            invariant
                k <= constraints.len(),
                cviews(copy@) == cviews(constraints@).take(k as int),
            decreases constraints.len() - k,
        {
            let ghost prev = cviews(copy@);
            copy.push(constraints[k].clone_constraint());
            assert(cviews(copy@) =~= prev.push(cview(constraints@[k as int])));
            assert(cviews(constraints@).take(k + 1) =~= cviews(constraints@).take(k as int).push(cview(constraints@[k as int])));
            k += 1;
        }
        assert(cviews(constraints@).take(constraints.len() as int) =~= cviews(constraints@));
        let mut i: usize = 0;
        while i < cache.len()
            invariant
                i <= cache.len(),
                *cache == *old(cache),
                cviews(copy@) == cviews(constraints@),
                forall|j: int| 0 <= j < i ==> (#[trigger] cache@[j]).0.bytes@ != shard_id.bytes@,
            decreases cache.len() - i,
        {
            if cache[i].0 == *shard_id {
                let ghost before = cache@;
                let entry = (*shard_id, copy);
                cache.set(i, entry);
                proof {
                    lemma_cached_set(before, i as int, cache@, shard_id.bytes@);
                }
                return;
            }
            i += 1;
        }
        let ghost before = cache@;
        cache.push((*shard_id, copy));
        proof {
            lemma_cached_push(before, cache@, shard_id.bytes@);
        }
    }

    /// The cached constraints of a shard.
    pub fn get_cached_constraints(shard_id: &Pubkey, cache: &ConstraintCache) -> (r: Option<Vec<OrderingConstraint>>)
        ensures
            r is Some <==> cached_for(cache@, shard_id.bytes@) is Some,
            r matches Some(v) ==> cached_for(cache@, shard_id.bytes@) == Some(cviews(v@)),
    {
        let mut i: usize = 0;
        while i < cache.len()
            invariant
                i <= cache.len(),
                cached_for(cache@, shard_id.bytes@) == cached_for(cache@.skip(i as int), shard_id.bytes@),
            decreases cache.len() - i,
        {
            assert(cache@.skip(i as int)[0] == cache@[i as int]);
            if cache[i].0 == *shard_id {
                let src = &cache[i].1;
                let mut copy: Vec<OrderingConstraint> = Vec::new();
                let mut k: usize = 0;
                while k < src.len()
                    invariant
                        k <= src.len(),
                        cviews(copy@) == cviews(src@).take(k as int),
                    decreases src.len() - k,
                {
                    let ghost prev = cviews(copy@);
                    copy.push(src[k].clone_constraint());
                    assert(cviews(copy@) =~= prev.push(cview(src@[k as int])));
                    assert(cviews(src@).take(k + 1) =~= cviews(src@).take(k as int).push(cview(src@[k as int])));
                    k += 1;
                }
                assert(cviews(src@).take(src.len() as int) =~= cviews(src@));
                return Some(copy);
            }
            assert(cache@.skip(i as int).drop_first() =~= cache@.skip(i + 1));
            i += 1;
        }
        assert(cache@.skip(i as int).len() == 0);
        None
    }
}

/// The total of a prefix is at most the whole.
proof fn lemma_total_prefix(orders: Seq<PartialOrderSpec>, k: int)
    requires
        0 <= k <= orders.len(),
    ensures
        constraint_total(orders.take(k)) <= constraint_total(orders),
    decreases orders.len() - k,
{
    if k < orders.len() {
        lemma_total_prefix(orders, k + 1);
        assert(orders.take(k + 1).drop_last() =~= orders.take(k));
    } else {
        assert(orders.take(k) =~= orders);
    }
}

/// The pairs lie within the shards, the first below `n`.
proof fn lemma_pair_in_range(orders: Seq<PartialOrderSpec>, n: int, k: int)
    requires
        0 <= n <= orders.len(),
        0 <= k < contra_pairs(orders, n).len(),
    ensures
        0 <= contra_pairs(orders, n)[k].0 < contra_pairs(orders, n)[k].1 < orders.len(),
        contra_pairs(orders, n)[k].0 < n,
    decreases n,
{
    let prev = contra_pairs(orders, n - 1);
    if k < prev.len() {
        lemma_pair_in_range(orders, n - 1, k);
        assert(contra_pairs(orders, n)[k] == prev[k]);
    } else {
        lemma_row_in_range(orders, n - 1, orders.len() as int, k - prev.len());
        assert(contra_pairs(orders, n)[k] == contra_row(orders, n - 1, orders.len() as int)[k - prev.len()]);
    }
}

/// The pairs of a row start at `i` and end below `m`.
proof fn lemma_row_in_range(orders: Seq<PartialOrderSpec>, i: int, m: int, k: int)
    requires
        0 <= i,
        m <= orders.len(),
        0 <= k < contra_row(orders, i, m).len(),
    ensures
        contra_row(orders, i, m)[k].0 == i,
        i < contra_row(orders, i, m)[k].1 < m,
    decreases m - i,
{
    let prev = contra_row(orders, i, m - 1);
    if k < prev.len() {
        lemma_row_in_range(orders, i, m - 1, k);
        assert(contra_row(orders, i, m)[k] == prev[k]);
    }
}

/// Replacing the first entry for `id` caches the new constraints for `id`
/// and leaves the other shards' entries.
proof fn lemma_cached_set(before: Seq<(Pubkey, Vec<OrderingConstraint>)>, i: int, after: Seq<(Pubkey, Vec<OrderingConstraint>)>, id: Seq<u8>)
    requires
        0 <= i < before.len(),
        after.len() == before.len(),
        forall|j: int| 0 <= j < i ==> (#[trigger] before[j]).0.bytes@ != id,
        before[i].0.bytes@ == id,
        after[i].0.bytes@ == id,
        forall|j: int| 0 <= j < before.len() && j != i ==> #[trigger] after[j] == before[j],
    ensures
        cached_for(after, id) == Some(cviews(after[i].1@)),
        forall|k: Seq<u8>| k != id ==> #[trigger] cached_for(after, k) == cached_for(before, k),
    decreases i,
{
    if i > 0 {
        assert forall|j: int| 0 <= j < i - 1 implies (#[trigger] before.drop_first()[j]).0.bytes@ != id by {
            assert(before.drop_first()[j] == before[j + 1]);
        }
        assert forall|j: int| 0 <= j < before.drop_first().len() && j != i - 1 implies #[trigger] after.drop_first()[j] == before.drop_first()[j] by {
            assert(after.drop_first()[j] == after[j + 1]);
        }
        lemma_cached_set(before.drop_first(), i - 1, after.drop_first(), id);
        assert(after[0] == before[0]);
        assert forall|k: Seq<u8>| k != id implies #[trigger] cached_for(after, k) == cached_for(before, k) by {
            if after[0].0.bytes@ != k {
                assert(cached_for(after, k) == cached_for(after.drop_first(), k));
                assert(cached_for(before, k) == cached_for(before.drop_first(), k));
            }
        }
    } else {
        assert forall|j: int| 0 <= j < after.drop_first().len() implies after.drop_first()[j] == before.drop_first()[j] by {
            assert(after[j + 1] == before[j + 1]);
        }
        assert(after.drop_first() =~= before.drop_first());
        assert forall|k: Seq<u8>| k != id implies #[trigger] cached_for(after, k) == cached_for(before, k) by {
            assert(cached_for(after, k) == cached_for(after.drop_first(), k));
            assert(cached_for(before, k) == cached_for(before.drop_first(), k));
        }
    }
}

/// Adding an entry for a shard not cached yet caches it and leaves the others.
proof fn lemma_cached_push(before: Seq<(Pubkey, Vec<OrderingConstraint>)>, after: Seq<(Pubkey, Vec<OrderingConstraint>)>, id: Seq<u8>)
    requires
        after.len() == before.len() + 1,
        forall|j: int| 0 <= j < before.len() ==> (#[trigger] before[j]).0.bytes@ != id && after[j] == before[j],
        after.last().0.bytes@ == id,
    ensures
        cached_for(after, id) == Some(cviews(after.last().1@)),
        forall|k: Seq<u8>| k != id ==> #[trigger] cached_for(after, k) == cached_for(before, k),
    decreases before.len(),
{
    if before.len() > 0 {
        assert forall|j: int| 0 <= j < before.drop_first().len() implies (#[trigger] before.drop_first()[j]).0.bytes@ != id
            && after.drop_first()[j] == before.drop_first()[j] by {
            assert(before.drop_first()[j] == before[j + 1]);
            assert(after.drop_first()[j] == after[j + 1]);
        }
        lemma_cached_push(before.drop_first(), after.drop_first(), id);
        assert(after[0] == before[0]);
        assert forall|k: Seq<u8>| k != id implies #[trigger] cached_for(after, k) == cached_for(before, k) by {
            if after[0].0.bytes@ != k {
                assert(cached_for(after, k) == cached_for(after.drop_first(), k));
                assert(cached_for(before, k) == cached_for(before.drop_first(), k));
            }
        }
    } else {
        assert forall|k: Seq<u8>| k != id implies #[trigger] cached_for(after, k) == cached_for(before, k) by {
            assert(after.drop_first().len() == 0);
        }
    }
}

/// The items separated by ` -> `.
pub open spec fn arrowed(items: Seq<Seq<char>>) -> Seq<char>
    decreases items.len(),
{
    if items.len() == 0 {
        seq![]
    } else if items.len() == 1 {
        items[0]
    } else {
        arrowed(items.drop_last()) + " -> "@ + items.last()
    }
}

/// The line of a constraint in a visualization.
pub open spec fn constraint_text(c: OrderingConstraint) -> Seq<char> {
    match c {
        OrderingConstraint::Before { capability_a, capability_b } => "  "@ + capability_a@ + " -> "@ + capability_b@ + "\n"@,
        OrderingConstraint::After { capability_a, capability_b } => "  "@ + capability_a@ + " <- "@ + capability_b@ + "\n"@,
        OrderingConstraint::Sequential { capabilities } => "  Sequential: "@ + arrowed(views(capabilities@)) + "\n"@,
        OrderingConstraint::Concurrent { capabilities } => "  Concurrent: ["@ + joined(views(capabilities@)) + "]\n"@,
        OrderingConstraint::Priority { capability, level } => "  "@ + capability@ + " (priority: "@ + decimal(level as nat) + ")\n"@,
    }
}

/// The lines of the constraints.
pub open spec fn constraints_text(cs: Seq<OrderingConstraint>) -> Seq<char>
    decreases cs.len(),
{
    if cs.len() == 0 {
        seq![]
    } else {
        constraints_text(cs.drop_last()) + constraint_text(cs.last())
    }
}

/// The section of the shard at index `idx` in a visualization.
pub open spec fn shard_text(idx: nat, o: PartialOrderSpec) -> Seq<char> {
    "\nShard "@ + decimal(idx) + " ("@ + base58(o.shard_id.bytes@) + "):\n"@ + constraints_text(o.constraints@)
}

/// The sections of the shards.
pub open spec fn shards_text(orders: Seq<PartialOrderSpec>) -> Seq<char>
    decreases orders.len(),
{
    if orders.len() == 0 {
        seq![]
    } else {
        shards_text(orders.drop_last()) + shard_text((orders.len() - 1) as nat, orders.last())
    }
}

/// The text of a visualization of the shards' constraints.
pub open spec fn visualization_text(orders: Seq<PartialOrderSpec>) -> Seq<char> {
    "=== Ordering Constraints Visualization ===\n"@ + shards_text(orders)
}

/// Appends the items separated by `sep`.
fn push_separated(out: &mut String, items: &Vec<String>, sep: &str)
    ensures
        sep@ == " -> "@ ==> final(out)@ == old(out)@ + arrowed(views(items@)),
        sep@ == ", "@ ==> final(out)@ == old(out)@ + joined(views(items@)),
{
    let ghost v = views(items@);
    let ghost start = out@;
    let mut i: usize = 0;
    while i < items.len()
        invariant
            i <= items.len(),
            v == views(items@),
            sep@ == " -> "@ ==> out@ == start + arrowed(v.take(i as int)),
            sep@ == ", "@ ==> out@ == start + joined(v.take(i as int)),
        decreases items.len() - i,
    {
        proof {
            assert(v.take(i + 1).drop_last() =~= v.take(i as int));
            assert(v.take(i + 1).last() == items@[i as int]@);
        }
        if i > 0 {
            out.append(sep);
        } else {
            assert(arrowed(v.take(0)) =~= Seq::<char>::empty());
            assert(joined(v.take(0)) =~= Seq::<char>::empty());
            assert(arrowed(v.take(1)) == v.take(1)[0]);
            assert(joined(v.take(1)) == v.take(1)[0]);
        }
        out.append(items[i].as_str());
        i += 1;
    }
    assert(v.take(items.len() as int) =~= v);
}

impl OrderingCoordinator {
    /// A text showing each shard's constraints, one line each.
    pub fn visualize_constraints(shard_orders: &Vec<PartialOrderSpec>) -> (r: String)
        ensures
            r@ == visualization_text(shard_orders@),
    {
        let mut out = owned("=== Ordering Constraints Visualization ===\n");
        let mut idx: usize = 0;
        while idx < shard_orders.len()
            invariant
                idx <= shard_orders.len(),
                out@ == "=== Ordering Constraints Visualization ===\n"@ + shards_text(shard_orders@.take(idx as int)),
            decreases shard_orders.len() - idx,
        {
            let order = &shard_orders[idx];
            let ghost before = out@;
            out.append("\nShard ");
            push_decimal(&mut out, idx as u64);
            out.append(" (");
            let key = pubkey_base58(&order.shard_id);
            out.append(key.as_str());
            out.append("):\n");
            let ghost head = out@;
            let mut k: usize = 0;
            while k < order.constraints.len()
                invariant
                    k <= order.constraints.len(),
                    out@ == head + constraints_text(order.constraints@.take(k as int)),
                decreases order.constraints.len() - k,
            {
                proof {
                    assert(order.constraints@.take(k + 1).drop_last() =~= order.constraints@.take(k as int));
                    assert(order.constraints@.take(k + 1).last() == order.constraints@[k as int]);
                }
                let ghost mid = out@;
                match &order.constraints[k] {
                    OrderingConstraint::Before { capability_a, capability_b } => {
                        out.append("  ");
                        out.append(capability_a.as_str());
                        out.append(" -> ");
                        out.append(capability_b.as_str());
                        out.append("\n");
                    }
                    OrderingConstraint::After { capability_a, capability_b } => {
                        out.append("  ");
                        out.append(capability_a.as_str());
                        out.append(" <- ");
                        out.append(capability_b.as_str());
                        out.append("\n");
                    }
                    OrderingConstraint::Sequential { capabilities } => {
                        out.append("  Sequential: ");
                        push_separated(&mut out, capabilities, " -> ");
                        out.append("\n");
                    }
                    OrderingConstraint::Concurrent { capabilities } => {
                        out.append("  Concurrent: [");
                        push_separated(&mut out, capabilities, ", ");
                        out.append("]\n");
                    }
                    OrderingConstraint::Priority { capability, level } => {
                        out.append("  ");
                        out.append(capability.as_str());
                        out.append(" (priority: ");
                        push_decimal(&mut out, *level as u64);
                        out.append(")\n");
                    }
                }
                assert(out@ =~= mid + constraint_text(order.constraints@[k as int]));
                k += 1;
            }
            assert(order.constraints@.take(order.constraints@.len() as int) =~= order.constraints@);
            proof {
                assert(shard_orders@.take(idx + 1).drop_last() =~= shard_orders@.take(idx as int));
                assert(shard_orders@.take(idx + 1).last() == shard_orders@[idx as int]);
                assert(out@ =~= before + shard_text(idx as nat, shard_orders@[idx as int]));
            }
            idx += 1;
        }
        assert(shard_orders@.take(shard_orders@.len() as int) =~= shard_orders@);
        out
    }
}

} // verus!
