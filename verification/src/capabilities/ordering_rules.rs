//! Ordering constraints between capabilities and the per-shard partial order.

use vstd::prelude::*;
use crate::error::ValenceError;
use crate::pubkey::Pubkey;
use crate::runtime::clock_unix_timestamp;
use crate::text::{views, owned, contains_string, push_unique, lemma_take_succ_contains};
use crate::scheduler::dependency_graph::{DependencyGraph, depends_on, has_cycle, self_blocking, has_dependency_in, EdgesView};

verus! {

/// An ordering constraint between capabilities.
#[derive(Clone, Debug)]
pub enum OrderingConstraint {
    /// `capability_a` must execute before `capability_b`.
    Before { capability_a: String, capability_b: String },
    /// `capability_a` must execute after `capability_b`.
    After { capability_a: String, capability_b: String },
    /// The capabilities may execute concurrently.
    Concurrent { capabilities: Vec<String> },
    /// The capabilities must execute in the given order.
    Sequential { capabilities: Vec<String> },
    /// The capability has the given priority level.
    Priority { capability: String, level: u8 },
}

/// Some capability of `seq` also occurs in `conc`.
pub open spec fn overlaps(seq: Seq<Seq<char>>, conc: Seq<Seq<char>>) -> bool {
    exists|x: Seq<char>| #[trigger] seq.contains(x) && conc.contains(x)
}

/// Two constraints contradict each other.
pub open spec fn spec_constraints_conflict(c1: OrderingConstraint, c2: OrderingConstraint) -> bool {
    match (c1, c2) {
        (OrderingConstraint::Before { capability_a: a1, capability_b: b1 }, OrderingConstraint::Before { capability_a: a2, capability_b: b2 }) =>
            a1@ == b2@ && b1@ == a2@,
        (OrderingConstraint::Before { capability_a: a1, capability_b: b1 }, OrderingConstraint::After { capability_a: a2, capability_b: b2 }) =>
            a1@ == a2@ && b1@ == b2@,
        (OrderingConstraint::After { capability_a: a1, capability_b: b1 }, OrderingConstraint::Before { capability_a: a2, capability_b: b2 }) =>
            a1@ == a2@ && b1@ == b2@,
        (OrderingConstraint::Sequential { capabilities: seq }, OrderingConstraint::Concurrent { capabilities: conc }) =>
            overlaps(views(seq@), views(conc@)) && seq.len() > 1,
        (OrderingConstraint::Concurrent { capabilities: conc }, OrderingConstraint::Sequential { capabilities: seq }) =>
            overlaps(views(seq@), views(conc@)) && seq.len() > 1,
        _ => false,
    }
}

/// The capabilities a constraint mentions, in order.
pub open spec fn mentioned(c: OrderingConstraint) -> Seq<Seq<char>> {
    match c {
        OrderingConstraint::Before { capability_a, capability_b } => seq![capability_a@, capability_b@],
        OrderingConstraint::After { capability_a, capability_b } => seq![capability_a@, capability_b@],
        OrderingConstraint::Concurrent { capabilities } => views(capabilities@),
        OrderingConstraint::Sequential { capabilities } => views(capabilities@),
        OrderingConstraint::Priority { capability, level } => seq![capability@],
    }
}

/// `x` is mentioned by one of the constraints.
pub open spec fn mentioned_in(cs: Seq<OrderingConstraint>, x: Seq<char>) -> bool {
    exists|k: int| 0 <= k < cs.len() && #[trigger] mentioned(cs[k]).contains(x)
}

/// The constraint `c` makes `x` wait for `y`.
pub open spec fn constraint_edge(c: OrderingConstraint, x: Seq<char>, y: Seq<char>) -> bool {
    match c {
        OrderingConstraint::Before { capability_a, capability_b } => x == capability_b@ && y == capability_a@,
        OrderingConstraint::After { capability_a, capability_b } => x == capability_a@ && y == capability_b@,
        OrderingConstraint::Sequential { capabilities } =>
            exists|i: int| 1 <= i < capabilities.len() && x == capabilities@[i]@ && #[trigger] capabilities@[i - 1]@ == y,
        _ => false,
    }
}

/// Some constraint of `cs` makes `x` wait for `y`.
pub open spec fn constrained_after(cs: Seq<OrderingConstraint>, x: Seq<char>, y: Seq<char>) -> bool {
    exists|k: int| 0 <= k < cs.len() && #[trigger] constraint_edge(cs[k], x, y)
}

/// The constraints make some nonempty group of capabilities wait on itself.
pub open spec fn constraints_cyclic(cs: Seq<OrderingConstraint>) -> bool {
    exists|s: Seq<Seq<char>>| #[trigger] blocking_under(cs, s)
}

/// Every member of the nonempty group `s` waits for a member of `s` under `cs`.
pub open spec fn blocking_under(cs: Seq<OrderingConstraint>, s: Seq<Seq<char>>) -> bool {
    &&& s.len() > 0
    &&& forall|x: Seq<char>| #[trigger] s.contains(x) ==> exists|y: Seq<char>| s.contains(y) && #[trigger] constrained_after(cs, x, y)
}

/// `v` holds the same string twice.
pub open spec fn has_duplicate(v: Seq<String>) -> bool {
    !views(v).no_duplicates()
}

/// The errors the shape of a constraint alone gives, in order.
pub open spec fn shape_errors(c: OrderingConstraint) -> Seq<Seq<char>> {
    match c {
        OrderingConstraint::Before { capability_a, capability_b } =>
            (if capability_a@.len() == 0 || capability_b@.len() == 0 { seq!["Capability names cannot be empty"@] } else { seq![] })
            + (if capability_a@ == capability_b@ { seq!["Capability cannot have ordering constraint with itself"@] } else { seq![] }),
        OrderingConstraint::After { capability_a, capability_b } =>
            (if capability_a@.len() == 0 || capability_b@.len() == 0 { seq!["Capability names cannot be empty"@] } else { seq![] })
            + (if capability_a@ == capability_b@ { seq!["Capability cannot have ordering constraint with itself"@] } else { seq![] }),
        OrderingConstraint::Concurrent { capabilities } =>
            (if capabilities.len() == 0 { seq!["Concurrent constraint must have at least one capability"@] } else { seq![] })
            + (if has_duplicate(capabilities@) { seq!["Duplicate capabilities in concurrent constraint"@] } else { seq![] }),
        OrderingConstraint::Sequential { capabilities } =>
            (if capabilities.len() < 2 { seq!["Sequential constraint must have at least two capabilities"@] } else { seq![] })
            + (if has_duplicate(capabilities@) { seq!["Duplicate capabilities in sequential constraint"@] } else { seq![] }),
        OrderingConstraint::Priority { capability, level } =>
            if capability@.len() == 0 { seq!["Capability name cannot be empty"@] } else { seq![] },
    }
}

/// The warnings the shape of a constraint gives.
pub open spec fn shape_warnings(c: OrderingConstraint) -> Seq<Seq<char>> {
    match c {
        OrderingConstraint::Concurrent { capabilities } =>
            if capabilities.len() == 1 { seq!["Concurrent constraint with single capability is redundant"@] } else { seq![] },
        OrderingConstraint::Priority { capability, level } =>
            if level == 0 { seq!["Priority level 0 might indicate unused capability"@] } else { seq![] },
        _ => seq![],
    }
}

/// Whether `c` is acceptable next to `existing`.
pub open spec fn constraint_acceptable(c: OrderingConstraint, existing: Seq<OrderingConstraint>) -> bool {
    shape_errors(c).len() == 0 && forall|k: int| 0 <= k < existing.len() ==> !spec_constraints_conflict(c, #[trigger] existing[k])
}

/// Whether the constraints of a partial order are consistent: no two of them
/// conflict and they make no group of capabilities wait on itself.
pub open spec fn spec_consistent(cs: Seq<OrderingConstraint>) -> bool {
    &&& forall|i: int, j: int| 0 <= i < j < cs.len() ==> !spec_constraints_conflict(#[trigger] cs[i], #[trigger] cs[j])
    &&& !constraints_cyclic(cs)
}


/// The constraints `cs`, with the first `k` of them, say that `x` waits for `y`.
pub proof fn lemma_cycle_same_relation(g: EdgesView, cs: Seq<OrderingConstraint>)
    requires
        forall|x: Seq<char>, y: Seq<char>| #[trigger] depends_on(g, x, y) <==> constrained_after(cs, x, y),
    ensures
        has_cycle(g) == constraints_cyclic(cs),
{
    if has_cycle(g) {
        let s = choose|s: Seq<Seq<char>>| #[trigger] self_blocking(g, s);
        assert forall|x: Seq<char>| #[trigger] s.contains(x) implies exists|y: Seq<char>| s.contains(y) && #[trigger] constrained_after(cs, x, y) by {
            let y = choose|y: Seq<char>| s.contains(y) && #[trigger] depends_on(g, x, y);
            assert(constrained_after(cs, x, y));
        }
        assert(blocking_under(cs, s));
    }
    if constraints_cyclic(cs) {
        let s = choose|s: Seq<Seq<char>>| #[trigger] blocking_under(cs, s);
        assert forall|x: Seq<char>| #[trigger] s.contains(x) implies has_dependency_in(g, x, s) by {
            let y = choose|y: Seq<char>| s.contains(y) && #[trigger] constrained_after(cs, x, y);
            assert(depends_on(g, x, y));
        }
        assert(self_blocking(g, s));
    }
}

/// The set of capabilities the constraints mention.
pub open spec fn mentioned_set(cs: Seq<OrderingConstraint>) -> Set<Seq<char>> {
    Set::new(|x: Seq<char>| mentioned_in(cs, x))
}

/// How many constraints of each kind `cs` holds: before, after, concurrent, sequential, priority.
pub open spec fn kind_index(c: OrderingConstraint) -> int {
    match c {
        OrderingConstraint::Before { .. } => 0,
        OrderingConstraint::After { .. } => 1,
        OrderingConstraint::Concurrent { .. } => 2,
        OrderingConstraint::Sequential { .. } => 3,
        OrderingConstraint::Priority { .. } => 4,
    }
}

/// The number of constraints of kind `kind` in `cs`.
pub open spec fn kind_count(cs: Seq<OrderingConstraint>, kind: int) -> nat
    decreases cs.len(),
{
    if cs.len() == 0 {
        0
    } else {
        kind_count(cs.drop_last(), kind) + (if kind_index(cs.last()) == kind { 1nat } else { 0nat })
    }
}

/// `(name, count)` for each kind from `from` on that occurs in `cs`, in kind order.
pub open spec fn kinds_table(cs: Seq<OrderingConstraint>, from: int) -> Seq<(Seq<char>, nat)>
    decreases 5 - from,
{
    if from >= 5 || from < 0 {
        seq![]
    } else {
        (if kind_count(cs, from) > 0 { seq![(kind_name(from), kind_count(cs, from))] } else { seq![] }) + kinds_table(cs, from + 1)
    }
}

/// The abstract value of a table of counts.
pub open spec fn table_view(t: Seq<(String, usize)>) -> Seq<(Seq<char>, nat)> {
    t.map_values(|e: (String, usize)| (e.0@, e.1 as nat))
}

/// The name reported for each kind of constraint.
pub open spec fn kind_name(kind: int) -> Seq<char> {
    if kind == 0 { "before"@ } else if kind == 1 { "after"@ } else if kind == 2 { "concurrent"@ } else if kind == 3 { "sequential"@ } else { "priority"@ }
}

/// The abstract value of a constraint: its kind (0 before, 1 after,
/// 2 concurrent, 3 sequential, 4 priority), the capabilities it names in
/// order, and its level (0 unless a priority).
pub open spec fn cview(c: OrderingConstraint) -> (int, Seq<Seq<char>>, u8) {
    match c {
        OrderingConstraint::Priority { capability, level } => (4, seq![capability@], level),
        _ => (kind_index(c), mentioned(c), 0u8),
    }
}

/// The abstract values of a sequence of constraints.
pub open spec fn cviews(cs: Seq<OrderingConstraint>) -> Seq<(int, Seq<Seq<char>>, u8)> {
    cs.map_values(|c: OrderingConstraint| cview(c))
}

/// The first level `map` gives to `cap`.
pub open spec fn level_of(map: Seq<(Seq<char>, u8)>, cap: Seq<char>) -> Option<u8>
    decreases map.len(),
{
    if map.len() == 0 {
        None
    } else if map[0].0 == cap {
        Some(map[0].1)
    } else {
        level_of(map.drop_first(), cap)
    }
}

/// The priority constraints a priority map gives, in the order of `caps`.
pub open spec fn priority_constraints(map: Seq<(Seq<char>, u8)>, caps: Seq<Seq<char>>) -> Seq<(int, Seq<Seq<char>>, u8)>
    decreases caps.len(),
{
    if caps.len() == 0 {
        seq![]
    } else {
        priority_constraints(map, caps.drop_last()) + match level_of(map, caps.last()) {
            Some(level) => seq![(4int, seq![caps.last()], level)],
            None => seq![],
        }
    }
}

/// The dependency list `deps` gives to `cap` (the first entry for it).
pub open spec fn dependencies_for(deps: Seq<(Seq<char>, Seq<Seq<char>>)>, cap: Seq<char>) -> Option<Seq<Seq<char>>>
    decreases deps.len(),
{
    if deps.len() == 0 {
        None
    } else if deps[0].0 == cap {
        Some(deps[0].1)
    } else {
        dependencies_for(deps.drop_first(), cap)
    }
}

/// `Before { dep, cap }` for each dependency of `cap` in `ds` that is among `all`.
pub open spec fn before_each(ds: Seq<Seq<char>>, cap: Seq<char>, all: Seq<Seq<char>>) -> Seq<(int, Seq<Seq<char>>, u8)>
    decreases ds.len(),
{
    if ds.len() == 0 {
        seq![]
    } else {
        before_each(ds.drop_last(), cap, all) + if all.contains(ds.last()) {
            seq![(0int, seq![ds.last(), cap], 0u8)]
        } else {
            seq![]
        }
    }
}

/// The constraints a dependency map gives for `caps`, taken among `all`.
pub open spec fn dependency_constraints(deps: Seq<(Seq<char>, Seq<Seq<char>>)>, caps: Seq<Seq<char>>, all: Seq<Seq<char>>) -> Seq<(int, Seq<Seq<char>>, u8)>
    decreases caps.len(),
{
    if caps.len() == 0 {
        seq![]
    } else {
        dependency_constraints(deps, caps.drop_last(), all) + match dependencies_for(deps, caps.last()) {
            Some(ds) => before_each(ds, caps.last(), all),
            None => seq![],
        }
    }
}

/// The outcome of checking one ordering constraint.
#[derive(Debug)]
pub struct ValidationResult {
    /// Whether the constraint is valid.
    pub is_valid: bool,
    /// Error messages if invalid.
    pub errors: Vec<String>,
    /// Non-fatal issues.
    pub warnings: Vec<String>,
    /// Capabilities the constraint mentions, each once.
    pub affected_capabilities: Vec<String>,
}

/// Descriptive data of a partial order.
#[derive(Clone, Debug)]
pub struct PartialOrderMetadata {
    pub description: String,
    pub tags: Vec<String>,
    pub created_at: i64,
    pub updated_at: i64,
}

/// The ordering constraints a shard declares for its capabilities.
#[derive(Clone, Debug)]
pub struct PartialOrder {
    /// Shard that owns this partial order.
    pub shard_id: Pubkey,
    /// The ordering constraints.
    pub constraints: Vec<OrderingConstraint>,
    /// Version of the partial order.
    pub version: u64,
    /// Whether this partial order is active.
    pub is_active: bool,
    /// Weight of this shard's constraints (0-255).
    pub priority_weight: u8,
    /// Metadata.
    pub metadata: PartialOrderMetadata,
}

/// Counts of the constraints of each kind, and other figures of a partial order.
#[derive(Debug)]
pub struct PartialOrderStatistics {
    pub total_capabilities: usize,
    pub total_constraints: usize,
    /// `(kind, count)` for each kind present, in order of first occurrence.
    pub constraint_type_counts: Vec<(String, usize)>,
    pub is_consistent: bool,
    pub priority_weight: u8,
}

/// Whether `v` holds the same string twice.
pub fn contains_duplicate(v: &Vec<String>) -> (r: bool)
    ensures
        r == has_duplicate(v@),
{
    let mut seen: Vec<String> = Vec::new();
    let mut i: usize = 0;
    while i < v.len()
        invariant
            i <= v.len(),
            views(seen@) == views(v@).take(i as int),
            views(v@).take(i as int).no_duplicates(),
        decreases v.len() - i,
    {
        if contains_string(&seen, &v[i]) {
            proof {
                let k = choose|k: int| 0 <= k < views(seen@).len() && views(seen@)[k] == v@[i as int]@;
                assert(views(v@)[k] == views(v@)[i as int]);
            }
            return true;
        }
        let ghost before = views(seen@);
        seen.push(v[i].clone());
        proof {
            assert(views(seen@) =~= before.push(v@[i as int]@));
            assert(views(v@).take(i + 1) =~= views(v@).take(i as int).push(v@[i as int]@));
        }
        i += 1;
    }
    proof {
        assert(views(v@).take(v.len() as int) =~= views(v@));
    }
    false
}

/// Whether some string of `a` also occurs in `b`.
pub fn any_shared(a: &Vec<String>, b: &Vec<String>) -> (r: bool)
    ensures
        r == overlaps(views(a@), views(b@)),
{
    let mut i: usize = 0;
    while i < a.len()
        invariant
            i <= a.len(),
            forall|j: int| 0 <= j < i ==> !views(b@).contains(#[trigger] views(a@)[j]),
        decreases a.len() - i,
    {
        if contains_string(b, &a[i]) {
            assert(views(a@).contains(views(a@)[i as int]));
            return true;
        }
        i += 1;
    }
    proof {
        if overlaps(views(a@), views(b@)) {
            let x = choose|x: Seq<char>| #[trigger] views(a@).contains(x) && views(b@).contains(x);
            let j = choose|j: int| 0 <= j < views(a@).len() && views(a@)[j] == x;
        }
    }
    false
}

impl OrderingConstraint {
    /// Whether two constraints contradict each other.
    pub fn conflicts_with(&self, other: &OrderingConstraint) -> (r: bool)
        ensures
            r == spec_constraints_conflict(*self, *other),
    {
        match (self, other) {
            (OrderingConstraint::Before { capability_a: a1, capability_b: b1 }, OrderingConstraint::Before { capability_a: a2, capability_b: b2 }) =>
                *a1 == *b2 && *b1 == *a2,
            (OrderingConstraint::Before { capability_a: a1, capability_b: b1 }, OrderingConstraint::After { capability_a: a2, capability_b: b2 }) =>
                *a1 == *a2 && *b1 == *b2,
            (OrderingConstraint::After { capability_a: a1, capability_b: b1 }, OrderingConstraint::Before { capability_a: a2, capability_b: b2 }) =>
                *a1 == *a2 && *b1 == *b2,
            (OrderingConstraint::Sequential { capabilities: seq }, OrderingConstraint::Concurrent { capabilities: conc }) =>
                any_shared(seq, conc) && seq.len() > 1,
            (OrderingConstraint::Concurrent { capabilities: conc }, OrderingConstraint::Sequential { capabilities: seq }) =>
                any_shared(seq, conc) && seq.len() > 1,
            _ => false,
        }
    }

    /// The capabilities this constraint mentions, in order.
    pub fn capabilities(&self) -> (r: Vec<String>)
        ensures
            views(r@) == mentioned(*self),
    {
        match self {
            OrderingConstraint::Before { capability_a, capability_b } | OrderingConstraint::After { capability_a, capability_b } => {
                let mut r = Vec::new();
                r.push(capability_a.clone());
                r.push(capability_b.clone());
                assert(views(r@) =~= seq![capability_a@, capability_b@]);
                r
            }
            OrderingConstraint::Concurrent { capabilities } | OrderingConstraint::Sequential { capabilities } => {
                let mut r = Vec::new();
                let mut i: usize = 0;
                while i < capabilities.len()
                    invariant
                        i <= capabilities.len(),
                        views(r@) == views(capabilities@).take(i as int),
                    decreases capabilities.len() - i,
                {
                    r.push(capabilities[i].clone());
                    assert(views(capabilities@).take(i + 1) =~= views(capabilities@).take(i as int).push(capabilities@[i as int]@));
                    assert(views(r@) =~= views(capabilities@).take(i + 1));
                    i += 1;
                }
                assert(views(capabilities@).take(capabilities.len() as int) =~= views(capabilities@));
                r
            }
            OrderingConstraint::Priority { capability, level } => {
                let mut r = Vec::new();
                r.push(capability.clone());
                assert(views(r@) =~= seq![capability@]);
                r
            }
        }
    }
}

/// Builds `"Capability names cannot be empty"`-style messages.
fn push_message(v: &mut Vec<String>, text: &str)
    ensures
        views(final(v)@) == views(old(v)@).push(text@),
{
    let ghost before = views(v@);
    v.push(owned(text));
    assert(views(v@) =~= before.push(text@));
}

/// The text the derived `Debug` of `OrderingConstraint` writes for a
/// constraint, by its kind, capabilities and level.
pub uninterp spec fn constraint_debug_text(kind: int, capabilities: Seq<Seq<char>>, level: u8) -> Seq<char>;

/// Formats the constraint with `{:?}`, its derived `Debug`. The claim is
/// only that the text is a function of the constraint's kind, capabilities
/// and level, which determine it.
#[verifier::external_body]
fn constraint_debug(c: &OrderingConstraint) -> (r: String)
    ensures
        r@ == constraint_debug_text(cview(*c).0, cview(*c).1, cview(*c).2),
{
    format!("{c:?}")
}

/// The message recorded for a conflict with `existing`.
pub open spec fn conflict_text(existing: OrderingConstraint) -> Seq<char> {
    "New constraint conflicts with existing constraint: "@ + constraint_debug_text(cview(existing).0, cview(existing).1, cview(existing).2)
}

/// The messages for the constraints of `existing` that `c` conflicts with, in order.
pub open spec fn conflict_texts(c: OrderingConstraint, existing: Seq<OrderingConstraint>) -> Seq<Seq<char>>
    decreases existing.len(),
{
    if existing.len() == 0 {
        seq![]
    } else {
        conflict_texts(c, existing.drop_last()) + (if spec_constraints_conflict(c, existing.last()) { seq![conflict_text(existing.last())] } else { seq![] })
    }
}

/// The message recorded for a conflict with `existing`.
fn conflict_message(existing: &OrderingConstraint) -> (r: String)
    ensures
        r@ == conflict_text(*existing),
{
    let mut m = owned("New constraint conflicts with existing constraint: ");
    let d = constraint_debug(existing);
    m.append(d.as_str());
    m
}

impl PartialOrder {
    /// A new, empty, active partial order for `shard_id`, at version 1 and
    /// medium weight 128, stamped with the cluster time.
    pub fn new(shard_id: Pubkey) -> (r: PartialOrder)
        ensures
            r.shard_id == shard_id,
            r.constraints@.len() == 0,
            r.version == 1,
            r.is_active,
            r.priority_weight == 128,
            r.metadata.description@.len() == 0,
            r.metadata.tags@.len() == 0,
    {
        let created_at = clock_unix_timestamp();
        let updated_at = clock_unix_timestamp();
        PartialOrder {
            shard_id,
            constraints: Vec::new(),
            version: 1,
            is_active: true,
            priority_weight: 128,
            metadata: PartialOrderMetadata { description: String::new(), tags: Vec::new(), created_at, updated_at },
        }
    }

    /// Checks a constraint alone and against the existing ones.
    pub fn validate_constraint(new_constraint: &OrderingConstraint, existing_constraints: &Vec<OrderingConstraint>) -> (r: Result<ValidationResult, ValenceError>)
        ensures
            r is Ok,
            r matches Ok(v) ==> {
                &&& v.is_valid == constraint_acceptable(*new_constraint, existing_constraints@)
                &&& views(v.errors@) == shape_errors(*new_constraint) + conflict_texts(*new_constraint, existing_constraints@)
                &&& views(v.warnings@) == shape_warnings(*new_constraint)
                &&& views(v.affected_capabilities@).no_duplicates()
                &&& forall|x: Seq<char>| views(v.affected_capabilities@).contains(x) <==> mentioned(*new_constraint).contains(x)
            },
    {
        let mut errors: Vec<String> = Vec::new();
        let mut warnings: Vec<String> = Vec::new();
        match new_constraint {
            OrderingConstraint::Before { capability_a, capability_b } | OrderingConstraint::After { capability_a, capability_b } => {
                if capability_a.as_str().is_empty() || capability_b.as_str().is_empty() {
                    push_message(&mut errors, "Capability names cannot be empty");
                }
                if *capability_a == *capability_b {
                    push_message(&mut errors, "Capability cannot have ordering constraint with itself");
                }
            }
            OrderingConstraint::Concurrent { capabilities } => {
                if capabilities.len() == 0 {
                    push_message(&mut errors, "Concurrent constraint must have at least one capability");
                }
                if capabilities.len() == 1 {
                    push_message(&mut warnings, "Concurrent constraint with single capability is redundant");
                }
                if contains_duplicate(capabilities) {
                    push_message(&mut errors, "Duplicate capabilities in concurrent constraint");
                }
            }
            OrderingConstraint::Sequential { capabilities } => {
                if capabilities.len() < 2 {
                    push_message(&mut errors, "Sequential constraint must have at least two capabilities");
                }
                if contains_duplicate(capabilities) {
                    push_message(&mut errors, "Duplicate capabilities in sequential constraint");
                }
            }
            OrderingConstraint::Priority { capability, level } => {
                if capability.as_str().is_empty() {
                    push_message(&mut errors, "Capability name cannot be empty");
                }
                if *level == 0 {
                    push_message(&mut warnings, "Priority level 0 might indicate unused capability");
                }
            }
        }
        proof {
            assert(views(errors@) =~= shape_errors(*new_constraint));
            assert(views(warnings@) =~= shape_warnings(*new_constraint));
        }
        let ghost base = views(errors@);
        let shape_ok = errors.len() == 0;
        let mut affected: Vec<String> = Vec::new();
        let caps = new_constraint.capabilities();
        let mut i: usize = 0;
        while i < caps.len()
            invariant
                i <= caps.len(),
                views(affected@).no_duplicates(),
                forall|x: Seq<char>| views(affected@).contains(x) <==> views(caps@).take(i as int).contains(x),
            decreases caps.len() - i,
        {
            push_unique(&mut affected, &caps[i]);
            proof {
                let t = views(caps@);
                assert(t.take(i + 1) =~= t.take(i as int).push(t[i as int]));
                lemma_take_succ_contains(t, i as int);
            }
            i += 1;
        }
        proof {
            assert(views(caps@).take(caps.len() as int) =~= views(caps@));
        }
        let mut no_conflict = true;
        let mut k: usize = 0;
        assert(base + conflict_texts(*new_constraint, existing_constraints@.take(0)) =~= base);
        while k < existing_constraints.len()
            invariant
                k <= existing_constraints.len(),
                base == shape_errors(*new_constraint),
                views(errors@) == base + conflict_texts(*new_constraint, existing_constraints@.take(k as int)),
                no_conflict == forall|j: int| 0 <= j < k ==> !spec_constraints_conflict(*new_constraint, #[trigger] existing_constraints@[j]),
            decreases existing_constraints.len() - k,
        {
            let ghost e0 = errors@;
            proof {
                assert(existing_constraints@.take(k + 1).drop_last() =~= existing_constraints@.take(k as int));
            }
            if new_constraint.conflicts_with(&existing_constraints[k]) {
                let m = conflict_message(&existing_constraints[k]);
                errors.push(m);
                no_conflict = false;
                proof {
                    assert(views(errors@) =~= views(e0).push(conflict_text(existing_constraints@[k as int])));
                    assert(existing_constraints@.take(k + 1).last() == existing_constraints@[k as int]);
                }
            } else {
                assert(existing_constraints@.take(k + 1).last() == existing_constraints@[k as int]);
                assert(base + conflict_texts(*new_constraint, existing_constraints@.take(k + 1)) =~= base + conflict_texts(*new_constraint, existing_constraints@.take(k as int)));
            }
            k += 1;
        }
        proof {
            assert(existing_constraints@.take(existing_constraints.len() as int) =~= existing_constraints@);
        }
        Ok(ValidationResult { is_valid: shape_ok && no_conflict, errors, warnings, affected_capabilities: affected })
    }

    /// Adds a constraint, refusing one that is malformed or conflicts with
    /// an existing constraint.
    pub fn add_constraint(self, constraint: OrderingConstraint) -> (r: Result<PartialOrder, ValenceError>)
        ensures
            constraint_acceptable(constraint, self.constraints@) ==> (r matches Ok(p) && p.constraints@ == self.constraints@.push(constraint)
                && p.shard_id == self.shard_id && p.version == self.version && p.is_active == self.is_active
                && p.priority_weight == self.priority_weight && p.metadata.description == self.metadata.description
                && p.metadata.tags == self.metadata.tags && p.metadata.created_at == self.metadata.created_at),
            !constraint_acceptable(constraint, self.constraints@) ==> r == Err::<PartialOrder, ValenceError>(ValenceError::ConflictingConstraints),
    {
        let validation = Self::validate_constraint(&constraint, &self.constraints);
        let valid = match validation {
            Ok(v) => v.is_valid,
            Err(_) => false,
        };
        if !valid {
            return Err(ValenceError::ConflictingConstraints);
        }
        let mut p = self;
        p.constraints.push(constraint);
        p.metadata.updated_at = clock_unix_timestamp();
        Ok(p)
    }

    /// Whether some constraint of `self` conflicts with some constraint of `other`.
    pub fn has_conflict_with(&self, other: &PartialOrder) -> (r: bool)
        ensures
            r == exists|i: int, j: int| 0 <= i < self.constraints@.len() && 0 <= j < other.constraints@.len()
                && spec_constraints_conflict(#[trigger] self.constraints@[i], #[trigger] other.constraints@[j]),
    {
        let mut i: usize = 0;
        while i < self.constraints.len()
            invariant
                i <= self.constraints.len(),
                forall|a: int, b: int| 0 <= a < i && 0 <= b < other.constraints@.len() ==> !spec_constraints_conflict(#[trigger] self.constraints@[a], #[trigger] other.constraints@[b]),
            decreases self.constraints.len() - i,
        {
            let mut j: usize = 0;
            while j < other.constraints.len()
                invariant
                    i < self.constraints.len(),
                    j <= other.constraints.len(),
                    forall|a: int, b: int| 0 <= a < i && 0 <= b < other.constraints@.len() ==> !spec_constraints_conflict(#[trigger] self.constraints@[a], #[trigger] other.constraints@[b]),
                    forall|b: int| 0 <= b < j ==> !spec_constraints_conflict(self.constraints@[i as int], #[trigger] other.constraints@[b]),
                decreases other.constraints.len() - j,
            {
                if self.constraints[i].conflicts_with(&other.constraints[j]) {
                    return true;
                }
                j += 1;
            }
            i += 1;
        }
        false
    }

    /// Every capability the constraints mention, each once, in order of first mention.
    pub fn get_capabilities(&self) -> (r: Vec<String>)
        ensures
            views(r@).no_duplicates(),
            forall|x: Seq<char>| #[trigger] views(r@).contains(x) <==> mentioned_in(self.constraints@, x),
    {
        collect_capabilities(&self.constraints)
    }

    /// Moves to the next version and stamps the update time.
    pub fn increment_version(&mut self)
        requires
            old(self).version < u64::MAX,
        ensures
            final(self).version == old(self).version + 1,
            final(self).constraints == old(self).constraints,
            final(self).shard_id == old(self).shard_id,
            final(self).is_active == old(self).is_active,
            final(self).priority_weight == old(self).priority_weight,
            final(self).metadata.description == old(self).metadata.description,
            final(self).metadata.tags == old(self).metadata.tags,
            final(self).metadata.created_at == old(self).metadata.created_at,
    {
        self.version = self.version + 1;
        self.metadata.updated_at = clock_unix_timestamp();
    }

    /// The dependency graph of the constraints: `Before { a, b }` makes `b`
    /// wait for `a`, `After { a, b }` makes `a` wait for `b`, and a sequence
    /// makes each member wait for the one before it.
    pub fn build_dependency_graph(&self) -> (g: DependencyGraph)
        ensures
            forall|x: Seq<char>, y: Seq<char>| #[trigger] depends_on(g@, x, y) <==> constrained_after(self.constraints@, x, y),
    {
        graph_of_constraints(&self.constraints)
    }

    /// Whether the constraints make some group of capabilities wait on itself.
    pub fn has_cycles(&self) -> (r: bool)
        ensures
            r == constraints_cyclic(self.constraints@),
    {
        let g = self.build_dependency_graph();
        let r = g.has_cycles();
        proof {
            lemma_cycle_same_relation(g@, self.constraints@);
        }
        r
    }

    /// Checks that no two constraints conflict and that they form no cycle.
    pub fn validate_consistency(&self) -> (r: Result<(), ValenceError>)
        ensures
            r is Ok <==> spec_consistent(self.constraints@),
            r is Err ==> r == Err::<(), ValenceError>(ValenceError::ConflictingConstraints),
    {
        let n = self.constraints.len();
        let mut i: usize = 0;
        while i < n
            invariant
                n == self.constraints.len(),
                i <= n,
                forall|a: int, b: int| 0 <= a < b < n && a < i ==> !spec_constraints_conflict(#[trigger] self.constraints@[a], #[trigger] self.constraints@[b]),
            decreases n - i,
        {
            let mut j: usize = i + 1;
            while j < n
                invariant
                    n == self.constraints.len(),
                    i < n,
                    i + 1 <= j <= n,
                    forall|a: int, b: int| 0 <= a < b < n && a < i ==> !spec_constraints_conflict(#[trigger] self.constraints@[a], #[trigger] self.constraints@[b]),
                    forall|b: int| i < b < j ==> !spec_constraints_conflict(self.constraints@[i as int], #[trigger] self.constraints@[b]),
                decreases n - j,
            {
                if self.constraints[i].conflicts_with(&self.constraints[j]) {
                    return Err(ValenceError::ConflictingConstraints);
                }
                j += 1;
            }
            i += 1;
        }
        if self.has_cycles() {
            return Err(ValenceError::ConflictingConstraints);
        }
        Ok(())
    }

    /// Sets the weight of this shard's constraints.
    pub fn with_priority_weight(self, weight: u8) -> (r: PartialOrder)
        ensures
            r.priority_weight == weight,
            r.constraints == self.constraints,
            r.shard_id == self.shard_id,
            r.version == self.version,
            r.is_active == self.is_active,
            r.metadata == self.metadata,
    {
        let mut p = self;
        p.priority_weight = weight;
        p
    }

    /// Sets the description and tags and stamps the update time.
    pub fn with_metadata(self, description: String, tags: Vec<String>) -> (r: PartialOrder)
        ensures
            r.metadata.description == description,
            r.metadata.tags == tags,
            r.metadata.created_at == self.metadata.created_at,
            r.constraints == self.constraints,
            r.shard_id == self.shard_id,
            r.version == self.version,
            r.is_active == self.is_active,
            r.priority_weight == self.priority_weight,
    {
        let mut p = self;
        p.metadata.description = description;
        p.metadata.tags = tags;
        p.metadata.updated_at = clock_unix_timestamp();
        p
    }

    /// Whether every capability the constraints mention is available.
    pub fn is_compatible_with_capabilities(&self, available_capabilities: &Vec<String>) -> (r: bool)
        ensures
            r == forall|x: Seq<char>| mentioned_in(self.constraints@, x) ==> #[trigger] views(available_capabilities@).contains(x),
    {
        let required = self.get_capabilities();
        let mut i: usize = 0;
        while i < required.len()
            invariant
                i <= required.len(),
                forall|j: int| 0 <= j < i ==> views(available_capabilities@).contains(#[trigger] views(required@)[j]),
                forall|x: Seq<char>| #[trigger] views(required@).contains(x) <==> mentioned_in(self.constraints@, x),
            decreases required.len() - i,
        {
            if !contains_string(available_capabilities, &required[i]) {
                assert(views(required@).contains(views(required@)[i as int]));
                assert(!views(available_capabilities@).contains(views(required@)[i as int]));
                assert(mentioned_in(self.constraints@, views(required@)[i as int]));
                return false;
            }
            i += 1;
        }
        proof {
            assert forall|x: Seq<char>| mentioned_in(self.constraints@, x) implies #[trigger] views(available_capabilities@).contains(x) by {
                assert(views(required@).contains(x));
                let j = choose|j: int| 0 <= j < views(required@).len() && views(required@)[j] == x;
            }
        }
        true
    }

    /// Figures about this partial order.
    pub fn get_statistics(&self) -> (r: PartialOrderStatistics)
        ensures
            r.total_constraints == self.constraints.len(),
            r.priority_weight == self.priority_weight,
            r.is_consistent == spec_consistent(self.constraints@),
            r.total_capabilities == mentioned_set(self.constraints@).len(),
            table_view(r.constraint_type_counts@) == kinds_table(self.constraints@, 0),
    {
        let capabilities = self.get_capabilities();
        proof {
            assert(views(capabilities@).to_set() =~= mentioned_set(self.constraints@));
            views(capabilities@).unique_seq_to_set();
        }
        let total_capabilities = capabilities.len();
        let mut counts: [usize; 5] = [0, 0, 0, 0, 0];
        let mut i: usize = 0;
        while i < self.constraints.len()
            invariant
                i <= self.constraints.len(),
                self.constraints.len() <= usize::MAX,
                forall|kind: int| 0 <= kind < 5 ==> #[trigger] counts@[kind] == kind_count(self.constraints@.take(i as int), kind),
                forall|kind: int| 0 <= kind < 5 ==> #[trigger] counts@[kind] <= i,
            decreases self.constraints.len() - i,
        {
            let idx: usize = match &self.constraints[i] {
                OrderingConstraint::Before { .. } => 0,
                OrderingConstraint::After { .. } => 1,
                OrderingConstraint::Concurrent { .. } => 2,
                OrderingConstraint::Sequential { .. } => 3,
                OrderingConstraint::Priority { .. } => 4,
            };
            proof {
                assert(self.constraints@.take(i + 1).drop_last() =~= self.constraints@.take(i as int));
            }
            counts.set(idx, counts[idx] + 1);
            i += 1;
        }
        proof {
            assert(self.constraints@.take(self.constraints.len() as int) =~= self.constraints@);
        }
        let mut table: Vec<(String, usize)> = Vec::new();
        let mut kind: usize = 0;
        while kind < 5
            invariant
                kind <= 5,
                forall|q: int| 0 <= q < 5 ==> #[trigger] counts@[q] == kind_count(self.constraints@, q),
                table_view(table@) + kinds_table(self.constraints@, kind as int) == kinds_table(self.constraints@, 0),
            decreases 5 - kind,
        {
            let ghost t0 = table_view(table@);
            proof {
                assert(counts@[kind as int] == kind_count(self.constraints@, kind as int));
            }
            if counts[kind] > 0 {
                let name = kind_label(kind);
                table.push((name, counts[kind]));
                proof {
                    assert(table_view(table@) =~= t0.push((kind_name(kind as int), kind_count(self.constraints@, kind as int))));
                    assert(table_view(table@) + kinds_table(self.constraints@, kind + 1) =~= t0 + kinds_table(self.constraints@, kind as int));
                }
            } else {
                assert(kinds_table(self.constraints@, kind as int) == kinds_table(self.constraints@, kind + 1));
            }
            kind += 1;
        }
        proof {
            assert(kinds_table(self.constraints@, 5) =~= Seq::<(Seq<char>, nat)>::empty());
            assert(table_view(table@) =~= kinds_table(self.constraints@, 0));
        }
        let is_consistent = match self.validate_consistency() {
            Ok(_) => true,
            Err(_) => false,
        };
        PartialOrderStatistics {
            total_capabilities,
            total_constraints: self.constraints.len(),
            constraint_type_counts: table,
            is_consistent,
            priority_weight: self.priority_weight,
        }
    }
}

/// The label of constraint kind `kind`.
fn kind_label(kind: usize) -> (r: String)
    requires
        kind < 5,
    ensures
        r@ == kind_name(kind as int),
{
    if kind == 0 { owned("before") } else if kind == 1 { owned("after") } else if kind == 2 { owned("concurrent") } else if kind == 3 { owned("sequential") } else { owned("priority") }
}

/// Every capability the constraints mention, each once, in order of first mention.
pub fn collect_capabilities(constraints: &Vec<OrderingConstraint>) -> (r: Vec<String>)
    ensures
        views(r@).no_duplicates(),
        forall|x: Seq<char>| #[trigger] views(r@).contains(x) <==> mentioned_in(constraints@, x),
{
    let mut r: Vec<String> = Vec::new();
    let mut k: usize = 0;
    while k < constraints.len()
        invariant
            k <= constraints.len(),
            views(r@).no_duplicates(),
            forall|x: Seq<char>| #[trigger] views(r@).contains(x) <==> mentioned_in(constraints@.take(k as int), x),
        decreases constraints.len() - k,
    {
        let caps = constraints[k].capabilities();
        let ghost r0 = views(r@);
        let mut i: usize = 0;
        while i < caps.len()
            invariant
                k < constraints.len(),
                i <= caps.len(),
                views(caps@) == mentioned(constraints@[k as int]),
                views(r@).no_duplicates(),
                forall|x: Seq<char>| #[trigger] views(r@).contains(x) <==> (r0.contains(x) || views(caps@).take(i as int).contains(x)),
            decreases caps.len() - i,
        {
            push_unique(&mut r, &caps[i]);
            proof {
                lemma_take_succ_contains(views(caps@), i as int);
            }
            i += 1;
        }
        proof {
            let cs = constraints@;
            assert(views(caps@).take(caps.len() as int) =~= views(caps@));
            assert forall|x: Seq<char>| #[trigger] views(r@).contains(x) <==> mentioned_in(cs.take(k + 1), x) by {
                if mentioned_in(cs.take(k + 1), x) {
                    let j = choose|j: int| 0 <= j < k + 1 && #[trigger] mentioned(cs.take(k + 1)[j]).contains(x);
                    if j < k {
                        assert(cs.take(k as int)[j] == cs.take(k + 1)[j]);
                        assert(mentioned_in(cs.take(k as int), x));
                    }
                }
                if r0.contains(x) {
                    let j = choose|j: int| 0 <= j < k && #[trigger] mentioned(cs.take(k as int)[j]).contains(x);
                    assert(cs.take(k as int)[j] == cs.take(k + 1)[j]);
                }
                if views(caps@).contains(x) {
                    assert(cs.take(k + 1)[k as int] == cs[k as int]);
                }
            }
        }
        k += 1;
    }
    proof {
        assert(constraints@.take(constraints.len() as int) =~= constraints@);
    }
    r
}

/// The dependency graph the constraints define.
pub fn graph_of_constraints(constraints: &Vec<OrderingConstraint>) -> (g: DependencyGraph)
    ensures
        forall|x: Seq<char>, y: Seq<char>| #[trigger] depends_on(g@, x, y) <==> constrained_after(constraints@, x, y),
{
    let mut g = DependencyGraph::new();
    let mut k: usize = 0;
    while k < constraints.len()
        invariant
            k <= constraints.len(),
            forall|x: Seq<char>, y: Seq<char>| #[trigger] depends_on(g@, x, y) <==> constrained_after(constraints@.take(k as int), x, y),
        decreases constraints.len() - k,
    {
        let ghost g0 = g@;
        let ghost c = constraints@[k as int];
        match &constraints[k] {
            OrderingConstraint::Before { capability_a, capability_b } => {
                g.add_edge(capability_b, capability_a);
                assert forall|x: Seq<char>, y: Seq<char>| #[trigger] depends_on(g@, x, y) <==> (depends_on(g0, x, y) || constraint_edge(c, x, y)) by {}
            }
            OrderingConstraint::After { capability_a, capability_b } => {
                g.add_edge(capability_a, capability_b);
                assert forall|x: Seq<char>, y: Seq<char>| #[trigger] depends_on(g@, x, y) <==> (depends_on(g0, x, y) || constraint_edge(c, x, y)) by {}
            }
            OrderingConstraint::Sequential { capabilities } => {
                let mut i: usize = 1;
                while i < capabilities.len()
                    invariant
                        1 <= i,
                        i <= capabilities.len() || capabilities.len() == 0,
                        forall|x: Seq<char>, y: Seq<char>| #[trigger] depends_on(g@, x, y) <==> (depends_on(g0, x, y)
                            || exists|j: int| 1 <= j < i && j < capabilities.len() && x == capabilities@[j]@ && #[trigger] capabilities@[j - 1]@ == y),
                    decreases capabilities.len() - i,
                {
                    g.add_edge(&capabilities[i], &capabilities[i - 1]);
                    proof {
                        assert forall|x: Seq<char>, y: Seq<char>| #[trigger] depends_on(g@, x, y) <==> (depends_on(g0, x, y)
                            || exists|j: int| 1 <= j < i + 1 && j < capabilities.len() && x == capabilities@[j]@ && #[trigger] capabilities@[j - 1]@ == y) by {
                            if x == capabilities@[i as int]@ && y == capabilities@[i - 1]@ {
                                assert(capabilities@[(i as int) - 1]@ == y);
                            }
                        }
                    }
                    i += 1;
                }
                assert forall|x: Seq<char>, y: Seq<char>| #[trigger] depends_on(g@, x, y) <==> (depends_on(g0, x, y) || constraint_edge(c, x, y)) by {
                    if constraint_edge(c, x, y) {
                        let j = choose|j: int| 1 <= j < capabilities.len() && x == capabilities@[j]@ && #[trigger] capabilities@[j - 1]@ == y;
                        assert(1 <= j < i && j < capabilities.len() && x == capabilities@[j]@ && capabilities@[j - 1]@ == y);
                    }
                }
            }
            _ => {
                assert forall|x: Seq<char>, y: Seq<char>| #[trigger] depends_on(g@, x, y) <==> (depends_on(g0, x, y) || constraint_edge(c, x, y)) by {}
            }
        }
        proof {
            let cs = constraints@;
            assert forall|x: Seq<char>, y: Seq<char>| #[trigger] depends_on(g@, x, y) <==> constrained_after(cs.take(k + 1), x, y) by {
                assert(cs.take(k + 1)[k as int] == c);
                if constrained_after(cs.take(k + 1), x, y) {
                    let j = choose|j: int| 0 <= j < k + 1 && #[trigger] constraint_edge(cs.take(k + 1)[j], x, y);
                    if j < k {
                        assert(cs.take(k as int)[j] == cs.take(k + 1)[j]);
                        assert(constrained_after(cs.take(k as int), x, y));
                    }
                }
                if constrained_after(cs.take(k as int), x, y) {
                    let j = choose|j: int| 0 <= j < k && #[trigger] constraint_edge(cs.take(k as int)[j], x, y);
                    assert(cs.take(k as int)[j] == cs.take(k + 1)[j]);
                }
            }
        }
        k += 1;
    }
    proof {
        assert(constraints@.take(constraints.len() as int) =~= constraints@);
    }
    g
}


/// Copies a list of strings.
pub fn copy_strings(v: &Vec<String>) -> (r: Vec<String>)
    ensures
        views(r@) == views(v@),
{
    let mut r: Vec<String> = Vec::new();
    let mut i: usize = 0;
    while i < v.len()
        invariant
            i <= v.len(),
            views(r@) == views(v@).take(i as int),
        decreases v.len() - i,
    {
        r.push(v[i].clone());
        assert(views(v@).take(i + 1) =~= views(v@).take(i as int).push(v@[i as int]@));
        assert(views(r@) =~= views(v@).take(i + 1));
        i += 1;
    }
    assert(views(v@).take(v.len() as int) =~= views(v@));
    r
}

/// A rule that derives ordering constraints for a set of capabilities.
pub trait OrderingRule {
    /// Whether the rule applies to the given capabilities.
    fn applies_to(&self, capabilities: &Vec<String>) -> bool;

    /// The constraints the rule derives for the given capabilities.
    fn generate_constraints(&self, capabilities: &Vec<String>) -> Result<Vec<OrderingConstraint>, ValenceError>;

    /// The rule's priority (higher is more important).
    fn get_priority(&self) -> u8;
}

/// First-in-first-out: the capabilities run in the order given.
#[derive(Clone, Copy, Debug)]
pub struct FifoOrderingRule;

/// The constraints the FIFO rule derives.
pub open spec fn fifo_constraints(caps: Seq<Seq<char>>) -> Seq<(int, Seq<Seq<char>>, u8)> {
    if caps.len() <= 1 { seq![] } else { seq![(3int, caps, 0u8)] }
}

impl OrderingRule for FifoOrderingRule {
    fn applies_to(&self, capabilities: &Vec<String>) -> (r: bool)
        ensures
            r,
    {
        true
    }

    fn generate_constraints(&self, capabilities: &Vec<String>) -> (r: Result<Vec<OrderingConstraint>, ValenceError>)
        ensures
            r matches Ok(v) && cviews(v@) == fifo_constraints(views(capabilities@)),
    {
        let mut out: Vec<OrderingConstraint> = Vec::new();
        if capabilities.len() > 1 {
            out.push(OrderingConstraint::Sequential { capabilities: copy_strings(capabilities) });
        }
        assert(cviews(out@) =~= fifo_constraints(views(capabilities@)));
        Ok(out)
    }

    fn get_priority(&self) -> (r: u8)
        ensures
            r == 10,
    {
        10
    }
}

/// The first level the map gives to `cap`.
fn lookup_level(map: &Vec<(String, u8)>, cap: &String) -> (r: Option<u8>)
    ensures
        r == level_of(pair_views(map@), cap@),
{
    let mut i: usize = 0;
    assert(pair_views(map@).skip(0) =~= pair_views(map@));
    while i < map.len()
        invariant
            i <= map.len(),
            level_of(pair_views(map@), cap@) == level_of(pair_views(map@).skip(i as int), cap@),
        decreases map.len() - i,
    {
        let ghost rest = pair_views(map@).skip(i as int);
        assert(rest.drop_first() =~= pair_views(map@).skip(i + 1));
        if map[i].0 == *cap {
            return Some(map[i].1);
        }
        i += 1;
    }
    assert(pair_views(map@).skip(map.len() as int) =~= Seq::<(Seq<char>, u8)>::empty());
    None
}

/// The abstract value of a priority map.
pub open spec fn pair_views(map: Seq<(String, u8)>) -> Seq<(Seq<char>, u8)> {
    map.map_values(|e: (String, u8)| (e.0@, e.1))
}

/// Assigns each listed capability its priority level.
#[derive(Debug)]
pub struct PriorityOrderingRule {
    /// `(capability, level)` pairs; the first pair for a capability counts.
    pub priority_map: Vec<(String, u8)>,
}

impl PriorityOrderingRule {
    pub fn new(priority_map: Vec<(String, u8)>) -> (r: PriorityOrderingRule)
        ensures
            r.priority_map == priority_map,
    {
        PriorityOrderingRule { priority_map }
    }
}

impl OrderingRule for PriorityOrderingRule {
    fn applies_to(&self, capabilities: &Vec<String>) -> (r: bool)
        ensures
            r == exists|i: int| 0 <= i < capabilities.len() && #[trigger] level_of(pair_views(self.priority_map@), capabilities@[i]@) is Some,
    {
        let mut i: usize = 0;
        while i < capabilities.len()
            invariant
                i <= capabilities.len(),
                forall|j: int| 0 <= j < i ==> #[trigger] level_of(pair_views(self.priority_map@), capabilities@[j]@) is None,
            decreases capabilities.len() - i,
        {
            if lookup_level(&self.priority_map, &capabilities[i]).is_some() {
                return true;
            }
            i += 1;
        }
        false
    }

    fn generate_constraints(&self, capabilities: &Vec<String>) -> (r: Result<Vec<OrderingConstraint>, ValenceError>)
        ensures
            r matches Ok(v) && cviews(v@) == priority_constraints(pair_views(self.priority_map@), views(capabilities@)),
    {
        let mut out: Vec<OrderingConstraint> = Vec::new();
        let mut i: usize = 0;
        while i < capabilities.len()
            invariant
                i <= capabilities.len(),
                cviews(out@) == priority_constraints(pair_views(self.priority_map@), views(capabilities@).take(i as int)),
            decreases capabilities.len() - i,
        {
            let ghost o0 = cviews(out@);
            let ghost t = views(capabilities@).take(i + 1);
            assert(t.drop_last() =~= views(capabilities@).take(i as int));
            if let Some(level) = lookup_level(&self.priority_map, &capabilities[i]) {
                out.push(OrderingConstraint::Priority { capability: capabilities[i].clone(), level });
                assert(cviews(out@) =~= o0 + seq![(4int, seq![capabilities@[i as int]@], level)]);
            } else {
                assert(cviews(out@) =~= o0 + Seq::<(int, Seq<Seq<char>>, u8)>::empty());
            }
            i += 1;
        }
        assert(views(capabilities@).take(capabilities.len() as int) =~= views(capabilities@));
        Ok(out)
    }

    fn get_priority(&self) -> (r: u8)
        ensures
            r == 50,
    {
        50
    }
}

/// The abstract value of a dependency map.
pub open spec fn deps_views(deps: Seq<(String, Vec<String>)>) -> Seq<(Seq<char>, Seq<Seq<char>>)> {
    deps.map_values(|e: (String, Vec<String>)| (e.0@, views(e.1@)))
}

/// The dependency list of `cap`, if the map has one.
fn lookup_dependencies(deps: &Vec<(String, Vec<String>)>, cap: &String) -> (r: Option<usize>)
    ensures
        r matches Some(i) ==> i < deps.len() && dependencies_for(deps_views(deps@), cap@) == Some(views(deps@[i as int].1@)),
        r is None ==> dependencies_for(deps_views(deps@), cap@) is None,
{
    let mut i: usize = 0;
    assert(deps_views(deps@).skip(0) =~= deps_views(deps@));
    while i < deps.len()
        invariant
            i <= deps.len(),
            dependencies_for(deps_views(deps@), cap@) == dependencies_for(deps_views(deps@).skip(i as int), cap@),
        decreases deps.len() - i,
    {
        let ghost rest = deps_views(deps@).skip(i as int);
        assert(rest.drop_first() =~= deps_views(deps@).skip(i + 1));
        if deps[i].0 == *cap {
            return Some(i);
        }
        i += 1;
    }
    assert(deps_views(deps@).skip(deps.len() as int) =~= Seq::<(Seq<char>, Seq<Seq<char>>)>::empty());
    None
}

/// Makes each capability wait for its listed dependencies that are present.
#[derive(Debug)]
pub struct DependencyOrderingRule {
    /// `(capability, dependencies)` pairs; the first pair for a capability counts.
    pub dependencies: Vec<(String, Vec<String>)>,
}

impl DependencyOrderingRule {
    pub fn new(dependencies: Vec<(String, Vec<String>)>) -> (r: DependencyOrderingRule)
        ensures
            r.dependencies == dependencies,
    {
        DependencyOrderingRule { dependencies }
    }
}

impl OrderingRule for DependencyOrderingRule {
    fn applies_to(&self, capabilities: &Vec<String>) -> (r: bool)
        ensures
            r == exists|i: int| 0 <= i < capabilities.len() && #[trigger] dependencies_for(deps_views(self.dependencies@), capabilities@[i]@) is Some,
    {
        let mut i: usize = 0;
        while i < capabilities.len()
            invariant
                i <= capabilities.len(),
                forall|j: int| 0 <= j < i ==> #[trigger] dependencies_for(deps_views(self.dependencies@), capabilities@[j]@) is None,
            decreases capabilities.len() - i,
        {
            if lookup_dependencies(&self.dependencies, &capabilities[i]).is_some() {
                return true;
            }
            i += 1;
        }
        false
    }

    fn generate_constraints(&self, capabilities: &Vec<String>) -> (r: Result<Vec<OrderingConstraint>, ValenceError>)
        ensures
            r matches Ok(v) && cviews(v@) == dependency_constraints(deps_views(self.dependencies@), views(capabilities@), views(capabilities@)),
    {
        let ghost all = views(capabilities@);
        let mut out: Vec<OrderingConstraint> = Vec::new();
        let mut i: usize = 0;
        while i < capabilities.len()
            invariant
                i <= capabilities.len(),
                all == views(capabilities@),
                cviews(out@) == dependency_constraints(deps_views(self.dependencies@), all.take(i as int), all),
            decreases capabilities.len() - i,
        {
            let ghost o0 = cviews(out@);
            assert(all.take(i + 1).drop_last() =~= all.take(i as int));
            if let Some(idx) = lookup_dependencies(&self.dependencies, &capabilities[i]) {
                let ds = &self.dependencies[idx].1;
                let ghost dv = views(ds@);
                let mut j: usize = 0;
                while j < ds.len()
                    invariant
                        j <= ds.len(),
                        i < capabilities.len(),
                        all == views(capabilities@),
                        dv == views(ds@),
                        cviews(out@) == o0 + before_each(dv.take(j as int), all[i as int], all),
                    decreases ds.len() - j,
                {
                    let ghost o1 = cviews(out@);
                    assert(dv.take(j + 1).drop_last() =~= dv.take(j as int));
                    if contains_string(capabilities, &ds[j]) {
                        out.push(OrderingConstraint::Before { capability_a: ds[j].clone(), capability_b: capabilities[i].clone() });
                        assert(cviews(out@) =~= o1.push((0int, seq![dv[j as int], all[i as int]], 0u8)));
                        assert(cviews(out@) =~= o0 + before_each(dv.take(j + 1), all[i as int], all));
                    } else {
                        assert(before_each(dv.take(j + 1), all[i as int], all) =~= before_each(dv.take(j as int), all[i as int], all));
                    }
                    j += 1;
                }
                assert(dv.take(ds.len() as int) =~= dv);
            } else {
                assert(cviews(out@) =~= o0 + Seq::<(int, Seq<Seq<char>>, u8)>::empty());
            }
            i += 1;
        }
        assert(all.take(capabilities.len() as int) =~= all);
        Ok(out)
    }

    fn get_priority(&self) -> (r: u8)
        ensures
            r == 100,
    {
        100
    }
}

/// A rule held by the registry.
#[derive(Debug)]
pub enum RegisteredRule {
    Fifo(FifoOrderingRule),
    Priority(PriorityOrderingRule),
    Dependency(DependencyOrderingRule),
}

/// The priority of a registered rule.
pub open spec fn rule_priority(r: RegisteredRule) -> u8 {
    match r {
        RegisteredRule::Fifo(_) => 10,
        RegisteredRule::Priority(_) => 50,
        RegisteredRule::Dependency(_) => 100,
    }
}

/// What a registered rule derives for `caps` (nothing if it does not apply).
pub open spec fn rule_output(r: RegisteredRule, caps: Seq<String>) -> Seq<(int, Seq<Seq<char>>, u8)> {
    match r {
        RegisteredRule::Fifo(_) => fifo_constraints(views(caps)),
        RegisteredRule::Priority(p) =>
            if exists|i: int| 0 <= i < caps.len() && #[trigger] level_of(pair_views(p.priority_map@), caps[i]@) is Some {
                priority_constraints(pair_views(p.priority_map@), views(caps))
            } else {
                seq![]
            },
        RegisteredRule::Dependency(d) =>
            if exists|i: int| 0 <= i < caps.len() && #[trigger] dependencies_for(deps_views(d.dependencies@), caps[i]@) is Some {
                dependency_constraints(deps_views(d.dependencies@), views(caps), views(caps))
            } else {
                seq![]
            },
    }
}

/// The outputs of the rules of priority `level`, in registration order.
pub open spec fn outputs_at(rules: Seq<RegisteredRule>, level: u8, caps: Seq<String>) -> Seq<(int, Seq<Seq<char>>, u8)>
    decreases rules.len(),
{
    if rules.len() == 0 {
        seq![]
    } else {
        outputs_at(rules.drop_last(), level, caps) + if rule_priority(rules.last()) == level { rule_output(rules.last(), caps) } else { seq![] }
    }
}

/// The registry of ordering rules.
#[derive(Debug)]
pub struct OrderingRuleRegistry {
    rules: Vec<RegisteredRule>,
}

impl OrderingRuleRegistry {
    /// The rules, in registration order.
    pub closed spec fn rules_view(&self) -> Seq<RegisteredRule> {
        self.rules@
    }

    /// An empty registry.
    pub fn new() -> (r: OrderingRuleRegistry)
        ensures
            r.rules_view().len() == 0,
    {
        OrderingRuleRegistry { rules: Vec::new() }
    }

    /// The registry holding only the FIFO rule.
    pub fn default_rules() -> (r: OrderingRuleRegistry)
        ensures
            r.rules_view().len() == 1,
            r.rules_view()[0] is Fifo,
    {
        let mut r = Self::new();
        r.add_rule(RegisteredRule::Fifo(FifoOrderingRule));
        r
    }

    /// Registers a rule.
    pub fn add_rule(&mut self, rule: RegisteredRule)
        ensures
            final(self).rules_view() == old(self).rules_view().push(rule),
    {
        self.rules.push(rule);
    }

    /// What one rule derives, if it applies.
    fn run_rule(rule: &RegisteredRule, capabilities: &Vec<String>) -> (r: Result<Vec<OrderingConstraint>, ValenceError>)
        ensures
            r matches Ok(v) && cviews(v@) == rule_output(*rule, capabilities@),
    {
        match rule {
            RegisteredRule::Fifo(f) => f.generate_constraints(capabilities),
            RegisteredRule::Priority(p) => {
                if p.applies_to(capabilities) {
                    p.generate_constraints(capabilities)
                } else {
                    let v: Vec<OrderingConstraint> = Vec::new();
                    assert(cviews(v@) =~= Seq::<(int, Seq<Seq<char>>, u8)>::empty());
                    Ok(v)
                }
            }
            RegisteredRule::Dependency(d) => {
                if d.applies_to(capabilities) {
                    d.generate_constraints(capabilities)
                } else {
                    let v: Vec<OrderingConstraint> = Vec::new();
                    assert(cviews(v@) =~= Seq::<(int, Seq<Seq<char>>, u8)>::empty());
                    Ok(v)
                }
            }
        }
    }

    /// Appends what the rules of priority `level` derive, in registration order.
    fn run_level(&self, level: u8, capabilities: &Vec<String>, out: &mut Vec<OrderingConstraint>)
        ensures
            cviews(final(out)@) == cviews(old(out)@) + outputs_at(self.rules@, level, capabilities@),
    {
        let ghost start = cviews(out@);
        let mut k: usize = 0;
        while k < self.rules.len()
            invariant
                k <= self.rules.len(),
                cviews(out@) == start + outputs_at(self.rules@.take(k as int), level, capabilities@),
            decreases self.rules.len() - k,
        {
            assert(self.rules@.take(k + 1).drop_last() =~= self.rules@.take(k as int));
            let prio: u8 = match &self.rules[k] {
                RegisteredRule::Fifo(_) => 10,
                RegisteredRule::Priority(_) => 50,
                RegisteredRule::Dependency(_) => 100,
            };
            if prio == level {
                let produced = Self::run_rule(&self.rules[k], capabilities);
                if let Ok(v) = produced {
                    let ghost o0 = cviews(out@);
                    let mut j: usize = 0;
                    while j < v.len()
                        invariant
                            j <= v.len(),
                            cviews(out@) == o0 + cviews(v@).take(j as int),
                        decreases v.len() - j,
                    {
                        let ghost prev = cviews(out@);
                        out.push(v[j].clone_constraint());
                        assert(cviews(out@) =~= prev.push(cview(v@[j as int])));
                        assert(cviews(v@).take(j + 1) =~= cviews(v@).take(j as int).push(cview(v@[j as int])));
                        assert(cviews(out@) =~= o0 + cviews(v@).take(j + 1));
                        j += 1;
                    }
                    assert(cviews(v@).take(v.len() as int) =~= cviews(v@));
                }
            } else {
                assert(cviews(out@) =~= start + outputs_at(self.rules@.take(k + 1), level, capabilities@));
            }
            k += 1;
        }
        assert(self.rules@.take(self.rules.len() as int) =~= self.rules@);
    }

    /// Every constraint the applicable rules derive, highest-priority rules
    /// first (dependency rules, then priority rules, then FIFO rules), each
    /// group in registration order.
    pub fn generate_all_constraints(&self, capabilities: &Vec<String>) -> (r: Result<Vec<OrderingConstraint>, ValenceError>)
        ensures
            r matches Ok(v) && cviews(v@) == outputs_at(self.rules_view(), 100, capabilities@)
                + outputs_at(self.rules_view(), 50, capabilities@) + outputs_at(self.rules_view(), 10, capabilities@),
    {
        let mut out: Vec<OrderingConstraint> = Vec::new();
        assert(cviews(out@) =~= Seq::<(int, Seq<Seq<char>>, u8)>::empty());
        self.run_level(100, capabilities, &mut out);
        self.run_level(50, capabilities, &mut out);
        self.run_level(10, capabilities, &mut out);
        Ok(out)
    }
}

impl OrderingConstraint {
    /// A copy of the constraint.
    pub fn clone_constraint(&self) -> (r: OrderingConstraint)
        ensures
            cview(r) == cview(*self),
    {
        match self {
            OrderingConstraint::Before { capability_a, capability_b } => OrderingConstraint::Before { capability_a: capability_a.clone(), capability_b: capability_b.clone() },
            OrderingConstraint::After { capability_a, capability_b } => OrderingConstraint::After { capability_a: capability_a.clone(), capability_b: capability_b.clone() },
            OrderingConstraint::Concurrent { capabilities } => OrderingConstraint::Concurrent { capabilities: copy_strings(capabilities) },
            OrderingConstraint::Sequential { capabilities } => OrderingConstraint::Sequential { capabilities: copy_strings(capabilities) },
            OrderingConstraint::Priority { capability, level } => OrderingConstraint::Priority { capability: capability.clone(), level: *level },
        }
    }
}

} // verus!
