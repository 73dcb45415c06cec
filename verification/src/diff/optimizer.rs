//! Optimization of diff batches, and their atomic application.

use vstd::prelude::*;
use crate::error::ValenceError;
use crate::text::{seq_lt, str_lt, lemma_seq_lt_irreflexive, lemma_seq_lt_transitive, lemma_seq_lt_total, owned, decimal, push_decimal, views, contains_string};
use crate::diff::instructions::{DiffOperation, DiffBatch, OpView, op_view, ops_view, op_size, ops_size, copy_bytes};
use crate::diff::diff_calculator::{merged_from, merge_runs, deletes_fit, op_fits, append_range, apply_ops, fits_front, fully_merged, lemma_merge_preserves_effect, lemma_merge_is_complete};

verus! {

broadcast use vstd::seq_lib::group_seq_properties;

/// Optimizes batches of diff operations.
pub struct BatchOptimizer;

/// What identifies the target of an operation: the key of a key-value
/// operation (the old key of a move), or the position of a positional one.
pub open spec fn group_key(v: OpView) -> (bool, Seq<char>, u64) {
    match v {
        OpView::Add(k, _) => (true, k, 0),
        OpView::Update(k, _, _) => (true, k, 0),
        OpView::Remove(k, _) => (true, k, 0),
        OpView::Move(k, _, _) => (true, k, 0),
        OpView::Insert(p, _) => (false, seq![], p),
        OpView::Delete(p, _) => (false, seq![], p),
        OpView::Replace(p, _) => (false, seq![], p),
    }
}

/// A later operation has the same target as operation `i`.
pub open spec fn superseded(v: Seq<OpView>, i: int) -> bool {
    exists|j: int| i < j < v.len() && #[trigger] group_key(v[j]) == group_key(v[i])
}

/// The operations among the first `n` that no later operation supersedes, in order.
pub open spec fn survivors(v: Seq<OpView>, n: int) -> Seq<OpView>
    decreases n,
{
    if n <= 0 {
        seq![]
    } else {
        survivors(v, n - 1) + if superseded(v, n - 1) { seq![] } else { seq![v[n - 1]] }
    }
}

/// The order the batch optimizer sorts by: inserts by ascending position,
/// deletes by descending position, replacements by ascending position, and
/// adds, updates and removals by key; otherwise deletes first, then
/// removals, and all other pairs equal.
pub open spec fn op_less(a: OpView, b: OpView) -> bool {
    match (a, b) {
        (OpView::Insert(p1, _), OpView::Insert(p2, _)) => p1 < p2,
        (OpView::Delete(p1, _), OpView::Delete(p2, _)) => p2 < p1,
        (OpView::Replace(p1, _), OpView::Replace(p2, _)) => p1 < p2,
        (OpView::Add(k1, _), OpView::Add(k2, _)) => seq_lt(k1, k2),
        (OpView::Update(k1, _, _), OpView::Update(k2, _, _)) => seq_lt(k1, k2),
        (OpView::Remove(k1, _), OpView::Remove(k2, _)) => seq_lt(k1, k2),
        (OpView::Delete(_, _), _) => true,
        (_, OpView::Delete(_, _)) => false,
        (OpView::Remove(_, _), _) => true,
        (_, OpView::Remove(_, _)) => false,
        _ => false,
    }
}

/// The first index from `k` whose operation `x` comes strictly before, or the length.
pub open spec fn insert_pos(s: Seq<OpView>, x: OpView, k: int) -> int
    decreases s.len() - k,
{
    if k >= s.len() || k < 0 {
        s.len() as int
    } else if op_less(x, s[k]) {
        k
    } else {
        insert_pos(s, x, k + 1)
    }
}

/// The operations stably sorted by `op_less`: each is placed after every
/// earlier one it does not come strictly before.
pub open spec fn sorted_ops(v: Seq<OpView>) -> Seq<OpView>
    decreases v.len(),
{
    if v.len() == 0 {
        seq![]
    } else {
        let s = sorted_ops(v.drop_last());
        s.insert(insert_pos(s, v.last(), 0), v.last())
    }
}

/// Every delete comes before every other operation, and the deletes run by
/// position from the highest down (so applying one never shifts the bytes
/// a later one removes).
pub open spec fn deletes_lead_descending(s: Seq<OpView>) -> bool {
    forall|a: int, b: int| 0 <= a < b < s.len() && (#[trigger] s[b]) is Delete
        ==> (#[trigger] s[a]) is Delete && s[a]->Delete_0 >= s[b]->Delete_0
}

/// Where `x` is placed: the first index from `j` it comes strictly before,
/// or the end.
proof fn lemma_insert_pos(s: Seq<OpView>, x: OpView, j: int)
    requires
        0 <= j <= s.len(),
    ensures
        j <= insert_pos(s, x, j) <= s.len(),
        forall|m: int| j <= m < insert_pos(s, x, j) ==> !op_less(x, #[trigger] s[m]),
        insert_pos(s, x, j) < s.len() ==> op_less(x, s[insert_pos(s, x, j)]),
    decreases s.len() - j,
{
    if j < s.len() && !op_less(x, s[j]) {
        lemma_insert_pos(s, x, j + 1);
    }
}

/// The stable sort keeps the deletes in front, highest position first.
proof fn lemma_sorted_deletes(v: Seq<OpView>)
    ensures
        deletes_lead_descending(sorted_ops(v)),
        sorted_ops(v).len() == v.len(),
    decreases v.len(),
{
    if v.len() > 0 {
        let s = sorted_ops(v.drop_last());
        lemma_sorted_deletes(v.drop_last());
        let x = v.last();
        lemma_insert_pos(s, x, 0);
        let k = insert_pos(s, x, 0);
        let t = s.insert(k, x);
        assert(sorted_ops(v) == t);
        assert forall|a: int, b: int| 0 <= a < b < t.len() && (#[trigger] t[b]) is Delete
            implies (#[trigger] t[a]) is Delete && t[a]->Delete_0 >= t[b]->Delete_0 by {
            if x is Delete {
                if b < k {
                    assert(t[a] == s[a] && t[b] == s[b]);
                } else if b == k {
                    assert(t[a] == s[a]);
                    assert(!op_less(x, s[a]));
                } else {
                    assert(t[b] == s[b - 1]);
                    if a < k {
                        assert(t[a] == s[a]);
                    } else if a == k {
                        assert(op_less(x, s[k]));
                        if k < b - 1 {
                            assert(s[k] is Delete && s[k]->Delete_0 >= s[b - 1]->Delete_0);
                        }
                    } else {
                        assert(t[a] == s[a - 1]);
                    }
                }
            } else {
                if b > k {
                    assert(t[b] == s[b - 1]);
                    assert(op_less(x, s[k]));
                    if k < b - 1 {
                        assert(s[k] is Delete);
                    }
                } else {
                    assert(b < k);
                    assert(t[a] == s[a] && t[b] == s[b]);
                }
            }
        }
    }
}

/// The reordered batch, and so the optimized one, puts every delete before
/// every other operation and the deletes by position from the highest down:
/// of two deletes at different positions the higher comes first.
pub proof fn lemma_deletes_reordered_descending(v: Seq<OpView>)
    ensures
        deletes_lead_descending(sorted_ops(v)),
        deletes_lead_descending(optimized(v)),
{
    lemma_sorted_deletes(v);
    if v.len() > 0 {
        let m = merged_from(v, 0, true);
        lemma_sorted_deletes(survivors(m, m.len() as int));
    }
}

/// The abstract values of a list of batches.
pub open spec fn batches_view(b: Seq<Vec<DiffOperation>>) -> Seq<Seq<OpView>> {
    b.map_values(|v: Vec<DiffOperation>| ops_view(v@))
}

/// The batches closed so far, the open batch and its size, after the
/// operations are split at `max` bytes.
pub open spec fn size_split(v: Seq<OpView>, max: nat) -> (Seq<Seq<OpView>>, Seq<OpView>, nat)
    decreases v.len(),
{
    if v.len() == 0 {
        (seq![], seq![], 0)
    } else {
        let (done, cur, size) = size_split(v.drop_last(), max);
        let x = v.last();
        if size + op_size(x) > max && cur.len() > 0 {
            (done.push(cur), seq![x], op_size(x))
        } else {
            (done, cur.push(x), size + op_size(x))
        }
    }
}

/// The operations split into batches of at most `max` bytes each, save that
/// a single larger operation gets a batch of its own.
pub open spec fn size_batches(v: Seq<OpView>, max: nat) -> Seq<Seq<OpView>> {
    let (done, cur, size) = size_split(v, max);
    if cur.len() > 0 { done.push(cur) } else { done }
}

/// The optimized batch: runs merged, superseded operations dropped, and the
/// rest sorted.
pub open spec fn optimized(v: Seq<OpView>) -> Seq<OpView> {
    if v.len() == 0 {
        v
    } else {
        let m = merged_from(v, 0, true);
        sorted_ops(survivors(m, m.len() as int))
    }
}

/// Merging adjacent operations keeps what a batch does and leaves nothing
/// to merge: where the operations, applied in order to `s`, each act on the
/// state they meet, the merged batch leaves `s` as the batch does, has no
/// more operations, and no insert in it continues the insert before it, nor
/// does a delete stand at the position of the delete before it.
pub proof fn lemma_merge_adjacent_keeps_effect(operations: Seq<OpView>, s: Seq<u8>)
    requires
        fits_front(s, operations),
    ensures
        apply_ops(s, merged_from(operations, 0, true)) == apply_ops(s, operations),
        merged_from(operations, 0, true).len() <= operations.len(),
        fully_merged(merged_from(operations, 0, true)),
{
    lemma_merge_preserves_effect(operations, s);
    lemma_merge_is_complete(operations);
}

/// The size of the open batch is at most that of the operations so far.
proof fn lemma_size_split_bound(v: Seq<OpView>, max: nat)
    ensures
        size_split(v, max).2 <= ops_size(v),
    decreases v.len(),
{
    if v.len() > 0 {
        lemma_size_split_bound(v.drop_last(), max);
    }
}

/// The key a key-value operation targets (the old key of a move); `None`
/// for a positional operation.
fn target_key(op: &DiffOperation) -> (r: Option<&String>)
    ensures
        r is Some <==> group_key(op_view(*op)).0,
        r matches Some(k) ==> k@ == group_key(op_view(*op)).1,
{
    match op {
        DiffOperation::Add { key, .. } => Some(key),
        DiffOperation::Update { key, .. } => Some(key),
        DiffOperation::Remove { key, .. } => Some(key),
        DiffOperation::Move { old_key, .. } => Some(old_key),
        _ => None,
    }
}

/// The position a positional operation targets, 0 for others.
fn target_pos(op: &DiffOperation) -> (r: u64)
    ensures
        r == group_key(op_view(*op)).2,
{
    match op {
        DiffOperation::Insert { position, .. } => *position,
        DiffOperation::Delete { position, .. } => *position,
        DiffOperation::Replace { position, .. } => *position,
        _ => 0,
    }
}

/// Whether two operations have the same target.
fn same_target(a: &DiffOperation, b: &DiffOperation) -> (r: bool)
    ensures
        r == (group_key(op_view(*a)) == group_key(op_view(*b))),
{
    match (target_key(a), target_key(b)) {
        (Some(ka), Some(kb)) => *ka == *kb,
        (None, None) => target_pos(a) == target_pos(b),
        _ => false,
    }
}

/// Whether `a` comes strictly before `b` in the optimizer's order.
fn less_op(a: &DiffOperation, b: &DiffOperation) -> (r: bool)
    ensures
        r == op_less(op_view(*a), op_view(*b)),
{
    match (a, b) {
        (DiffOperation::Insert { position: p1, .. }, DiffOperation::Insert { position: p2, .. }) => *p1 < *p2,
        (DiffOperation::Delete { position: p1, .. }, DiffOperation::Delete { position: p2, .. }) => *p2 < *p1,
        (DiffOperation::Replace { position: p1, .. }, DiffOperation::Replace { position: p2, .. }) => *p1 < *p2,
        (DiffOperation::Add { key: k1, .. }, DiffOperation::Add { key: k2, .. }) => str_lt(k1, k2),
        (DiffOperation::Update { key: k1, .. }, DiffOperation::Update { key: k2, .. }) => str_lt(k1, k2),
        (DiffOperation::Remove { key: k1, .. }, DiffOperation::Remove { key: k2, .. }) => str_lt(k1, k2),
        (DiffOperation::Delete { .. }, _) => true,
        (_, DiffOperation::Delete { .. }) => false,
        (DiffOperation::Remove { .. }, _) => true,
        (_, DiffOperation::Remove { .. }) => false,
        _ => false,
    }
}

impl BatchOptimizer {
    /// Optimizes a batch: merges runs of continuing inserts and of deletes at
    /// one position, drops each operation a later one on the same key or
    /// position supersedes, and sorts the rest.
    pub fn optimize_batch(operations: Vec<DiffOperation>) -> (r: Vec<DiffOperation>)
        requires
            deletes_fit(ops_view(operations@)),
        ensures
            ops_view(r@) == optimized(ops_view(operations@)),
            deletes_lead_descending(ops_view(r@)),
    {
        proof {
            lemma_deletes_reordered_descending(ops_view(operations@));
        }
        if operations.len() == 0 {
            return operations;
        }
        let merged = Self::merge_adjacent_operations(operations);
        let reduced = Self::eliminate_redundant_operations(merged);
        Self::reorder_operations(reduced)
    }

    /// Merges each run of inserts that continue one another into one insert
    /// and each run of deletes at one position into one delete.
    pub fn merge_adjacent_operations(operations: Vec<DiffOperation>) -> (r: Vec<DiffOperation>)
        requires
            deletes_fit(ops_view(operations@)),
        ensures
            ops_view(r@) == merged_from(ops_view(operations@), 0, true),
            fully_merged(ops_view(r@)),
            r@.len() <= operations@.len(),
    {
        proof {
            lemma_merge_is_complete(ops_view(operations@));
        }
        merge_runs(&operations, true)
    }

    /// Keeps only the last operation on each key and each position.
    pub fn eliminate_redundant_operations(operations: Vec<DiffOperation>) -> (r: Vec<DiffOperation>)
        ensures
            ops_view(r@) == survivors(ops_view(operations@), operations@.len() as int),
    {
        let ghost v = ops_view(operations@);
        let mut out: Vec<DiffOperation> = Vec::new();
        let mut i: usize = 0;
        while i < operations.len()
            invariant
                i <= operations.len(),
                v == ops_view(operations@),
                ops_view(out@) == survivors(v, i as int),
            decreases operations.len() - i,
        {
            let mut later = false;
            let mut j: usize = i + 1;
            while j < operations.len()
                invariant
                    i < j <= operations.len(),
                    v == ops_view(operations@),
                    later == exists|m: int| i < m < j && #[trigger] group_key(v[m]) == group_key(v[i as int]),
                decreases operations.len() - j,
            {
                let same = same_target(&operations[j], &operations[i]);
                assert(v[j as int] == op_view(operations@[j as int]) && v[i as int] == op_view(operations@[i as int]));
                if same {
                    later = true;
                    assert(group_key(v[j as int]) == group_key(v[i as int]));
                }
                proof {
                    if !same {
                        assert forall|m: int| i < m < j + 1 && #[trigger] group_key(v[m]) == group_key(v[i as int]) implies i < m < j by {}
                    }
                }
                j += 1;
            }
            let ghost prev = ops_view(out@);
            if !later {
                out.push(operations[i].copy_op());
                assert(ops_view(out@) =~= prev.push(v[i as int]));
            }
            i += 1;
        }
        out
    }

    /// Sorts the operations stably by the optimizer's order.
    pub fn reorder_operations(operations: Vec<DiffOperation>) -> (r: Vec<DiffOperation>)
        ensures
            ops_view(r@) == sorted_ops(ops_view(operations@)),
            deletes_lead_descending(ops_view(r@)),
    {
        proof {
            lemma_deletes_reordered_descending(ops_view(operations@));
        }
        let ghost v = ops_view(operations@);
        let mut out: Vec<DiffOperation> = Vec::new();
        let mut i: usize = 0;
        while i < operations.len()
            invariant
                i <= operations.len(),
                v == ops_view(operations@),
                ops_view(out@) == sorted_ops(v.take(i as int)),
            decreases operations.len() - i,
        {
            let ghost s = ops_view(out@);
            let ghost x = v[i as int];
            let mut k: usize = 0;
            while k < out.len() && !less_op(&operations[i], &out[k])
                invariant
                    k <= out.len(),
                    s == ops_view(out@),
                    x == op_view(operations@[i as int]),
                    i < operations.len(),
                    insert_pos(s, x, 0) == insert_pos(s, x, k as int),
                decreases out.len() - k,
            {
                k += 1;
            }
            proof {
                assert(insert_pos(s, x, k as int) == k);
            }
            out.insert(k, operations[i].copy_op());
            proof {
                assert(ops_view(out@) =~= s.insert(k as int, x));
                assert(v.take(i + 1).drop_last() =~= v.take(i as int));
                assert(v.take(i + 1).last() == x);
            }
            i += 1;
        }
        assert(v.take(operations.len() as int) =~= v);
        out
    }

    /// Splits the operations into batches of at most `max_size` bytes each;
    /// an operation larger than that gets a batch of its own.
    pub fn split_batch_by_size(operations: Vec<DiffOperation>, max_size: usize) -> (r: Vec<Vec<DiffOperation>>)
        requires
            ops_size(ops_view(operations@)) <= usize::MAX,
        ensures
            batches_view(r@) == size_batches(ops_view(operations@), max_size as nat),
    {
        let ghost v = ops_view(operations@);
        let mut batches: Vec<Vec<DiffOperation>> = Vec::new();
        let mut current: Vec<DiffOperation> = Vec::new();
        let mut current_size: usize = 0;
        let mut i: usize = 0;
        while i < operations.len()
            invariant
                i <= operations.len(),
                v == ops_view(operations@),
                ops_size(v) <= usize::MAX,
                (batches_view(batches@), ops_view(current@), current_size as nat) == size_split(v.take(i as int), max_size as nat),
            decreases operations.len() - i,
        {
            proof {
                assert(v.take(i + 1).drop_last() =~= v.take(i as int));
                crate::diff::instructions::lemma_ops_size_prefix(v, i + 1);
                lemma_size_split_bound(v.take(i as int), max_size as nat);
                assert(ops_size(v.take(i + 1)) == ops_size(v.take(i as int)) + op_size(v[i as int]));
            }
            let op_size_i = operations[i].size();
            if current_size + op_size_i > max_size && current.len() > 0 {
                let ghost prev = batches_view(batches@);
                let ghost cur = ops_view(current@);
                let full = current;
                batches.push(full);
                current = Vec::new();
                current_size = 0;
                assert(batches_view(batches@) =~= prev.push(cur));
            }
            let ghost before = ops_view(current@);
            current_size = current_size + op_size_i;
            current.push(operations[i].copy_op());
            assert(ops_view(current@) =~= before.push(v[i as int]));
            i += 1;
        }
        assert(v.take(operations.len() as int) =~= v);
        if current.len() > 0 {
            let ghost prev = batches_view(batches@);
            let ghost cur = ops_view(current@);
            batches.push(current);
            assert(batches_view(batches@) =~= prev.push(cur));
        }
        batches
    }
}

/// A log entry of an atomic batch: the operation and the state before it.
#[derive(Debug)]
pub struct TransactionEntry {
    pub operation_idx: usize,
    pub operation: DiffOperation,
    pub state_before: Vec<u8>,
}

/// The result of an atomic batch.
#[derive(Debug, Clone, Copy, PartialEq, Eq, Structural)]
pub struct AtomicResult {
    pub success: bool,
    pub operations_processed: usize,
    pub operations_failed: usize,
    pub bytes_changed: usize,
    pub error_at_index: Option<usize>,
}

/// Applies batches of diff operations all or nothing.
#[derive(Debug)]
pub struct AtomicProcessor {
    transaction_log: Vec<TransactionEntry>,
    state_snapshots: Vec<(String, Vec<u8>)>,
}

/// Why an operation is refused before it is applied: an empty insert,
/// replacement or delete, or one of more than 10240 bytes.
pub open spec fn op_error(v: OpView) -> Option<ValenceError> {
    match v {
        OpView::Insert(_, d) => if d.len() == 0 { Some(ValenceError::InvalidDiffOperation) }
            else if d.len() > 10240 { Some(ValenceError::DiffSizeExceeded) } else { None },
        OpView::Delete(_, l) => if l == 0 { Some(ValenceError::InvalidDiffOperation) }
            else if l > 10240 { Some(ValenceError::DiffSizeExceeded) } else { None },
        OpView::Replace(_, d) => if d.len() == 0 { Some(ValenceError::InvalidDiffOperation) }
            else if d.len() > 10240 { Some(ValenceError::DiffSizeExceeded) } else { None },
        _ => None,
    }
}

/// The state after one operation, or `None` where it does not fit: an
/// insert past the end, a delete past the end, a replacement from the end.
pub open spec fn apply_checked(s: Seq<u8>, v: OpView) -> Option<Seq<u8>> {
    match v {
        OpView::Insert(p, d) => if p > s.len() { None } else { Some(s.take(p as int) + d + s.skip(p as int)) },
        OpView::Delete(p, l) => if p + l > s.len() { None } else { Some(s.take(p as int) + s.skip(p + l)) },
        OpView::Replace(p, d) => if p >= s.len() { None } else {
            Some(s.take(p as int) + d + s.skip(if p + d.len() < s.len() { p + d.len() } else { s.len() as int }))
        },
        _ => Some(s),
    }
}

/// The bytes an applied operation changes.
pub open spec fn bytes_of(v: OpView) -> nat {
    match v {
        OpView::Insert(_, d) => d.len(),
        OpView::Delete(_, l) => l as nat,
        OpView::Replace(_, d) => d.len(),
        _ => 0,
    }
}

/// How an atomic batch goes.
pub enum AtomicRun {
    /// All operations so far applied.
    Running { state: Seq<u8>, applied: nat, bytes: nat },
    /// Operation `index` did not fit; the state is rolled back.
    Failed { index: nat, applied: nat },
    /// Operation `index` was refused, when the earlier ones had made `state`.
    Refused { error: ValenceError, state: Seq<u8>, index: nat },
}

/// The course of an atomic batch of operations on `s`.
pub open spec fn atomic_run(s: Seq<u8>, v: Seq<OpView>) -> AtomicRun
    decreases v.len(),
{
    if v.len() == 0 {
        AtomicRun::Running { state: s, applied: 0, bytes: 0 }
    } else {
        match atomic_run(s, v.drop_last()) {
            AtomicRun::Running { state, applied, bytes } => match op_error(v.last()) {
                Some(e) => AtomicRun::Refused { error: e, state, index: applied },
                None => match apply_checked(state, v.last()) {
                    Some(next) => AtomicRun::Running { state: next, applied: applied + 1, bytes: bytes + bytes_of(v.last()) },
                    None => AtomicRun::Failed { index: applied, applied },
                },
            },
            other => other,
        }
    }
}

/// The number of operations logged by a run.
pub open spec fn logged(r: AtomicRun) -> nat {
    match r {
        AtomicRun::Running { applied, .. } => applied,
        AtomicRun::Failed { index, .. } => index + 1,
        AtomicRun::Refused { index, .. } => index,
    }
}

/// An atomic batch that runs to its end has applied every operation, with
/// at most 10240 bytes each; one that stops, stops at an operation of the
/// batch, after applying exactly the operations before it.
pub proof fn lemma_atomic_run_counts(s: Seq<u8>, v: Seq<OpView>)
    ensures
        atomic_run(s, v) matches AtomicRun::Running { applied, bytes, .. } ==> applied == v.len() && bytes <= 10240 * applied,
        atomic_run(s, v) matches AtomicRun::Failed { index, applied } ==> index == applied && applied < v.len(),
        atomic_run(s, v) matches AtomicRun::Refused { index, .. } ==> index < v.len(),
    decreases v.len(),
{
    if v.len() > 0 {
        lemma_atomic_run_counts(s, v.drop_last());
    }
}

/// Once a batch stops, later operations change nothing.
proof fn lemma_atomic_run_stops(s: Seq<u8>, v: Seq<OpView>, k: int)
    requires
        0 <= k <= v.len(),
        !(atomic_run(s, v.take(k)) is Running),
    ensures
        atomic_run(s, v) == atomic_run(s, v.take(k)),
    decreases v.len() - k,
{
    if k < v.len() {
        assert(v.take(k + 1).drop_last() =~= v.take(k));
        assert(atomic_run(s, v.take(k + 1)) == atomic_run(s, v.take(k)));
        lemma_atomic_run_stops(s, v, k + 1);
    } else {
        assert(v.take(k) =~= v);
    }
}

impl Default for AtomicProcessor {
    fn default() -> (r: Self)
        ensures
            r.log_len() == 0,
            r.snapshots().len() == 0,
    {
        AtomicProcessor { transaction_log: Vec::new(), state_snapshots: Vec::new() }
    }
}

impl AtomicProcessor {
    /// The number of entries in the transaction log.
    pub closed spec fn log_len(&self) -> nat {
        self.transaction_log@.len()
    }

    /// The operation index of each log entry.
    pub closed spec fn log_indices(&self) -> Seq<int> {
        self.transaction_log@.map_values(|e: TransactionEntry| e.operation_idx as int)
    }

    /// The snapshots, by name.
    pub closed spec fn snapshots(&self) -> Seq<(Seq<char>, Seq<u8>)> {
        self.state_snapshots@.map_values(|e: (String, Vec<u8>)| (e.0@, e.1@))
    }

    /// A new processor with an empty log and no snapshot.
    pub fn new() -> (r: AtomicProcessor)
        ensures
            r.log_len() == 0,
            r.snapshots().len() == 0,
    {
        AtomicProcessor { transaction_log: Vec::new(), state_snapshots: Vec::new() }
    }

    /// Records `state` as the snapshot named `name`, replacing an earlier one
    /// of that name.
    fn save_snapshot(&mut self, name: &String, state: &Vec<u8>)
        ensures
            snapshot_named(final(self).snapshots(), name@) == Some(state@),
            final(self).transaction_log@ == old(self).transaction_log@,
    {
        let mut i: usize = 0;
        while i < self.state_snapshots.len()
            invariant
                i <= self.state_snapshots.len(),
                self.transaction_log@ == old(self).transaction_log@,
                forall|j: int| 0 <= j < i ==> self.state_snapshots@[j].0@ != name@,
            decreases self.state_snapshots.len() - i,
        {
            if self.state_snapshots[i].0 == *name {
                let ghost before = self.snapshots();
                self.state_snapshots.set(i, (name.clone(), copy_bytes(state)));
                proof {
                    assert(self.snapshots() =~= before.update(i as int, (name@, state@)));
                    lemma_snapshot_named_at(self.snapshots(), name@, i as int);
                }
                return;
            }
            i += 1;
        }
        let ghost before = self.snapshots();
        self.state_snapshots.push((name.clone(), copy_bytes(state)));
        proof {
            assert(self.snapshots() =~= before.push((name@, state@)));
            assert forall|j: int| 0 <= j < i implies (#[trigger] self.snapshots()[j]).0 != name@ by {
                assert(self.snapshots()[j].0 == self.state_snapshots@[j].0@);
            }
            lemma_snapshot_named_at(self.snapshots(), name@, i as int);
        }
    }

    /// Processes the operations all or nothing. Each is first checked: a
    /// refused one rolls the state back to the start and ends the batch with
    /// its error. Each is then applied: one that does not fit rolls the state
    /// back to the start and ends the batch as failed at its index. Otherwise all are applied and the result counts them and
    /// the bytes they changed.
    pub fn process_atomic_batch(&mut self, operations: &Vec<DiffOperation>, target_state: &mut Vec<u8>) -> (r: Result<AtomicResult, ValenceError>)
        requires
            operations@.len() * 10240 <= usize::MAX,
            forall|i: int| 0 <= i < operations@.len() ==> op_fits(op_view(#[trigger] operations@[i])),
        ensures
            snapshot_named(final(self).snapshots(), "main"@) == Some(old(target_state)@),
            final(self).log_len() == logged(atomic_run(old(target_state)@, ops_view(operations@))),
            forall|k: int| 0 <= k < final(self).log_len() ==> #[trigger] final(self).log_indices()[k] == k,
            match atomic_run(old(target_state)@, ops_view(operations@)) {
                AtomicRun::Running { state, applied, bytes } => final(target_state)@ == state
                    && r == Ok::<AtomicResult, ValenceError>(AtomicResult { success: true, operations_processed: applied as usize,
                        operations_failed: 0, bytes_changed: bytes as usize, error_at_index: None }),
                AtomicRun::Failed { index, applied } => final(target_state)@ == old(target_state)@
                    && r == Ok::<AtomicResult, ValenceError>(AtomicResult { success: false, operations_processed: applied as usize,
                        operations_failed: 1, bytes_changed: 0, error_at_index: Some(index as usize) }),
                AtomicRun::Refused { error, .. } => final(target_state)@ == old(target_state)@ && r == Err::<AtomicResult, ValenceError>(error),
            },
    {
        let ghost v = ops_view(operations@);
        let ghost s0 = target_state@;
        self.transaction_log.clear();
        let main = owned("main");
        self.save_snapshot(&main, target_state);
        let mut operations_applied: usize = 0;
        let mut total_bytes_changed: usize = 0;
        let mut idx: usize = 0;
        while idx < operations.len()
            invariant
                idx <= operations.len(),
                v == ops_view(operations@),
                operations@.len() * 10240 <= usize::MAX,
                forall|i: int| 0 <= i < operations@.len() ==> op_fits(op_view(#[trigger] operations@[i])),
                snapshot_named(self.snapshots(), "main"@) == Some(s0),
                s0 == old(target_state)@,
                main@ == "main"@,
                atomic_run(s0, v.take(idx as int)) == (AtomicRun::Running { state: target_state@, applied: idx as nat, bytes: total_bytes_changed as nat }),
                operations_applied == idx,
                self.log_len() == idx,
                forall|k: int| 0 <= k < self.log_len() ==> #[trigger] self.log_indices()[k] == k,
                total_bytes_changed <= 10240 * idx,
            decreases operations.len() - idx,
        {
            let ghost x = v[idx as int];
            proof {
                assert(v.take(idx + 1).drop_last() =~= v.take(idx as int));
                assert(v.take(idx + 1).last() == x);
            }
            match Self::validate_operation(&operations[idx]) {
                Ok(()) => {}
                Err(e) => {
                    let _rolled = self.rollback_to_snapshot(&main, target_state);
                    proof {
                        lemma_atomic_run_stops(s0, v, idx + 1);
                    }
                    return Err(e);
                }
            }
            let ghost before_idx = self.log_indices();
            self.transaction_log.push(TransactionEntry { operation_idx: idx, operation: operations[idx].copy_op(), state_before: copy_bytes(target_state) });
            proof {
                assert(self.log_indices() =~= before_idx.push(idx as int));
                assert forall|k: int| 0 <= k < self.log_len() implies #[trigger] self.log_indices()[k] == k by {
                    if k < before_idx.len() {
                        assert(self.log_indices()[k] == before_idx[k]);
                    }
                }
            }
            match Self::apply_single_operation(target_state, &operations[idx]) {
                Ok(bytes_changed) => {
                    operations_applied = operations_applied + 1;
                    total_bytes_changed = total_bytes_changed + bytes_changed;
                }
                Err(_e) => {
                    let rolled = self.rollback_to_snapshot(&main, target_state);
                    proof {
                        lemma_atomic_run_stops(s0, v, idx + 1);
                    }
                    return Ok(AtomicResult {
                        success: false,
                        operations_processed: operations_applied,
                        operations_failed: 1,
                        bytes_changed: 0,
                        error_at_index: Some(idx),
                    });
                }
            }
            idx += 1;
        }
        assert(v.take(operations.len() as int) =~= v);
        Ok(AtomicResult {
            success: true,
            operations_processed: operations_applied,
            operations_failed: 0,
            bytes_changed: total_bytes_changed,
            error_at_index: None,
        })
    }

    /// Applies one operation where it fits, giving the bytes it changed.
    fn apply_single_operation(state: &mut Vec<u8>, operation: &DiffOperation) -> (r: Result<usize, ValenceError>)
        requires
            op_fits(op_view(*operation)),
        ensures
            match apply_checked(old(state)@, op_view(*operation)) {
                Some(next) => final(state)@ == next && r == Ok::<usize, ValenceError>(bytes_of(op_view(*operation)) as usize),
                None => final(state)@ == old(state)@ && r == Err::<usize, ValenceError>(ValenceError::InvalidDiffOperation),
            },
    {
        let n = state.len();
        match operation {
            DiffOperation::Insert { position, data } => {
                if *position as usize > n {
                    return Err(ValenceError::InvalidDiffOperation);
                }
                let next = crate::diff::diff_calculator::apply_one(state, operation);
                *state = next;
                Ok(data.len())
            }
            DiffOperation::Delete { position, length } => {
                let start = *position as usize;
                let end = start + *length as usize;
                if end > n {
                    return Err(ValenceError::InvalidDiffOperation);
                }
                let mut r: Vec<u8> = Vec::new();
                append_range(&mut r, state, 0, start);
                append_range(&mut r, state, end, n);
                assert(state@.subrange(0, start as int) =~= state@.take(start as int));
                assert(state@.subrange(end as int, n as int) =~= state@.skip(end as int));
                *state = r;
                Ok(*length as usize)
            }
            DiffOperation::Replace { position, data } => {
                if *position as usize >= n {
                    return Err(ValenceError::InvalidDiffOperation);
                }
                let next = crate::diff::diff_calculator::apply_one(state, operation);
                *state = next;
                Ok(data.len())
            }
            _ => Ok(0),
        }
    }

    /// Checks one operation before it is applied.
    fn validate_operation(operation: &DiffOperation) -> (r: Result<(), ValenceError>)
        ensures
            match op_error(op_view(*operation)) {
                Some(e) => r == Err::<(), ValenceError>(e),
                None => r is Ok,
            },
    {
        match operation {
            DiffOperation::Insert { data, .. } | DiffOperation::Replace { data, .. } => {
                if data.len() == 0 {
                    return Err(ValenceError::InvalidDiffOperation);
                }
                if data.len() > 10240 {
                    return Err(ValenceError::DiffSizeExceeded);
                }
            }
            DiffOperation::Delete { length, .. } => {
                if *length == 0 {
                    return Err(ValenceError::InvalidDiffOperation);
                }
                if *length > 10240 {
                    return Err(ValenceError::DiffSizeExceeded);
                }
            }
            _ => {}
        }
        Ok(())
    }

    /// Restores `state` from the snapshot named `snapshot_id`; fails with
    /// `SnapshotNotFound` where there is none.
    pub fn rollback_to_snapshot(&mut self, snapshot_id: &String, state: &mut Vec<u8>) -> (r: Result<(), ValenceError>)
        ensures
            final(self).snapshots() == old(self).snapshots(),
            final(self).log_len() == old(self).log_len(),
            final(self).log_indices() == old(self).log_indices(),
            match snapshot_named(old(self).snapshots(), snapshot_id@) {
                Some(s) => final(state)@ == s && r is Ok,
                None => final(state)@ == old(state)@ && r == Err::<(), ValenceError>(ValenceError::SnapshotNotFound),
            },
    {
        let mut i: usize = 0;
        while i < self.state_snapshots.len()
            invariant
                i <= self.state_snapshots.len(),
                *self == *old(self),
                state@ == old(state)@,
                forall|j: int| 0 <= j < i ==> (#[trigger] self.snapshots()[j]).0 != snapshot_id@,
            decreases self.state_snapshots.len() - i,
        {
            if self.state_snapshots[i].0 == *snapshot_id {
                proof {
                    lemma_snapshot_named_at(self.snapshots(), snapshot_id@, i as int);
                }
                let copy = copy_bytes(&self.state_snapshots[i].1);
                *state = copy;
                return Ok(());
            }
            i += 1;
        }
        proof {
            lemma_snapshot_named_absent(self.snapshots(), snapshot_id@);
        }
        Err(ValenceError::SnapshotNotFound)
    }
}

/// The first snapshot named `name`.
pub open spec fn snapshot_named(s: Seq<(Seq<char>, Seq<u8>)>, name: Seq<char>) -> Option<Seq<u8>>
    decreases s.len(),
{
    if s.len() == 0 {
        None
    } else if s[0].0 == name {
        Some(s[0].1)
    } else {
        snapshot_named(s.drop_first(), name)
    }
}

/// The first snapshot named `name` is at `i` when none before it has that name.
proof fn lemma_snapshot_named_at(s: Seq<(Seq<char>, Seq<u8>)>, name: Seq<char>, i: int)
    requires
        0 <= i < s.len(),
        s[i].0 == name,
        forall|j: int| 0 <= j < i ==> (#[trigger] s[j]).0 != name,
    ensures
        snapshot_named(s, name) == Some(s[i].1),
    decreases i,
{
    if i > 0 {
        assert forall|j: int| 0 <= j < i - 1 implies (#[trigger] s.drop_first()[j]).0 != name by {
            assert(s.drop_first()[j] == s[j + 1]);
        }
        lemma_snapshot_named_at(s.drop_first(), name, i - 1);
    }
}

/// No snapshot has the name.
proof fn lemma_snapshot_named_absent(s: Seq<(Seq<char>, Seq<u8>)>, name: Seq<char>)
    requires
        forall|j: int| 0 <= j < s.len() ==> (#[trigger] s[j]).0 != name,
    ensures
        snapshot_named(s, name) is None,
    decreases s.len(),
{
    if s.len() > 0 {
        assert forall|j: int| 0 <= j < s.drop_first().len() implies (#[trigger] s.drop_first()[j]).0 != name by {
            assert(s.drop_first()[j] == s[j + 1]);
        }
        lemma_snapshot_named_absent(s.drop_first(), name);
    }
}


/// Optimizes batches of diff operations for speed.
pub struct PerformanceOptimizer;

/// What an optimization of a batch did.
#[derive(Debug, Clone, Copy)]
pub struct OptimizationStats {
    pub initial_operation_count: usize,
    pub final_operation_count: usize,
    pub operations_removed: usize,
    pub duplicates_removed: usize,
    pub updates_merged: usize,
    pub noops_removed: usize,
    pub size_reduction: usize,
    pub optimization_time_ms: u64,
}

/// The key an operation is told apart by: its key, its old key for a move,
/// or its position in decimal.
pub open spec fn dedup_key(v: OpView) -> Seq<char> {
    match v {
        OpView::Add(k, _) => k,
        OpView::Update(k, _, _) => k,
        OpView::Remove(k, _) => k,
        OpView::Move(k, _, _) => k,
        OpView::Insert(p, _) => decimal(p as nat),
        OpView::Delete(p, _) => decimal(p as nat),
        OpView::Replace(p, _) => decimal(p as nat),
    }
}

/// The keys of the operations.
pub open spec fn dedup_keys(v: Seq<OpView>) -> Seq<Seq<char>> {
    v.map_values(|o: OpView| dedup_key(o))
}

/// The operations whose key no earlier operation has, in order.
pub open spec fn first_of_each_key(v: Seq<OpView>) -> Seq<OpView>
    decreases v.len(),
{
    if v.len() == 0 {
        seq![]
    } else {
        let r = first_of_each_key(v.drop_last());
        if dedup_keys(v.drop_last()).contains(dedup_key(v.last())) { r } else { r.push(v.last()) }
    }
}

/// The operations with each run of updates of one key made one update, from
/// the first old value to the last new value.
pub open spec fn merged_updates(v: Seq<OpView>) -> Seq<OpView>
    decreases v.len(),
{
    if v.len() == 0 {
        seq![]
    } else {
        let r = merged_updates(v.drop_last());
        match (r.last(), v.last()) {
            (OpView::Update(k1, o, _), OpView::Update(k2, _, n)) => if r.len() > 0 && k1 == k2 {
                r.update(r.len() - 1, OpView::Update(k1, o, n))
            } else {
                r.push(v.last())
            },
            _ => r.push(v.last()),
        }
    }
}

/// The operation changes nothing: an update to the same value, a move to
/// the same key, a deletion of nothing, or an insertion or replacement of
/// no bytes.
pub open spec fn is_noop(v: OpView) -> bool {
    match v {
        OpView::Update(_, o, n) => o == n,
        OpView::Move(k1, k2, _) => k1 == k2,
        OpView::Delete(_, len) => len == 0,
        OpView::Insert(_, d) => d.len() == 0,
        OpView::Replace(_, d) => d.len() == 0,
        _ => false,
    }
}

/// The operations that change something, in order.
pub open spec fn without_noops(v: Seq<OpView>) -> Seq<OpView>
    decreases v.len(),
{
    if v.len() == 0 {
        seq![]
    } else if is_noop(v.last()) {
        without_noops(v.drop_last())
    } else {
        without_noops(v.drop_last()).push(v.last())
    }
}

/// The first index from `k` whose key comes strictly after the key of `x`, or the length.
pub open spec fn key_pos(s: Seq<OpView>, x: OpView, k: int) -> int
    decreases s.len() - k,
{
    if k >= s.len() || k < 0 {
        s.len() as int
    } else if seq_lt(dedup_key(x), dedup_key(s[k])) {
        k
    } else {
        key_pos(s, x, k + 1)
    }
}

/// The operations stably sorted by key.
pub open spec fn sorted_by_key(v: Seq<OpView>) -> Seq<OpView>
    decreases v.len(),
{
    if v.len() == 0 {
        seq![]
    } else {
        let s = sorted_by_key(v.drop_last());
        s.insert(key_pos(s, v.last(), 0), v.last())
    }
}

/// The operations after the performance optimizations: duplicates by key
/// dropped, runs of updates merged, no-ops dropped, sorted by key.
pub open spec fn performance_optimized(v: Seq<OpView>) -> Seq<OpView> {
    sorted_by_key(without_noops(merged_updates(first_of_each_key(v))))
}

/// The batches closed so far and the batch being filled, after splitting
/// the operations: a full batch (of `max` or more operations) is closed
/// before the next operation is added.
pub open spec fn split_state(v: Seq<OpView>, max: nat) -> (Seq<Seq<OpView>>, Seq<OpView>)
    decreases v.len(),
{
    if v.len() == 0 {
        (seq![], seq![])
    } else {
        let (done, cur) = split_state(v.drop_last(), max);
        if cur.len() >= max {
            (done.push(cur), seq![v.last()])
        } else {
            (done, cur.push(v.last()))
        }
    }
}

/// The operations split into batches of at most `max` operations (with an
/// empty first batch where `max` is 0).
pub open spec fn count_batches(v: Seq<OpView>, max: nat) -> Seq<Seq<OpView>> {
    let (done, cur) = split_state(v, max);
    if cur.len() > 0 { done.push(cur) } else { done }
}

/// The operations of each batch.
pub open spec fn diff_batches_view(b: Seq<DiffBatch>) -> Seq<Seq<OpView>> {
    b.map_values(|d: DiffBatch| ops_view(d.operations@))
}

/// The key an operation is told apart by.
fn dedup_key_of(op: &DiffOperation) -> (r: String)
    ensures
        r@ == dedup_key(op_view(*op)),
{
    match op {
        DiffOperation::Add { key, .. } => key.clone(),
        DiffOperation::Update { key, .. } => key.clone(),
        DiffOperation::Remove { key, .. } => key.clone(),
        DiffOperation::Move { old_key, .. } => old_key.clone(),
        DiffOperation::Insert { position, .. } | DiffOperation::Delete { position, .. } | DiffOperation::Replace { position, .. } => {
            let mut s = String::new();
            push_decimal(&mut s, *position);
            assert(s@ =~= decimal(*position as nat));
            s
        }
    }
}

/// Whether `key` comes strictly before the key of the operation at `k`.
fn key_before(key: &String, ops: &Vec<DiffOperation>, k: usize) -> (r: bool)
    requires
        k < ops@.len(),
    ensures
        r == seq_lt(key@, dedup_key(op_view(ops@[k as int]))),
{
    let other = dedup_key_of(&ops[k]);
    str_lt(key, &other)
}

/// Whether two byte vectors are equal.
fn same_bytes(a: &Vec<u8>, b: &Vec<u8>) -> (r: bool)
    ensures
        r == (a@ == b@),
{
    if a.len() != b.len() {
        return false;
    }
    let mut i: usize = 0;
    while i < a.len()
        invariant
            i <= a.len(),
            a.len() == b.len(),
            forall|j: int| 0 <= j < i ==> a@[j] == b@[j],
        decreases a.len() - i,
    {
        if a[i] != b[i] {
            return false;
        }
        i += 1;
    }
    assert(a@ =~= b@);
    true
}

/// Whether an operation changes nothing.
fn noop(op: &DiffOperation) -> (r: bool)
    ensures
        r == is_noop(op_view(*op)),
{
    match op {
        DiffOperation::Update { old_value, new_value, .. } => same_bytes(old_value, new_value),
        DiffOperation::Move { old_key, new_key, .. } => *old_key == *new_key,
        DiffOperation::Delete { length, .. } => *length == 0,
        DiffOperation::Insert { data, .. } => data.len() == 0,
        DiffOperation::Replace { data, .. } => data.len() == 0,
        _ => false,
    }
}

impl PerformanceOptimizer {
    /// Drops each operation whose key an earlier operation has; gives how
    /// many were dropped.
    fn remove_duplicates(operations: &mut Vec<DiffOperation>) -> (r: usize)
        ensures
            ops_view(final(operations)@) == first_of_each_key(ops_view(old(operations)@)),
            r == old(operations)@.len() - final(operations)@.len(),
    {
        let ghost v = ops_view(operations@);
        let n = operations.len();
        let mut kept: Vec<DiffOperation> = Vec::new();
        let mut seen: Vec<String> = Vec::new();
        let mut i: usize = 0;
        while i < n
            invariant
                i <= n,
                n == operations@.len(),
                v == ops_view(operations@),
                ops_view(kept@) == first_of_each_key(v.take(i as int)),
                kept@.len() <= i,
                views(seen@) == dedup_keys(v.take(i as int)),
            decreases n - i,
        {
            let key = dedup_key_of(&operations[i]);
            proof {
                assert(v.take(i + 1).drop_last() =~= v.take(i as int));
                assert(v.take(i + 1).last() == v[i as int]);
                assert(dedup_keys(v.take(i + 1)) =~= dedup_keys(v.take(i as int)).push(dedup_key(v[i as int])));
                lemma_first_len(v.take(i as int));
            }
            if !contains_string(&seen, &key) {
                let ghost prev = kept@;
                kept.push(operations[i].copy_op());
                assert(ops_view(kept@) =~= ops_view(prev).push(v[i as int]));
            }
            let ghost prev_seen = seen@;
            seen.push(key);
            assert(views(seen@) =~= views(prev_seen).push(dedup_key(v[i as int])));
            i += 1;
        }
        assert(v.take(n as int) =~= v);
        let removed = n - kept.len();
        *operations = kept;
        removed
    }

    /// Makes each run of updates of one key one update; gives how many
    /// updates were merged away.
    fn merge_consecutive_updates(operations: &mut Vec<DiffOperation>) -> (r: usize)
        ensures
            ops_view(final(operations)@) == merged_updates(ops_view(old(operations)@)),
            r == old(operations)@.len() - final(operations)@.len(),
    {
        let ghost v = ops_view(operations@);
        let n = operations.len();
        let mut out: Vec<DiffOperation> = Vec::new();
        let mut i: usize = 0;
        while i < n
            invariant
                i <= n,
                n == operations@.len(),
                v == ops_view(operations@),
                ops_view(out@) == merged_updates(v.take(i as int)),
                out@.len() <= i,
            decreases n - i,
        {
            proof {
                assert(v.take(i + 1).drop_last() =~= v.take(i as int));
                assert(v.take(i + 1).last() == v[i as int]);
            }
            let ghost r = ops_view(out@);
            let last = out.len();
            let mut merged = false;
            if last > 0 {
                if let DiffOperation::Update { key: k2, new_value, .. } = &operations[i] {
                    let prev = out.remove(last - 1);
                    let restored = match prev {
                        DiffOperation::Update { key: k1, old_value, new_value: pv } => {
                            if k1 == *k2 {
                                merged = true;
                                DiffOperation::Update { key: k1, old_value, new_value: copy_bytes(new_value) }
                            } else {
                                DiffOperation::Update { key: k1, old_value, new_value: pv }
                            }
                        }
                        other => other,
                    };
                    out.push(restored);
                    if merged {
                        assert(ops_view(out@) =~= r.update(r.len() - 1, OpView::Update(r.last()->Update_0, r.last()->Update_1, new_value@)));
                    } else {
                        assert(ops_view(out@) =~= r);
                    }
                }
            }
            if !merged {
                let ghost before = ops_view(out@);
                out.push(operations[i].copy_op());
                assert(ops_view(out@) =~= before.push(v[i as int]));
            }
            i += 1;
        }
        assert(v.take(n as int) =~= v);
        let merged_count = n - out.len();
        *operations = out;
        merged_count
    }

    /// Drops the operations that change nothing; gives how many.
    fn remove_noops(operations: &mut Vec<DiffOperation>) -> (r: usize)
        ensures
            ops_view(final(operations)@) == without_noops(ops_view(old(operations)@)),
            r == old(operations)@.len() - final(operations)@.len(),
    {
        let ghost v = ops_view(operations@);
        let n = operations.len();
        let mut kept: Vec<DiffOperation> = Vec::new();
        let mut i: usize = 0;
        while i < n
            invariant
                i <= n,
                n == operations@.len(),
                v == ops_view(operations@),
                ops_view(kept@) == without_noops(v.take(i as int)),
                kept@.len() <= i,
            decreases n - i,
        {
            proof {
                assert(v.take(i + 1).drop_last() =~= v.take(i as int));
                assert(v.take(i + 1).last() == v[i as int]);
            }
            if !noop(&operations[i]) {
                let ghost prev = kept@;
                kept.push(operations[i].copy_op());
                assert(ops_view(kept@) =~= ops_view(prev).push(v[i as int]));
            }
            i += 1;
        }
        assert(v.take(n as int) =~= v);
        let removed = n - kept.len();
        *operations = kept;
        removed
    }

    /// Sorts the operations stably by key.
    fn sort_for_locality(operations: &mut Vec<DiffOperation>)
        ensures
            ops_view(final(operations)@) == sorted_by_key(ops_view(old(operations)@)),
    {
        let ghost v = ops_view(operations@);
        let n = operations.len();
        let mut out: Vec<DiffOperation> = Vec::new();
        let mut i: usize = 0;
        while i < n
            invariant
                i <= n,
                n == operations@.len(),
                v == ops_view(operations@),
                ops_view(out@) == sorted_by_key(v.take(i as int)),
            decreases n - i,
        {
            let ghost s = ops_view(out@);
            let ghost x = v[i as int];
            let key = dedup_key_of(&operations[i]);
            let mut k: usize = 0;
            while k < out.len() && !key_before(&key, &out, k)
                invariant
                    k <= out.len(),
                    s == ops_view(out@),
                    key@ == dedup_key(x),
                    key_pos(s, x, 0) == key_pos(s, x, k as int),
                decreases out.len() - k,
            {
                k += 1;
            }
            assert(key_pos(s, x, k as int) == k);
            out.insert(k, operations[i].copy_op());
            proof {
                assert(ops_view(out@) =~= s.insert(k as int, x));
                assert(v.take(i + 1).drop_last() =~= v.take(i as int));
                assert(v.take(i + 1).last() == x);
            }
            i += 1;
        }
        assert(v.take(n as int) =~= v);
        *operations = out;
    }

    /// Drops duplicate operations by key, merges runs of updates of one key,
    /// drops no-ops and sorts by key; reports the counts and the size saved.
    pub fn optimize_batch(batch: &mut DiffBatch) -> (r: Result<OptimizationStats, ValenceError>)
        requires
            ops_size(ops_view(old(batch).operations@)) <= usize::MAX,
            ops_size(performance_optimized(ops_view(old(batch).operations@))) <= usize::MAX,
        ensures
            ops_view(final(batch).operations@) == performance_optimized(ops_view(old(batch).operations@)),
            final(batch).batch_id == old(batch).batch_id && final(batch).created_at == old(batch).created_at
                && final(batch).source == old(batch).source && final(batch).target == old(batch).target,
            r matches Ok(s) && s.initial_operation_count == old(batch).operations@.len()
                && s.final_operation_count == final(batch).operations@.len()
                && s.operations_removed == old(batch).operations@.len() - final(batch).operations@.len()
                && s.duplicates_removed == old(batch).operations@.len() - first_of_each_key(ops_view(old(batch).operations@)).len()
                && s.updates_merged == first_of_each_key(ops_view(old(batch).operations@)).len()
                    - merged_updates(first_of_each_key(ops_view(old(batch).operations@))).len()
                && s.noops_removed == merged_updates(first_of_each_key(ops_view(old(batch).operations@))).len()
                    - without_noops(merged_updates(first_of_each_key(ops_view(old(batch).operations@)))).len()
                && s.size_reduction == (if ops_size(ops_view(old(batch).operations@)) >= ops_size(performance_optimized(ops_view(old(batch).operations@))) {
                    ops_size(ops_view(old(batch).operations@)) - ops_size(performance_optimized(ops_view(old(batch).operations@)))
                } else { 0 })
                && s.optimization_time_ms == 0,
    {
        let initial_count = batch.operations.len();
        let initial_size = batch.total_size();
        let duplicates_removed = Self::remove_duplicates(&mut batch.operations);
        let updates_merged = Self::merge_consecutive_updates(&mut batch.operations);
        let noops_removed = Self::remove_noops(&mut batch.operations);
        Self::sort_for_locality(&mut batch.operations);
        let final_count = batch.operations.len();
        proof {
            lemma_sorted_len(without_noops(merged_updates(first_of_each_key(ops_view(old(batch).operations@)))));
        }
        let final_size = batch.total_size();
        Ok(OptimizationStats {
            initial_operation_count: initial_count,
            final_operation_count: final_count,
            operations_removed: initial_count - final_count,
            duplicates_removed,
            updates_merged,
            noops_removed,
            size_reduction: initial_size.saturating_sub(final_size),
            optimization_time_ms: 0,
        })
    }

    /// The gas a batch costs: 1000, plus 100 per operation and 10 per byte.
    pub fn estimate_gas_cost(batch: &DiffBatch) -> (r: u64)
        requires
            ops_size(ops_view(batch.operations@)) <= usize::MAX,
            1000 + batch.operations@.len() * 100 + ops_size(ops_view(batch.operations@)) * 10 <= u64::MAX,
        ensures
            r == 1000 + batch.operations@.len() * 100 + ops_size(ops_view(batch.operations@)) * 10,
    {
        let base_cost = 1000u64;
        let per_operation_cost = 100u64;
        let per_byte_cost = 10u64;
        let size = batch.total_size();
        base_cost + (batch.operations.len() as u64 * per_operation_cost) + (size as u64 * per_byte_cost)
    }

    /// Whether the batch has more operations or bytes than allowed.
    pub fn should_split_batch(batch: &DiffBatch, max_operations: usize, max_size: usize) -> (r: bool)
        requires
            ops_size(ops_view(batch.operations@)) <= usize::MAX,
        ensures
            r == (batch.operations@.len() > max_operations || ops_size(ops_view(batch.operations@)) > max_size),
    {
        batch.operations.len() > max_operations || batch.total_size() > max_size
    }

    /// Splits the batch into batches of at most `max_operations` operations,
    /// each with the batch's source and target: see `count_batches`.
    pub fn split_batch(batch: DiffBatch, max_operations: usize) -> (r: Vec<DiffBatch>)
        ensures
            diff_batches_view(r@) == count_batches(ops_view(batch.operations@), max_operations as nat),
            forall|i: int| 0 <= i < r@.len() ==> (#[trigger] r@[i]).source == batch.source && r@[i].target == batch.target,
    {
        let ghost v = ops_view(batch.operations@);
        let mut batches: Vec<DiffBatch> = Vec::new();
        let mut current = DiffBatch::new(batch.source, batch.target);
        let mut i: usize = 0;
        let n = batch.operations.len();
        assert(diff_batches_view(batches@) =~= Seq::<Seq<OpView>>::empty());
        assert(ops_view(current.operations@) =~= Seq::<OpView>::empty());
        while i < n
            invariant
                i <= n,
                n == batch.operations@.len(),
                v == ops_view(batch.operations@),
                (diff_batches_view(batches@), ops_view(current.operations@)) == split_state(v.take(i as int), max_operations as nat),
                current.source == batch.source && current.target == batch.target,
                forall|j: int| 0 <= j < batches@.len() ==> (#[trigger] batches@[j]).source == batch.source && batches@[j].target == batch.target,
            decreases n - i,
        {
            proof {
                assert(v.take(i + 1).drop_last() =~= v.take(i as int));
                assert(v.take(i + 1).last() == v[i as int]);
            }
            if current.operations.len() >= max_operations {
                let ghost prev = diff_batches_view(batches@);
                let ghost cur = ops_view(current.operations@);
                let full = current;
                batches.push(full);
                current = DiffBatch::new(batch.source, batch.target);
                assert(diff_batches_view(batches@) =~= prev.push(cur));
                assert(ops_view(current.operations@) =~= Seq::<OpView>::empty());
            }
            let ghost before = ops_view(current.operations@);
            current.add_operation(batch.operations[i].copy_op());
            assert(ops_view(current.operations@) =~= before.push(v[i as int]));
            i += 1;
        }
        assert(v.take(n as int) =~= v);
        if current.operations.len() > 0 {
            let ghost prev = diff_batches_view(batches@);
            let ghost cur = ops_view(current.operations@);
            batches.push(current);
            assert(diff_batches_view(batches@) =~= prev.push(cur));
        }
        batches
    }
}

/// No two operations have the same key.
pub open spec fn keys_distinct(v: Seq<OpView>) -> bool {
    forall|i: int, j: int| 0 <= i < j < v.len() ==> dedup_key(#[trigger] v[i]) != dedup_key(#[trigger] v[j])
}

/// Every operation of `r` is one of `v`.
pub open spec fn drawn_from(r: Seq<OpView>, v: Seq<OpView>) -> bool {
    forall|i: int| 0 <= i < r.len() ==> v.contains(#[trigger] r[i])
}

/// An operation drawn from `v` has a key of `v`.
proof fn lemma_drawn_key(r: Seq<OpView>, v: Seq<OpView>, i: int)
    requires
        drawn_from(r, v),
        0 <= i < r.len(),
    ensures
        dedup_keys(v).contains(dedup_key(r[i])),
{
    assert(v.contains(r[i]));
    let j = choose|j: int| 0 <= j < v.len() && v[j] == r[i];
    assert(dedup_keys(v)[j] == dedup_key(r[i]));
}

/// Keeping the first of each key leaves distinct keys, drawn from the input.
proof fn lemma_first_distinct(v: Seq<OpView>)
    ensures
        keys_distinct(first_of_each_key(v)),
        drawn_from(first_of_each_key(v), v),
    decreases v.len(),
{
    if v.len() > 0 {
        let p = v.drop_last();
        lemma_first_distinct(p);
        let r = first_of_each_key(p);
        assert forall|i: int| 0 <= i < r.len() implies v.contains(#[trigger] r[i]) by {
            assert(p.contains(r[i]));
            let j = choose|j: int| 0 <= j < p.len() && p[j] == r[i];
            assert(v[j] == r[i]);
        }
        if !dedup_keys(p).contains(dedup_key(v.last())) {
            let q = r.push(v.last());
            assert forall|i: int, j: int| 0 <= i < j < q.len() implies dedup_key(#[trigger] q[i]) != dedup_key(#[trigger] q[j]) by {
                if j == q.len() - 1 {
                    lemma_drawn_key(r, p, i);
                }
            }
            assert(v.contains(v.last()) && v[v.len() - 1] == v.last());
        }
    }
}

/// Runs of updates of one key do not occur where keys are distinct, so
/// merging them changes nothing.
proof fn lemma_merge_distinct(v: Seq<OpView>)
    requires
        keys_distinct(v),
    ensures
        merged_updates(v) == v,
    decreases v.len(),
{
    if v.len() > 0 {
        let p = v.drop_last();
        lemma_merge_distinct(p);
        if p.len() > 0 {
            assert(dedup_key(p.last()) != dedup_key(v.last()));
        }
        assert(p.push(v.last()) =~= v);
    }
}

/// Dropping no-ops keeps distinct keys, leaves no no-op and draws from the input.
proof fn lemma_noops_distinct(v: Seq<OpView>)
    ensures
        keys_distinct(v) ==> keys_distinct(without_noops(v)),
        drawn_from(without_noops(v), v),
        forall|i: int| 0 <= i < without_noops(v).len() ==> !is_noop(#[trigger] without_noops(v)[i]),
        without_noops(v).len() <= v.len(),
    decreases v.len(),
{
    if v.len() > 0 {
        let p = v.drop_last();
        lemma_noops_distinct(p);
        let r = without_noops(p);
        assert forall|i: int| 0 <= i < r.len() implies v.contains(#[trigger] r[i]) by {
            assert(p.contains(r[i]));
            let j = choose|j: int| 0 <= j < p.len() && p[j] == r[i];
            assert(v[j] == r[i]);
        }
        if !is_noop(v.last()) {
            let q = r.push(v.last());
            assert(v[v.len() - 1] == v.last());
            if keys_distinct(v) {
                assert(keys_distinct(p)) by {
                    assert forall|i: int, j: int| 0 <= i < j < p.len() implies dedup_key(#[trigger] p[i]) != dedup_key(#[trigger] p[j]) by {
                        assert(p[i] == v[i] && p[j] == v[j]);
                    }
                }
                assert forall|i: int, j: int| 0 <= i < j < q.len() implies dedup_key(#[trigger] q[i]) != dedup_key(#[trigger] q[j]) by {
                    if j == q.len() - 1 {
                        assert(p.contains(r[i]));
                        let k = choose|k: int| 0 <= k < p.len() && p[k] == r[i];
                        assert(v[k] == p[k]);
                        assert(dedup_key(v[k]) != dedup_key(v[v.len() - 1]));
                    }
                }
            }
        }
    }
}

/// Sorting by key keeps the number of operations and distinct keys, and
/// draws from the input.
proof fn lemma_sorted_distinct(v: Seq<OpView>)
    ensures
        sorted_by_key(v).len() == v.len(),
        keys_distinct(v) ==> keys_distinct(sorted_by_key(v)),
        drawn_from(sorted_by_key(v), v),
    decreases v.len(),
{
    lemma_sorted_len(v);
    if v.len() > 0 {
        let p = v.drop_last();
        lemma_sorted_distinct(p);
        let s = sorted_by_key(p);
        let k = key_pos(s, v.last(), 0);
        lemma_key_pos_bound(s, v.last(), 0);
        let q = s.insert(k, v.last());
        assert(q == sorted_by_key(v));
        assert(v[v.len() - 1] == v.last());
        assert forall|i: int| 0 <= i < q.len() implies v.contains(#[trigger] q[i]) by {
            if i < k {
                assert(q[i] == s[i]);
                assert(p.contains(s[i]));
                let j = choose|j: int| 0 <= j < p.len() && p[j] == s[i];
                assert(v[j] == s[i]);
            } else if i > k {
                assert(q[i] == s[i - 1]);
                assert(p.contains(s[i - 1]));
                let j = choose|j: int| 0 <= j < p.len() && p[j] == s[i - 1];
                assert(v[j] == s[i - 1]);
            }
        }
        if keys_distinct(v) {
            assert(keys_distinct(p)) by {
                assert forall|i: int, j: int| 0 <= i < j < p.len() implies dedup_key(#[trigger] p[i]) != dedup_key(#[trigger] p[j]) by {
                    assert(p[i] == v[i] && p[j] == v[j]);
                }
            }
            assert forall|i: int| 0 <= i < s.len() implies dedup_key(#[trigger] s[i]) != dedup_key(v.last()) by {
                assert(p.contains(s[i]));
                let j = choose|j: int| 0 <= j < p.len() && p[j] == s[i];
                assert(v[j] == p[j]);
                assert(dedup_key(v[j]) != dedup_key(v[v.len() - 1]));
            }
            assert forall|i: int, j: int| 0 <= i < j < q.len() implies dedup_key(#[trigger] q[i]) != dedup_key(#[trigger] q[j]) by {
                if j < k {
                    assert(q[i] == s[i] && q[j] == s[j]);
                } else if j == k {
                    assert(q[i] == s[i]);
                } else if i < k {
                    assert(q[i] == s[i] && q[j] == s[j - 1]);
                } else if i == k {
                    assert(q[j] == s[j - 1]);
                } else {
                    assert(q[i] == s[i - 1] && q[j] == s[j - 1]);
                }
            }
        }
    }
}

/// No operation's key comes strictly before the key of an earlier one.
pub open spec fn keys_sorted(v: Seq<OpView>) -> bool {
    forall|i: int, j: int| 0 <= i < j < v.len() ==> !seq_lt(dedup_key(#[trigger] v[j]), dedup_key(#[trigger] v[i]))
}

/// The insertion index is after every operation whose key `x`'s does not
/// come strictly before, up to the first whose key it does.
proof fn lemma_key_pos(s: Seq<OpView>, x: OpView, k: int)
    requires
        0 <= k <= s.len(),
    ensures
        forall|i: int| k <= i < key_pos(s, x, k) ==> !seq_lt(dedup_key(x), dedup_key(#[trigger] s[i])),
        key_pos(s, x, k) < s.len() ==> seq_lt(dedup_key(x), dedup_key(s[key_pos(s, x, k)])),
    decreases s.len() - k,
{
    if k < s.len() && !seq_lt(dedup_key(x), dedup_key(s[k])) {
        lemma_key_pos(s, x, k + 1);
    }
}

/// Sorting by key leaves the keys in order.
proof fn lemma_sorted_by_key_sorted(v: Seq<OpView>)
    ensures
        keys_sorted(sorted_by_key(v)),
    decreases v.len(),
{
    if v.len() > 0 {
        let p = v.drop_last();
        lemma_sorted_by_key_sorted(p);
        let s = sorted_by_key(p);
        let x = v.last();
        lemma_key_pos_bound(s, x, 0);
        lemma_key_pos(s, x, 0);
        let k = key_pos(s, x, 0);
        let q = s.insert(k, x);
        assert(q == sorted_by_key(v));
        assert forall|i: int, j: int| 0 <= i < j < q.len() implies !seq_lt(dedup_key(#[trigger] q[j]), dedup_key(#[trigger] q[i])) by {
            if j < k {
                assert(q[i] == s[i] && q[j] == s[j]);
            } else if j == k {
                assert(q[i] == s[i]);
                assert(!seq_lt(dedup_key(x), dedup_key(s[i])));
            } else if i < k {
                assert(q[i] == s[i] && q[j] == s[j - 1]);
            } else if i == k {
                assert(q[j] == s[j - 1]);
                assert(seq_lt(dedup_key(x), dedup_key(s[k])));
                if seq_lt(dedup_key(s[j - 1]), dedup_key(x)) {
                    lemma_seq_lt_transitive(dedup_key(s[j - 1]), dedup_key(x), dedup_key(s[k]));
                    if k == j - 1 {
                        lemma_seq_lt_irreflexive(dedup_key(s[k]));
                    } else {
                        assert(!seq_lt(dedup_key(s[j - 1]), dedup_key(s[k])));
                    }
                }
            } else {
                assert(q[i] == s[i - 1] && q[j] == s[j - 1]);
            }
        }
    }
}

/// The performance optimizations leave the operations sorted by key, each
/// key once: every key comes strictly after the one before it.
pub proof fn lemma_performance_optimized_sorted(v: Seq<OpView>)
    ensures
        keys_sorted(performance_optimized(v)),
        forall|i: int, j: int| 0 <= i < j < performance_optimized(v).len()
            ==> seq_lt(dedup_key(#[trigger] performance_optimized(v)[i]), dedup_key(#[trigger] performance_optimized(v)[j])),
{
    lemma_sorted_by_key_sorted(without_noops(merged_updates(first_of_each_key(v))));
    lemma_performance_optimized_shrinks(v);
    let r = performance_optimized(v);
    assert forall|i: int, j: int| 0 <= i < j < r.len() implies seq_lt(dedup_key(#[trigger] r[i]), dedup_key(#[trigger] r[j])) by {
        lemma_seq_lt_total(dedup_key(r[i]), dedup_key(r[j]));
    }
}

/// Where the duplicates by key are dropped first, no run of updates of one
/// key is left, so the merge step never merges anything.
pub proof fn lemma_dedup_leaves_nothing_to_merge(v: Seq<OpView>)
    ensures
        merged_updates(first_of_each_key(v)) == first_of_each_key(v),
{
    lemma_first_distinct(v);
    lemma_merge_distinct(first_of_each_key(v));
}

/// The performance optimizations never add an operation: what they keep
/// are operations of the batch, no two with the same key, none a no-op, and
/// at most as many as there were.
pub proof fn lemma_performance_optimized_shrinks(v: Seq<OpView>)
    ensures
        performance_optimized(v).len() <= v.len(),
        keys_distinct(performance_optimized(v)),
        drawn_from(performance_optimized(v), v),
        forall|i: int| 0 <= i < performance_optimized(v).len() ==> !is_noop(#[trigger] performance_optimized(v)[i]),
{
    let f = first_of_each_key(v);
    lemma_first_len(v);
    lemma_dedup_leaves_nothing_to_merge(v);
    lemma_first_distinct(v);
    lemma_noops_distinct(f);
    let w = without_noops(f);
    lemma_sorted_distinct(w);
    let r = sorted_by_key(w);
    assert(r == performance_optimized(v));
    assert forall|i: int| 0 <= i < r.len() implies v.contains(#[trigger] r[i]) && !is_noop(r[i]) by {
        assert(w.contains(r[i]));
        let j = choose|j: int| 0 <= j < w.len() && w[j] == r[i];
        assert(!is_noop(w[j]));
        assert(f.contains(w[j]));
        let k = choose|k: int| 0 <= k < f.len() && f[k] == w[j];
        assert(v.contains(f[k]));
    }
}

/// Keeping the first of each key keeps at most all operations.
proof fn lemma_first_len(v: Seq<OpView>)
    ensures
        first_of_each_key(v).len() <= v.len(),
    decreases v.len(),
{
    if v.len() > 0 {
        lemma_first_len(v.drop_last());
    }
}

/// Sorting keeps the number of operations.
proof fn lemma_sorted_len(v: Seq<OpView>)
    ensures
        sorted_by_key(v).len() == v.len(),
    decreases v.len(),
{
    if v.len() > 0 {
        lemma_sorted_len(v.drop_last());
        let s = sorted_by_key(v.drop_last());
        lemma_key_pos_bound(s, v.last(), 0);
    }
}

/// The insertion index lies within the sequence.
proof fn lemma_key_pos_bound(s: Seq<OpView>, x: OpView, k: int)
    requires
        0 <= k <= s.len(),
    ensures
        k <= key_pos(s, x, k) <= s.len(),
    decreases s.len() - k,
{
    if k < s.len() && !seq_lt(dedup_key(x), dedup_key(s[k])) {
        lemma_key_pos_bound(s, x, k + 1);
    }
}

} // verus!
