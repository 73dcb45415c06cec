//! Diff operations, batches of them, and the diff account's instructions.

use vstd::prelude::*;
use crate::error::ValenceError;
use crate::pubkey::Pubkey;
use crate::runtime::clock_unix_timestamp;
use crate::text::{views, owned, decimal, push_decimal, byte_len, str_byte_len};

verus! {

broadcast use vstd::seq_lib::group_seq_properties;

/// One operation of a diff: positional edits of a byte string, or edits of
/// a key-value store.
#[derive(Debug)]
pub enum DiffOperation {
    /// Insert `data` at `position`.
    Insert { position: u64, data: Vec<u8> },
    /// Delete `length` bytes at `position`.
    Delete { position: u64, length: u64 },
    /// Overwrite the bytes from `position` with `data`.
    Replace { position: u64, data: Vec<u8> },
    /// Add a value under a new key.
    Add { key: String, value: Vec<u8> },
    /// Change the value under a key.
    Update { key: String, old_value: Vec<u8>, new_value: Vec<u8> },
    /// Remove a key and its value.
    Remove { key: String, value: Vec<u8> },
    /// Move a value to another key.
    Move { old_key: String, new_key: String, value: Vec<u8> },
}

/// The abstract value of a diff operation.
pub enum OpView {
    Insert(u64, Seq<u8>),
    Delete(u64, u64),
    Replace(u64, Seq<u8>),
    Add(Seq<char>, Seq<u8>),
    Update(Seq<char>, Seq<u8>, Seq<u8>),
    Remove(Seq<char>, Seq<u8>),
    Move(Seq<char>, Seq<char>, Seq<u8>),
}

/// The abstract value of an operation.
pub open spec fn op_view(op: DiffOperation) -> OpView {
    match op {
        DiffOperation::Insert { position, data } => OpView::Insert(position, data@),
        DiffOperation::Delete { position, length } => OpView::Delete(position, length),
        DiffOperation::Replace { position, data } => OpView::Replace(position, data@),
        DiffOperation::Add { key, value } => OpView::Add(key@, value@),
        DiffOperation::Update { key, old_value, new_value } => OpView::Update(key@, old_value@, new_value@),
        DiffOperation::Remove { key, value } => OpView::Remove(key@, value@),
        DiffOperation::Move { old_key, new_key, value } => OpView::Move(old_key@, new_key@, value@),
    }
}

/// The abstract values of operations.
pub open spec fn ops_view(ops: Seq<DiffOperation>) -> Seq<OpView> {
    ops.map_values(|op: DiffOperation| op_view(op))
}

/// The size of an operation: the bytes it carries or deletes, and the bytes of its keys.
pub open spec fn op_size(v: OpView) -> nat {
    match v {
        OpView::Insert(_, d) => d.len(),
        OpView::Delete(_, len) => len as nat,
        OpView::Replace(_, d) => d.len(),
        OpView::Add(k, val) => byte_len(k) + val.len(),
        OpView::Update(k, o, n) => byte_len(k) + o.len() + n.len(),
        OpView::Remove(k, val) => byte_len(k) + val.len(),
        OpView::Move(k1, k2, val) => byte_len(k1) + byte_len(k2) + val.len(),
    }
}

/// The total size of operations.
pub open spec fn ops_size(v: Seq<OpView>) -> nat
    decreases v.len(),
{
    if v.len() == 0 {
        0
    } else {
        ops_size(v.drop_last()) + op_size(v.last())
    }
}

/// Two operations conflict: two adds, two updates, or an update and a
/// removal of one key, or a move onto a key that is added.
pub open spec fn ops_conflict(a: OpView, b: OpView) -> bool {
    match (a, b) {
        (OpView::Add(k1, _), OpView::Add(k2, _)) => k1 == k2,
        (OpView::Update(k1, _, _), OpView::Update(k2, _, _)) => k1 == k2,
        (OpView::Remove(k1, _), OpView::Update(k2, _, _)) => k1 == k2,
        (OpView::Update(k1, _, _), OpView::Remove(k2, _)) => k1 == k2,
        (OpView::Move(_, k1, _), OpView::Add(k2, _)) => k1 == k2,
        _ => false,
    }
}

/// Copies a byte vector.
pub fn copy_bytes(v: &Vec<u8>) -> (r: Vec<u8>)
    ensures
        r@ == v@,
{
    let mut r: Vec<u8> = Vec::new();
    let mut i: usize = 0;
    while i < v.len()
        invariant
            i <= v.len(),
            r@ == v@.take(i as int),
        decreases v.len() - i,
    {
        r.push(v[i]);
        assert(r@ =~= v@.take(i + 1));
        i += 1;
    }
    assert(v@.take(v.len() as int) =~= v@);
    r
}

impl DiffOperation {
    /// A copy of the operation.
    pub fn copy_op(&self) -> (r: DiffOperation)
        ensures
            op_view(r) == op_view(*self),
    {
        match self {
            DiffOperation::Insert { position, data } => DiffOperation::Insert { position: *position, data: copy_bytes(data) },
            DiffOperation::Delete { position, length } => DiffOperation::Delete { position: *position, length: *length },
            DiffOperation::Replace { position, data } => DiffOperation::Replace { position: *position, data: copy_bytes(data) },
            DiffOperation::Add { key, value } => DiffOperation::Add { key: key.clone(), value: copy_bytes(value) },
            DiffOperation::Update { key, old_value, new_value } =>
                DiffOperation::Update { key: key.clone(), old_value: copy_bytes(old_value), new_value: copy_bytes(new_value) },
            DiffOperation::Remove { key, value } => DiffOperation::Remove { key: key.clone(), value: copy_bytes(value) },
            DiffOperation::Move { old_key, new_key, value } =>
                DiffOperation::Move { old_key: old_key.clone(), new_key: new_key.clone(), value: copy_bytes(value) },
        }
    }

    /// The size of the operation.
    pub fn size(&self) -> (r: usize)
        requires
            op_size(op_view(*self)) <= usize::MAX,
        ensures
            r == op_size(op_view(*self)),
    {
        match self {
            DiffOperation::Insert { data, .. } => data.len(),
            DiffOperation::Delete { length, .. } => *length as usize,
            DiffOperation::Replace { data, .. } => data.len(),
            DiffOperation::Add { key, value } => str_byte_len(key) + value.len(),
            DiffOperation::Update { key, old_value, new_value } => str_byte_len(key) + old_value.len() + new_value.len(),
            DiffOperation::Remove { key, value } => str_byte_len(key) + value.len(),
            DiffOperation::Move { old_key, new_key, value } => str_byte_len(old_key) + str_byte_len(new_key) + value.len(),
        }
    }

    /// Whether this operation conflicts with `other`.
    pub fn conflicts_with(&self, other: &DiffOperation) -> (r: bool)
        ensures
            r == ops_conflict(op_view(*self), op_view(*other)),
    {
        match (self, other) {
            (DiffOperation::Add { key: k1, .. }, DiffOperation::Add { key: k2, .. }) => *k1 == *k2,
            (DiffOperation::Update { key: k1, .. }, DiffOperation::Update { key: k2, .. }) => *k1 == *k2,
            (DiffOperation::Remove { key: k1, .. }, DiffOperation::Update { key: k2, .. }) => *k1 == *k2,
            (DiffOperation::Update { key: k1, .. }, DiffOperation::Remove { key: k2, .. }) => *k1 == *k2,
            (DiffOperation::Move { new_key: k1, .. }, DiffOperation::Add { key: k2, .. }) => *k1 == *k2,
            _ => false,
        }
    }
}

/// A batch of diff operations.
#[derive(Debug)]
pub struct DiffBatch {
    pub batch_id: [u8; 32],
    pub operations: Vec<DiffOperation>,
    pub created_at: i64,
    /// Source of the diff.
    pub source: Pubkey,
    /// Target of the diff.
    pub target: Pubkey,
}

/// The result of processing a diff.
#[derive(Debug)]
pub struct DiffResult {
    pub success: bool,
    pub operations_processed: u32,
    pub operations_failed: u32,
    pub gas_used: u64,
    pub error: Option<String>,
}

/// The result of validating a batch.
#[derive(Debug)]
pub struct DiffValidation {
    pub is_valid: bool,
    pub errors: Vec<String>,
    pub warnings: Vec<String>,
}

/// The conflicting pairs `(i, j)` with `j` in `i + 1 .. m`, in order.
pub open spec fn conflict_row(v: Seq<OpView>, i: int, m: int) -> Seq<(int, int)>
    decreases m - i,
{
    if m <= i + 1 {
        seq![]
    } else {
        conflict_row(v, i, m - 1) + if ops_conflict(v[i], v[m - 1]) { seq![(i, m - 1)] } else { seq![] }
    }
}

/// The conflicting pairs `(i, j)`, `i < j`, with `i < n`, by `i` then `j`.
pub open spec fn conflict_pairs(v: Seq<OpView>, n: int) -> Seq<(int, int)>
    decreases n,
{
    if n <= 0 {
        seq![]
    } else {
        conflict_pairs(v, n - 1) + conflict_row(v, n - 1, v.len() as int)
    }
}

/// The message reported for a conflicting pair.
pub open spec fn conflict_text(p: (int, int)) -> Seq<char> {
    "Operation "@ + decimal(p.0 as nat) + " conflicts with operation "@ + decimal(p.1 as nat)
}

impl DiffBatch {
    /// A new empty batch between `source` and `target`, stamped with the
    /// clock's time (0 where the clock cannot be read).
    pub fn new(source: Pubkey, target: Pubkey) -> (r: DiffBatch)
        ensures
            r.batch_id@ == Seq::new(32, |i: int| 0u8),
            r.operations@.len() == 0,
            r.source == source,
            r.target == target,
    {
        let r = DiffBatch { batch_id: [0u8; 32], operations: Vec::new(), created_at: clock_unix_timestamp(), source, target };
        assert(r.batch_id@ =~= Seq::new(32, |i: int| 0u8));
        r
    }

    /// Appends an operation.
    pub fn add_operation(&mut self, operation: DiffOperation)
        ensures
            final(self).operations@ == old(self).operations@.push(operation),
            final(self).batch_id == old(self).batch_id,
            final(self).created_at == old(self).created_at,
            final(self).source == old(self).source,
            final(self).target == old(self).target,
    {
        self.operations.push(operation);
    }

    /// The total size of the operations.
    pub fn total_size(&self) -> (r: usize)
        requires
            ops_size(ops_view(self.operations@)) <= usize::MAX,
        ensures
            r == ops_size(ops_view(self.operations@)),
    {
        let ghost v = ops_view(self.operations@);
        let mut total: usize = 0;
        let mut i: usize = 0;
        while i < self.operations.len()
            invariant
                i <= self.operations.len(),
                v == ops_view(self.operations@),
                ops_size(v) <= usize::MAX,
                total == ops_size(v.take(i as int)),
            decreases self.operations.len() - i,
        {
            proof {
                assert(v.take(i + 1).drop_last() =~= v.take(i as int));
                lemma_ops_size_prefix(v, i + 1);
            }
            let s = self.operations[i].size();
            total = total + s;
            i += 1;
        }
        assert(v.take(self.operations.len() as int) =~= v);
        total
    }

    /// Validates the batch: a warning when it is empty, and an error for each
    /// pair of conflicting operations, by first then second index.
    pub fn validate(&self) -> (r: DiffValidation)
        ensures
            r.is_valid == (conflict_pairs(ops_view(self.operations@), self.operations@.len() as int).len() == 0),
            views(r.errors@) == conflict_pairs(ops_view(self.operations@), self.operations@.len() as int).map_values(|p: (int, int)| conflict_text(p)),
            views(r.warnings@) == if self.operations@.len() == 0 { seq!["Batch contains no operations"@] } else { seq![] },
    {
        let ghost v = ops_view(self.operations@);
        let n = self.operations.len();
        let mut warnings: Vec<String> = Vec::new();
        if n == 0 {
            warnings.push(owned("Batch contains no operations"));
            assert(views(warnings@) =~= seq!["Batch contains no operations"@]);
        } else {
            assert(views(warnings@) =~= Seq::<Seq<char>>::empty());
        }
        let mut errors: Vec<String> = Vec::new();
        let mut i: usize = 0;
        while i < n
            invariant
                i <= n,
                n == self.operations.len(),
                v == ops_view(self.operations@),
                views(errors@) == conflict_pairs(v, i as int).map_values(|p: (int, int)| conflict_text(p)),
            decreases n - i,
        {
            let ghost base = conflict_pairs(v, i as int);
            let mut j: usize = i + 1;
            while j < n
                invariant
                    i < j <= n,
                    n == self.operations.len(),
                    v == ops_view(self.operations@),
                    views(errors@) == (base + conflict_row(v, i as int, j as int)).map_values(|p: (int, int)| conflict_text(p)),
                decreases n - j,
            {
                let ghost prev = views(errors@);
                if self.operations[i].conflicts_with(&self.operations[j]) {
                    let mut m = owned("Operation ");
                    push_decimal(&mut m, i as u64);
                    m.append(" conflicts with operation ");
                    push_decimal(&mut m, j as u64);
                    errors.push(m);
                    assert(views(errors@) =~= prev.push(conflict_text((i as int, j as int))));
                    assert((base + conflict_row(v, i as int, j + 1)) =~= (base + conflict_row(v, i as int, j as int)).push((i as int, j as int)));
                } else {
                    assert((base + conflict_row(v, i as int, j + 1)) =~= base + conflict_row(v, i as int, j as int));
                }
                j += 1;
            }
            i += 1;
        }
        let is_valid = errors.len() == 0;
        DiffValidation { is_valid, errors, warnings }
    }
}

/// The size of a prefix is at most that of the whole.
pub proof fn lemma_ops_size_prefix(v: Seq<OpView>, k: int)
    requires
        0 <= k <= v.len(),
    ensures
        ops_size(v.take(k)) <= ops_size(v),
    decreases v.len() - k,
{
    if k < v.len() {
        lemma_ops_size_prefix(v, k + 1);
        assert(v.take(k + 1).drop_last() =~= v.take(k));
    } else {
        assert(v.take(k) =~= v);
    }
}

/// Sets up the diff account.
pub fn initialize(diff_state: &mut crate::diff::state::DiffState, authority: Pubkey, bump: u8)
    ensures
        *final(diff_state) == (crate::diff::state::DiffState { authority, total_diffs: 0, bump, ..*old(diff_state) }),
{
    diff_state.authority = authority;
    diff_state.total_diffs = 0;
    diff_state.bump = bump;
}

/// Counts a diff calculation between two states.
pub fn calculate_diff(diff_state: &mut crate::diff::state::DiffState, state_a: &Vec<u8>, state_b: &Vec<u8>) -> (r: Result<(), ValenceError>)
    requires
        old(diff_state).total_diffs < u64::MAX,
    ensures
        r is Ok,
        final(diff_state).total_diffs == old(diff_state).total_diffs + 1,
        final(diff_state).authority == old(diff_state).authority,
        final(diff_state).total_applied == old(diff_state).total_applied,
{
    diff_state.total_diffs = diff_state.total_diffs + 1;
    Ok(())
}

} // verus!
