//! Computing the diff between two byte strings, and applying diffs.

use vstd::prelude::*;
use crate::error::ValenceError;
use crate::diff::instructions::{DiffOperation, OpView, op_view, ops_view, copy_bytes};

verus! {

broadcast use vstd::seq_lib::group_seq_properties;

/// One step of the byte-level comparison.
#[derive(Debug)]
pub enum MyersDiff {
    /// The next bytes of both strings agree.
    Equal(usize),
    /// These bytes of the second string are new.
    Insert(Vec<u8>),
    /// The next bytes of the first string are dropped.
    Delete(usize),
}

/// The abstract value of a comparison step.
pub enum StepView {
    Equal(nat),
    Insert(Seq<u8>),
    Delete(nat),
}

/// The abstract value of a step.
pub open spec fn step_view(d: MyersDiff) -> StepView {
    match d {
        MyersDiff::Equal(n) => StepView::Equal(n as nat),
        MyersDiff::Insert(v) => StepView::Insert(v@),
        MyersDiff::Delete(n) => StepView::Delete(n as nat),
    }
}

/// The abstract values of steps.
pub open spec fn steps_view(v: Seq<MyersDiff>) -> Seq<StepView> {
    v.map_values(|d: MyersDiff| step_view(d))
}

/// The number of agreeing bytes of `a` from `i` and `b` from `j`.
pub open spec fn eq_run(a: Seq<u8>, b: Seq<u8>, i: int, j: int) -> nat
    decreases a.len() - i,
{
    if 0 <= i < a.len() && 0 <= j < b.len() && a[i] == b[j] {
        1 + eq_run(a, b, i + 1, j + 1)
    } else {
        0
    }
}

/// The number of bytes of `b` from `j` that differ from `a[i]` (all of
/// them once `a` is exhausted).
pub open spec fn ins_run(a: Seq<u8>, b: Seq<u8>, i: int, j: int) -> nat
    decreases b.len() - j,
{
    if 0 <= j < b.len() && (i >= a.len() || a[i] != b[j]) {
        1 + ins_run(a, b, i, j + 1)
    } else {
        0
    }
}

/// An agreeing run stays within both strings.
pub proof fn lemma_eq_run_bound(a: Seq<u8>, b: Seq<u8>, i: int, j: int)
    requires
        0 <= i <= a.len(),
        0 <= j <= b.len(),
    ensures
        i + eq_run(a, b, i, j) <= a.len(),
        j + eq_run(a, b, i, j) <= b.len(),
    decreases a.len() - i,
{
    if 0 <= i < a.len() && 0 <= j < b.len() && a[i] == b[j] {
        lemma_eq_run_bound(a, b, i + 1, j + 1);
    }
}

/// An insert run stays within the second string.
pub proof fn lemma_ins_run_bound(a: Seq<u8>, b: Seq<u8>, i: int, j: int)
    requires
        0 <= j <= b.len(),
    ensures
        j + ins_run(a, b, i, j) <= b.len(),
    decreases b.len() - j,
{
    if 0 <= j < b.len() && (i >= a.len() || a[i] != b[j]) {
        lemma_ins_run_bound(a, b, i, j + 1);
    }
}

/// The greedy comparison of `a` from `i` with `b` from `j`: a run of
/// agreeing bytes; else a run of bytes of `b` that differ from the next
/// byte of `a`; else, once `b` is exhausted, the rest of `a` dropped.
pub open spec fn greedy(a: Seq<u8>, b: Seq<u8>, i: int, j: int) -> Seq<StepView>
    decreases a.len() + b.len() - i - j,
{
    if !(0 <= i <= a.len() && 0 <= j <= b.len()) || (i == a.len() && j == b.len()) {
        seq![]
    } else if i < a.len() && j < b.len() && a[i] == b[j] {
        let k = eq_run(a, b, i, j);
        proof {
            lemma_eq_run_bound(a, b, i, j);
        }
        seq![StepView::Equal(k)] + greedy(a, b, i + k, j + k)
    } else if j < b.len() {
        let k = ins_run(a, b, i, j);
        proof {
            lemma_ins_run_bound(a, b, i, j);
        }
        seq![StepView::Insert(b.subrange(j, j + k))] + greedy(a, b, i, j + k)
    } else {
        seq![StepView::Delete((a.len() - i) as nat)] + greedy(a, b, a.len() as int, j)
    }
}

/// The operations the steps give, positions counted in the first string from `pos`.
pub open spec fn ops_of_steps(steps: Seq<StepView>, pos: nat) -> Seq<OpView>
    decreases steps.len(),
{
    if steps.len() == 0 {
        seq![]
    } else {
        match steps[0] {
            StepView::Equal(k) => ops_of_steps(steps.drop_first(), pos + k),
            StepView::Insert(d) => seq![OpView::Insert(pos as u64, d)] + ops_of_steps(steps.drop_first(), pos),
            StepView::Delete(k) => seq![OpView::Delete(pos as u64, k as u64)] + ops_of_steps(steps.drop_first(), pos + k),
        }
    }
}

/// The number of inserts after index `i` that continue an insert at `p`
/// whose data so far has `len` bytes.
pub open spec fn absorbed_inserts(v: Seq<OpView>, i: int, p: u64, len: int) -> nat
    decreases v.len() - i,
{
    if 0 <= i < v.len() && v[i] is Insert && v[i]->Insert_0 as int == p + len {
        1 + absorbed_inserts(v, i + 1, p, len + v[i]->Insert_1.len())
    } else {
        0
    }
}

/// The data of the inserts absorbed after index `i`, appended to `d`.
pub open spec fn absorbed_data(v: Seq<OpView>, i: int, p: u64, d: Seq<u8>) -> Seq<u8>
    decreases v.len() - i,
{
    if 0 <= i < v.len() && v[i] is Insert && v[i]->Insert_0 as int == p + d.len() {
        absorbed_data(v, i + 1, p, d + v[i]->Insert_1)
    } else {
        d
    }
}

/// The number of deletes after index `i` at position `p`.
pub open spec fn absorbed_deletes(v: Seq<OpView>, i: int, p: u64) -> nat
    decreases v.len() - i,
{
    if 0 <= i < v.len() && v[i] is Delete && v[i]->Delete_0 == p {
        1 + absorbed_deletes(v, i + 1, p)
    } else {
        0
    }
}

/// The total length of the deletes absorbed after index `i`, added to `total`.
pub open spec fn absorbed_length(v: Seq<OpView>, i: int, p: u64, total: int) -> int
    decreases v.len() - i,
{
    if 0 <= i < v.len() && v[i] is Delete && v[i]->Delete_0 == p {
        absorbed_length(v, i + 1, p, total + v[i]->Delete_1)
    } else {
        total
    }
}

/// The inserts absorbed lie within the operations.
pub proof fn lemma_absorbed_inserts_bound(v: Seq<OpView>, i: int, p: u64, len: int)
    requires
        0 <= i,
    ensures
        i + absorbed_inserts(v, i, p, len) <= if i <= v.len() { v.len() as int } else { i },
    decreases v.len() - i,
{
    if 0 <= i < v.len() && v[i] is Insert && v[i]->Insert_0 as int == p + len {
        lemma_absorbed_inserts_bound(v, i + 1, p, len + v[i]->Insert_1.len());
    }
}

/// The deletes absorbed lie within the operations.
pub proof fn lemma_absorbed_deletes_bound(v: Seq<OpView>, i: int, p: u64)
    requires
        0 <= i,
    ensures
        i + absorbed_deletes(v, i, p) <= if i <= v.len() { v.len() as int } else { i },
    decreases v.len() - i,
{
    if 0 <= i < v.len() && v[i] is Delete && v[i]->Delete_0 == p {
        lemma_absorbed_deletes_bound(v, i + 1, p);
    }
}

/// The operations from index `i` with each run of inserts that continue one
/// another merged into one insert, and, where `deletes` holds, each run of
/// deletes at one position merged into one delete.
pub open spec fn merged_from(v: Seq<OpView>, i: int, deletes: bool) -> Seq<OpView>
    decreases v.len() - i,
{
    if i < 0 || i >= v.len() {
        seq![]
    } else {
        match v[i] {
            OpView::Insert(p, d) => {
                let k = absorbed_inserts(v, i + 1, p, d.len() as int);
                proof {
                    lemma_absorbed_inserts_bound(v, i + 1, p, d.len() as int);
                }
                seq![OpView::Insert(p, absorbed_data(v, i + 1, p, d))] + merged_from(v, i + 1 + k, deletes)
            },
            OpView::Delete(p, l) => if deletes {
                let k = absorbed_deletes(v, i + 1, p);
                proof {
                    lemma_absorbed_deletes_bound(v, i + 1, p);
                }
                seq![OpView::Delete(p, absorbed_length(v, i + 1, p, l as int) as u64)] + merged_from(v, i + 1 + k, deletes)
            } else {
                seq![v[i]] + merged_from(v, i + 1, deletes)
            },
            _ => seq![v[i]] + merged_from(v, i + 1, deletes),
        }
    }
}

/// The operations that turn `a` into `b` as `calculate_diff` gives them.
pub open spec fn diff_of(a: Seq<u8>, b: Seq<u8>) -> Seq<OpView> {
    if a.len() == 0 && b.len() > 0 {
        seq![OpView::Insert(0, b)]
    } else if a.len() > 0 && b.len() == 0 {
        seq![OpView::Delete(0, a.len() as u64)]
    } else {
        merged_from(ops_of_steps(greedy(a, b, 0, 0), 0), 0, false)
    }
}

/// `s` after one operation: an insert within the string, a delete of bytes
/// within it, or a replacement starting within it; anything else leaves it.
pub open spec fn apply_op(s: Seq<u8>, v: OpView) -> Seq<u8> {
    match v {
        OpView::Insert(p, d) => if p <= s.len() { s.take(p as int) + d + s.skip(p as int) } else { s },
        OpView::Delete(p, l) => if p < s.len() && p + l <= s.len() { s.take(p as int) + s.skip(p + l) } else { s },
        OpView::Replace(p, d) => if p < s.len() {
            s.take(p as int) + d + s.skip(if p + d.len() < s.len() { p + d.len() } else { s.len() as int })
        } else {
            s
        },
        _ => s,
    }
}

/// `s` after the operations in order.
pub open spec fn apply_ops(s: Seq<u8>, v: Seq<OpView>) -> Seq<u8>
    decreases v.len(),
{
    if v.len() == 0 {
        s
    } else {
        apply_op(apply_ops(s, v.drop_last()), v.last())
    }
}

/// Positions and lengths of a positional operation fit in a `usize`.
pub open spec fn op_fits(v: OpView) -> bool {
    match v {
        OpView::Insert(p, _) => p <= usize::MAX,
        OpView::Delete(p, l) => p + l <= usize::MAX,
        OpView::Replace(p, d) => p + d.len() <= usize::MAX,
        _ => true,
    }
}

/// The bytes of `s` from `from` to `to`, appended to `out`.
pub fn append_range(out: &mut Vec<u8>, s: &Vec<u8>, from: usize, to: usize)
    requires
        from <= to <= s.len(),
    ensures
        final(out)@ == old(out)@ + s@.subrange(from as int, to as int),
{
    let mut k = from;
    while k < to
        invariant
            from <= k <= to <= s.len(),
            out@ == old(out)@ + s@.subrange(from as int, k as int),
        decreases to - k,
    {
        out.push(s[k]);
        assert(s@.subrange(from as int, k + 1) =~= s@.subrange(from as int, k as int).push(s@[k as int]));
        k += 1;
    }
}

/// `s` after one operation.
pub fn apply_one(s: &Vec<u8>, op: &DiffOperation) -> (r: Vec<u8>)
    requires
        op_fits(op_view(*op)),
    ensures
        r@ == apply_op(s@, op_view(*op)),
{
    let n = s.len();
    match op {
        DiffOperation::Insert { position, data } => {
            if *position as usize <= n {
                let p = *position as usize;
                let mut r: Vec<u8> = Vec::new();
                append_range(&mut r, s, 0, p);
                append_range(&mut r, data, 0, data.len());
                append_range(&mut r, s, p, n);
                assert(s@.subrange(0, p as int) =~= s@.take(p as int));
                assert(data@.subrange(0, data@.len() as int) =~= data@);
                assert(s@.subrange(p as int, n as int) =~= s@.skip(p as int));
                r
            } else {
                copy_bytes(s)
            }
        }
        DiffOperation::Delete { position, length } => {
            let p = *position as usize;
            let e = p + *length as usize;
            if p < n && e <= n {
                let mut r: Vec<u8> = Vec::new();
                append_range(&mut r, s, 0, p);
                append_range(&mut r, s, e, n);
                assert(s@.subrange(0, p as int) =~= s@.take(p as int));
                assert(s@.subrange(e as int, n as int) =~= s@.skip(e as int));
                r
            } else {
                copy_bytes(s)
            }
        }
        DiffOperation::Replace { position, data } => {
            let p = *position as usize;
            if p < n {
                let end = p + data.len();
                let stop = if end < n { end } else { n };
                let mut r: Vec<u8> = Vec::new();
                append_range(&mut r, s, 0, p);
                append_range(&mut r, data, 0, data.len());
                append_range(&mut r, s, stop, n);
                assert(s@.subrange(0, p as int) =~= s@.take(p as int));
                assert(data@.subrange(0, data@.len() as int) =~= data@);
                assert(s@.subrange(stop as int, n as int) =~= s@.skip(stop as int));
                r
            } else {
                copy_bytes(s)
            }
        }
        _ => copy_bytes(s),
    }
}

/// Computes and applies diffs between byte strings.
pub struct DiffCalculator;

impl DiffCalculator {
    /// The greedy comparison of `a` and `b`.
    pub fn myers_diff(a: &Vec<u8>, b: &Vec<u8>) -> (r: Vec<MyersDiff>)
        ensures
            steps_view(r@) == greedy(a@, b@, 0, 0),
    {
        let mut diffs: Vec<MyersDiff> = Vec::new();
        let mut i: usize = 0;
        let mut j: usize = 0;
        while i < a.len() || j < b.len()
            invariant
                i <= a.len(),
                j <= b.len(),
                steps_view(diffs@) + greedy(a@, b@, i as int, j as int) == greedy(a@, b@, 0, 0),
            decreases a.len() + b.len() - i - j,
        {
            let ghost prev = steps_view(diffs@);
            let ghost (i0, j0) = (i as int, j as int);
            if i < a.len() && j < b.len() && a[i] == b[j] {
                let start_i = i;
                while i < a.len() && j < b.len() && a[i] == b[j]
                    invariant
                        i0 <= i <= a.len(),
                        j0 <= j <= b.len(),
                        i - i0 == j - j0,
                        start_i == i0,
                        (i - i0) + eq_run(a@, b@, i as int, j as int) == eq_run(a@, b@, i0, j0),
                    decreases a.len() - i,
                {
                    i += 1;
                    j += 1;
                }
                diffs.push(MyersDiff::Equal(i - start_i));
                proof {
                    assert(steps_view(diffs@) =~= prev.push(StepView::Equal(eq_run(a@, b@, i0, j0))));
                    assert(seq![StepView::Equal(eq_run(a@, b@, i0, j0))] + greedy(a@, b@, i as int, j as int) == greedy(a@, b@, i0, j0));
                    assert(prev + greedy(a@, b@, i0, j0) == greedy(a@, b@, 0, 0));
                    assert(steps_view(diffs@) + greedy(a@, b@, i as int, j as int) =~= prev + (seq![StepView::Equal(eq_run(a@, b@, i0, j0))] + greedy(a@, b@, i as int, j as int)));
                }
            } else if j < b.len() && (i >= a.len() || (i < a.len() && a[i] != b[j])) {
                let start_j = j;
                while j < b.len() && (i >= a.len() || (i < a.len() && a[i] != b[j]))
                    invariant
                        j0 <= j <= b.len(),
                        i == i0,
                        i <= a.len(),
                        start_j == j0,
                        (j - j0) + ins_run(a@, b@, i as int, j as int) == ins_run(a@, b@, i0, j0),
                    decreases b.len() - j,
                {
                    j += 1;
                }
                let mut chunk: Vec<u8> = Vec::new();
                append_range(&mut chunk, b, start_j, j);
                diffs.push(MyersDiff::Insert(chunk));
                proof {
                    let k = ins_run(a@, b@, i0, j0);
                    assert(steps_view(diffs@) =~= prev.push(StepView::Insert(b@.subrange(j0, j0 + k))));
                    assert(seq![StepView::Insert(b@.subrange(j0, j0 + k))] + greedy(a@, b@, i as int, j as int) == greedy(a@, b@, i0, j0));
                    assert(steps_view(diffs@) + greedy(a@, b@, i as int, j as int) =~= prev + (seq![StepView::Insert(b@.subrange(j0, j0 + k))] + greedy(a@, b@, i as int, j as int)));
                }
            } else {
                let start_i = i;
                while i < a.len() && (j >= b.len() || (j < b.len() && a[i] != b[j]))
                    invariant
                        i0 <= i <= a.len(),
                        j == j0,
                        j == b.len(),
                        start_i == i0,
                    decreases a.len() - i,
                {
                    i += 1;
                }
                diffs.push(MyersDiff::Delete(i - start_i));
                proof {
                    assert(steps_view(diffs@) =~= prev.push(StepView::Delete((a.len() - i0) as nat)));
                    assert(seq![StepView::Delete((a.len() - i0) as nat)] + greedy(a@, b@, i as int, j as int) == greedy(a@, b@, i0, j0));
                    assert(steps_view(diffs@) + greedy(a@, b@, i as int, j as int) =~= prev + (seq![StepView::Delete((a.len() - i0) as nat)] + greedy(a@, b@, i as int, j as int)));
                }
            }
        }
        assert(steps_view(diffs@) + greedy(a@, b@, i as int, j as int) =~= steps_view(diffs@));
        diffs
    }
}

/// Merging deletes at `i` never overflows a `u64` length.
pub open spec fn deletes_fit(v: Seq<OpView>) -> bool {
    forall|i: int| 0 <= i < v.len() && (#[trigger] v[i]) is Delete ==> absorbed_length(v, i + 1, v[i]->Delete_0, v[i]->Delete_1 as int) <= u64::MAX
}

/// Absorbing deletes only adds length.
pub proof fn lemma_absorbed_length_grows(v: Seq<OpView>, i: int, p: u64, total: int)
    ensures
        absorbed_length(v, i, p, total) >= total,
    decreases v.len() - i,
{
    if 0 <= i < v.len() && v[i] is Delete && v[i]->Delete_0 == p {
        lemma_absorbed_length_grows(v, i + 1, p, total + v[i]->Delete_1);
    }
}

/// Merges each run of inserts that continue one another into one insert
/// and, where `deletes` holds, each run of deletes at one position into one
/// delete; other operations are kept.
pub fn merge_runs(operations: &Vec<DiffOperation>, deletes: bool) -> (r: Vec<DiffOperation>)
    requires
        deletes ==> deletes_fit(ops_view(operations@)),
    ensures
        ops_view(r@) == merged_from(ops_view(operations@), 0, deletes),
{
    let ghost v = ops_view(operations@);
    let mut out: Vec<DiffOperation> = Vec::new();
    let mut i: usize = 0;
    while i < operations.len()
        invariant
            i <= operations.len(),
            v == ops_view(operations@),
            deletes ==> deletes_fit(v),
            ops_view(out@) + merged_from(v, i as int, deletes) == merged_from(v, 0, deletes),
        decreases operations.len() - i,
    {
        let ghost prev = ops_view(out@);
        let ghost i0 = i as int;
        match &operations[i] {
            DiffOperation::Insert { position, data } => {
                let start = *position;
                let mut merged = copy_bytes(data);
                let ghost d0 = data@;
                i += 1;
                while i < operations.len()
                    invariant
                        i0 + 1 <= i <= operations.len(),
                        v == ops_view(operations@),
                        v[i0] == OpView::Insert(start, d0),
                        absorbed_data(v, i as int, start, merged@) == absorbed_data(v, i0 + 1, start, d0),
                        (i - i0 - 1) + absorbed_inserts(v, i as int, start, merged@.len() as int) == absorbed_inserts(v, i0 + 1, start, d0.len() as int),
                    ensures
                        i0 + 1 <= i <= operations.len(),
                        absorbed_data(v, i as int, start, merged@) == absorbed_data(v, i0 + 1, start, d0),
                        (i - i0 - 1) + absorbed_inserts(v, i as int, start, merged@.len() as int) == absorbed_inserts(v, i0 + 1, start, d0.len() as int),
                        absorbed_inserts(v, i as int, start, merged@.len() as int) == 0,
                        absorbed_data(v, i as int, start, merged@) == merged@,
                    decreases operations.len() - i,
                {
                    let absorbed = match &operations[i] {
                        DiffOperation::Insert { position: next_pos, data: next_data } => {
                            if (*next_pos as u128) == (start as u128) + (merged.len() as u128) {
                                let ghost before = merged@;
                                append_range(&mut merged, next_data, 0, next_data.len());
                                assert(next_data@.subrange(0, next_data@.len() as int) =~= next_data@);
                                assert(merged@ == before + next_data@);
                                true
                            } else {
                                false
                            }
                        }
                        _ => false,
                    };
                    if !absorbed {
                        break;
                    }
                    i += 1;
                }
                out.push(DiffOperation::Insert { position: start, data: merged });
                proof {
                    assert(absorbed_inserts(v, i as int, start, merged@.len() as int) == 0);
                    assert(ops_view(out@) =~= prev.push(OpView::Insert(start, absorbed_data(v, i0 + 1, start, d0))));
                }
            }
            DiffOperation::Delete { position, length } => {
                if deletes {
                    let start = *position;
                    let mut total: u64 = *length;
                    let ghost l0 = *length as int;
                    proof {
                        assert(v[i0] is Delete);
                        lemma_absorbed_length_grows(v, i0 + 1, start, l0);
                    }
                    i += 1;
                    while i < operations.len()
                        invariant
                            i0 + 1 <= i <= operations.len(),
                            v == ops_view(operations@),
                            v[i0] == OpView::Delete(start, l0 as u64),
                            absorbed_length(v, i as int, start, total as int) == absorbed_length(v, i0 + 1, start, l0),
                            absorbed_length(v, i0 + 1, start, l0) <= u64::MAX,
                            (i - i0 - 1) + absorbed_deletes(v, i as int, start) == absorbed_deletes(v, i0 + 1, start),
                        ensures
                            i0 + 1 <= i <= operations.len(),
                            absorbed_length(v, i as int, start, total as int) == absorbed_length(v, i0 + 1, start, l0),
                            (i - i0 - 1) + absorbed_deletes(v, i as int, start) == absorbed_deletes(v, i0 + 1, start),
                            absorbed_deletes(v, i as int, start) == 0,
                            absorbed_length(v, i as int, start, total as int) == total,
                        decreases operations.len() - i,
                    {
                        let absorbed = match &operations[i] {
                            DiffOperation::Delete { position: next_pos, length: next_length } => {
                                if *next_pos == start {
                                    proof {
                                        lemma_absorbed_length_grows(v, i + 1, start, total + *next_length);
                                    }
                                    total = total + *next_length;
                                    true
                                } else {
                                    false
                                }
                            }
                            _ => false,
                        };
                        if !absorbed {
                            break;
                        }
                        i += 1;
                    }
                    out.push(DiffOperation::Delete { position: start, length: total });
                    proof {
                        assert(absorbed_deletes(v, i as int, start) == 0);
                        assert(ops_view(out@) =~= prev.push(OpView::Delete(start, absorbed_length(v, i0 + 1, start, l0) as u64)));
                    }
                } else {
                    out.push(operations[i].copy_op());
                    assert(ops_view(out@) =~= prev.push(v[i0]));
                    i += 1;
                }
            }
            _ => {
                out.push(operations[i].copy_op());
                assert(ops_view(out@) =~= prev.push(v[i0]));
                i += 1;
            }
        }
        proof {
            assert(ops_view(out@) + merged_from(v, i as int, deletes) =~= prev + merged_from(v, i0, deletes));
        }
    }
    assert(ops_view(out@) + merged_from(v, i as int, deletes) =~= ops_view(out@));
    out
}

/// The bytes of the first string the steps account for.
pub open spec fn consumed(steps: Seq<StepView>) -> nat
    decreases steps.len(),
{
    if steps.len() == 0 {
        0
    } else {
        (match steps[0] {
            StepView::Equal(k) => k,
            StepView::Insert(_) => 0,
            StepView::Delete(k) => k,
        }) + consumed(steps.drop_first())
    }
}

/// The greedy comparison accounts for the rest of the first string.
pub proof fn lemma_greedy_consumes(a: Seq<u8>, b: Seq<u8>, i: int, j: int)
    requires
        0 <= i <= a.len(),
        0 <= j <= b.len(),
    ensures
        i + consumed(greedy(a, b, i, j)) == a.len(),
    decreases a.len() + b.len() - i - j,
{
    let g = greedy(a, b, i, j);
    if i == a.len() && j == b.len() {
    } else if i < a.len() && j < b.len() && a[i] == b[j] {
        let k = eq_run(a, b, i, j);
        lemma_eq_run_bound(a, b, i, j);
        lemma_greedy_consumes(a, b, i + k, j + k);
        assert(g.drop_first() =~= greedy(a, b, i + k, j + k));
    } else if j < b.len() {
        let k = ins_run(a, b, i, j);
        lemma_ins_run_bound(a, b, i, j);
        lemma_greedy_consumes(a, b, i, j + k);
        assert(g.drop_first() =~= greedy(a, b, i, j + k));
    } else {
        lemma_greedy_consumes(a, b, a.len() as int, j);
        assert(g.drop_first() =~= greedy(a, b, a.len() as int, j));
    }
}

impl DiffCalculator {
    /// Merges runs of inserts that continue one another; a list of at most
    /// one operation is left as it is.
    pub fn optimize_operations(operations: &mut Vec<DiffOperation>)
        ensures
            ops_view(final(operations)@) == if old(operations)@.len() <= 1 { ops_view(old(operations)@) } else { merged_from(ops_view(old(operations)@), 0, false) },
    {
        if operations.len() <= 1 {
            return;
        }
        let merged = merge_runs(operations, false);
        *operations = merged;
    }

    /// The operations that turn `state_a` into `state_b`: one insert when
    /// `state_a` is empty, one delete when `state_b` is; otherwise the
    /// greedy comparison's inserts and deletes, positioned in `state_a`,
    /// with runs of inserts that continue one another merged.
    pub fn calculate_diff(state_a: &Vec<u8>, state_b: &Vec<u8>) -> (r: Vec<DiffOperation>)
        ensures
            ops_view(r@) == diff_of(state_a@, state_b@),
    {
        let mut operations: Vec<DiffOperation> = Vec::new();
        if state_a.len() == 0 && state_b.len() > 0 {
            operations.push(DiffOperation::Insert { position: 0, data: copy_bytes(state_b) });
            assert(ops_view(operations@) =~= seq![OpView::Insert(0, state_b@)]);
            return operations;
        }
        if state_a.len() > 0 && state_b.len() == 0 {
            operations.push(DiffOperation::Delete { position: 0, length: state_a.len() as u64 });
            assert(ops_view(operations@) =~= seq![OpView::Delete(0, state_a@.len() as u64)]);
            return operations;
        }
        let diffs = Self::myers_diff(state_a, state_b);
        let ghost steps = steps_view(diffs@);
        proof {
            lemma_greedy_consumes(state_a@, state_b@, 0, 0);
        }
        let n: usize = state_a.len();
        let mut current_pos: usize = 0;
        let mut k: usize = 0;
        assert(steps.skip(0) =~= steps);
        while k < diffs.len()
            invariant
                k <= diffs.len(),
                steps == steps_view(diffs@),
                current_pos + consumed(steps.skip(k as int)) == n,
                ops_view(operations@) + ops_of_steps(steps.skip(k as int), current_pos as nat) == ops_of_steps(steps, 0),
            decreases diffs.len() - k,
        {
            let ghost prev = ops_view(operations@);
            let ghost rest = steps.skip(k as int);
            assert(rest[0] == step_view(diffs@[k as int]));
            assert(rest.drop_first() =~= steps.skip(k + 1));
            match &diffs[k] {
                MyersDiff::Equal(len) => {
                    assert(consumed(rest) == *len + consumed(rest.drop_first()));
                    current_pos = current_pos + *len;
                }
                MyersDiff::Insert(data) => {
                    operations.push(DiffOperation::Insert { position: current_pos as u64, data: copy_bytes(data) });
                    assert(ops_view(operations@) =~= prev.push(OpView::Insert(current_pos as u64, data@)));
                }
                MyersDiff::Delete(len) => {
                    operations.push(DiffOperation::Delete { position: current_pos as u64, length: *len as u64 });
                    assert(ops_view(operations@) =~= prev.push(OpView::Delete(current_pos as u64, *len as u64)));
                    assert(consumed(rest) == *len + consumed(rest.drop_first()));
                    current_pos = current_pos + *len;
                }
            }
            k += 1;
        }
        assert(steps.skip(diffs.len() as int) =~= Seq::<StepView>::empty());
        assert(ops_view(operations@) =~= ops_of_steps(steps, 0));
        let ghost v = ops_view(operations@);
        Self::optimize_operations(&mut operations);
        proof {
            if v.len() <= 1 {
                lemma_merge_short(v);
            }
        }
        operations
    }

    /// Applies the operations in order; operations that do not fit the
    /// state, and key-value operations, leave it as it is.
    pub fn apply_diff(state: &mut Vec<u8>, operations: &Vec<DiffOperation>) -> (r: Result<(), ValenceError>)
        requires
            forall|i: int| 0 <= i < operations@.len() ==> op_fits(op_view(#[trigger] operations@[i])),
        ensures
            r is Ok,
            final(state)@ == apply_ops(old(state)@, ops_view(operations@)),
    {
        let ghost v = ops_view(operations@);
        let ghost s0 = state@;
        let mut k: usize = 0;
        while k < operations.len()
            invariant
                k <= operations.len(),
                v == ops_view(operations@),
                forall|i: int| 0 <= i < operations@.len() ==> op_fits(op_view(#[trigger] operations@[i])),
                state@ == apply_ops(s0, v.take(k as int)),
            decreases operations.len() - k,
        {
            let next = apply_one(state, &operations[k]);
            *state = next;
            assert(v.take(k + 1).drop_last() =~= v.take(k as int));
            k += 1;
        }
        assert(v.take(operations.len() as int) =~= v);
        Ok(())
    }
}

/// Merging leaves a list of at most one operation as it is.
pub proof fn lemma_merge_short(v: Seq<OpView>)
    requires
        v.len() <= 1,
    ensures
        merged_from(v, 0, false) == v,
{
    if v.len() == 1 {
        assert(merged_from(v, 1, false) =~= Seq::<OpView>::empty());
        match v[0] {
            OpView::Insert(p, d) => {
                assert(absorbed_inserts(v, 1, p, d.len() as int) == 0);
                assert(absorbed_data(v, 1, p, d) == d);
            },
            _ => {},
        }
        assert(merged_from(v, 0, false) =~= v);
    } else {
        assert(merged_from(v, 0, false) =~= v);
    }
}

/// Where `a` is a prefix of `b`, they agree on all of `a` from `i` on.
proof fn lemma_eq_run_prefix(a: Seq<u8>, b: Seq<u8>, i: int, m: int)
    requires
        m == a.len() || m == b.len(),
        m <= a.len() && m <= b.len(),
        a.take(m) == b.take(m),
        0 <= i <= m,
    ensures
        eq_run(a, b, i, i) >= m - i,
        (m == a.len() || m == b.len()) ==> eq_run(a, b, i, i) == m - i,
    decreases m - i,
{
    if i < m {
        assert(a[i] == a.take(m)[i] && b[i] == b.take(m)[i]);
        lemma_eq_run_prefix(a, b, i + 1, m);
    }
}

/// Once `a` is exhausted, the rest of `b` is one insert run.
proof fn lemma_ins_run_rest(a: Seq<u8>, b: Seq<u8>, j: int)
    requires
        0 <= j <= b.len(),
    ensures
        ins_run(a, b, a.len() as int, j) == b.len() - j,
    decreases b.len() - j,
{
    if j < b.len() {
        lemma_ins_run_rest(a, b, j + 1);
    }
}

/// An agreeing run is equal in both strings.
proof fn lemma_eq_run_agrees(a: Seq<u8>, b: Seq<u8>, i: int, j: int)
    requires
        0 <= i <= a.len(),
        0 <= j <= b.len(),
    ensures
        i + eq_run(a, b, i, j) <= a.len(),
        j + eq_run(a, b, i, j) <= b.len(),
        a.subrange(i, i + eq_run(a, b, i, j)) == b.subrange(j, j + eq_run(a, b, i, j)),
    decreases a.len() - i,
{
    lemma_eq_run_bound(a, b, i, j);
    let k = eq_run(a, b, i, j) as int;
    if 0 <= i < a.len() && 0 <= j < b.len() && a[i] == b[j] {
        lemma_eq_run_agrees(a, b, i + 1, j + 1);
        assert(a.subrange(i, i + k) =~= seq![a[i]] + a.subrange(i + 1, i + k));
        assert(b.subrange(j, j + k) =~= seq![b[j]] + b.subrange(j + 1, j + k));
    } else {
        assert(a.subrange(i, i) =~= b.subrange(j, j));
    }
}

/// The greedy comparison from `i` and `j` (positions counted from `i`):
/// where it finds no difference, the rests agree; where it finds one, that
/// operation applied to `a` turns it into `a` up to `i` followed by `b`
/// from `j`.
proof fn lemma_greedy_single(a: Seq<u8>, b: Seq<u8>, i: int, j: int)
    requires
        0 <= i <= a.len(),
        0 <= j <= b.len(),
        a.len() <= u64::MAX,
        b.len() <= u64::MAX,
    ensures
        ops_of_steps(greedy(a, b, i, j), i as nat).len() == 0 ==> a.skip(i) == b.skip(j),
        ops_of_steps(greedy(a, b, i, j), i as nat).len() == 1 ==>
            apply_op(a, ops_of_steps(greedy(a, b, i, j), i as nat)[0]) == a.take(i) + b.skip(j),
    decreases a.len() + b.len() - i - j,
{
    let g = greedy(a, b, i, j);
    let ops = ops_of_steps(g, i as nat);
    if i == a.len() && j == b.len() {
        assert(a.skip(i) =~= b.skip(j));
    } else if i < a.len() && j < b.len() && a[i] == b[j] {
        let k = eq_run(a, b, i, j) as int;
        lemma_eq_run_agrees(a, b, i, j);
        lemma_greedy_single(a, b, i + k, j + k);
        assert(g == seq![StepView::Equal(k as nat)] + greedy(a, b, i + k, j + k));
        assert(g.drop_first() =~= greedy(a, b, i + k, j + k));
        assert(ops == ops_of_steps(greedy(a, b, i + k, j + k), (i + k) as nat));
        assert(a.skip(i) =~= a.subrange(i, i + k) + a.skip(i + k));
        assert(b.skip(j) =~= b.subrange(j, j + k) + b.skip(j + k));
        assert(a.take(i + k) =~= a.take(i) + a.subrange(i, i + k));
        assert(a.take(i) + b.skip(j) =~= (a.take(i) + a.subrange(i, i + k)) + b.skip(j + k));
    } else if j < b.len() {
        let k = ins_run(a, b, i, j) as int;
        lemma_ins_run_bound(a, b, i, j);
        let d = b.subrange(j, j + k);
        assert(g == seq![StepView::Insert(d)] + greedy(a, b, i, j + k));
        assert(g.drop_first() =~= greedy(a, b, i, j + k));
        let rest = ops_of_steps(greedy(a, b, i, j + k), i as nat);
        assert(ops == seq![OpView::Insert(i as u64, d)] + rest);
        lemma_greedy_single(a, b, i, j + k);
        if ops.len() == 1 {
            assert(rest.len() == 0);
            assert(ops[0] == OpView::Insert(i as u64, d));
            assert(b.skip(j) =~= d + b.skip(j + k));
            assert(a.take(i) + d + a.skip(i) =~= a.take(i) + b.skip(j));
        }
    } else {
        let k = a.len() - i;
        assert(g == seq![StepView::Delete(k as nat)] + greedy(a, b, a.len() as int, j));
        assert(greedy(a, b, a.len() as int, j) =~= Seq::<StepView>::empty());
        assert(g.drop_first() =~= Seq::<StepView>::empty());
        assert(ops_of_steps(g.drop_first(), (i + k) as nat) =~= Seq::<OpView>::empty());
        assert(ops =~= seq![OpView::Delete(i as u64, k as u64)]);
        assert(a.take(i) + a.skip(a.len() as int) =~= a.take(i) + b.skip(j));
    }
}

/// The comparison of `a` and `b` finds at most one run where they differ.
pub open spec fn single_change(a: Seq<u8>, b: Seq<u8>) -> bool {
    ops_of_steps(greedy(a, b, 0, 0), 0).len() <= 1
}

/// Applying the computed diff of `a` and `b` to `a` gives `b` wherever one
/// of them is empty or the comparison finds at most one run where they
/// differ: one block inserted anywhere (such as `[1, 2]` to `[3, 1, 2]`),
/// the tail dropped, or nothing changed. Where it finds two or more, the
/// diff's positions are counted in `a` before the earlier operations shift
/// it, and the round trip can fail (`[1, 2, 3]` to `[2]`).
pub proof fn lemma_diff_round_trip_single_change(a: Seq<u8>, b: Seq<u8>)
    requires
        a.len() == 0 || b.len() == 0 || single_change(a, b),
        a.len() <= u64::MAX,
        b.len() <= u64::MAX,
    ensures
        apply_ops(a, diff_of(a, b)) == b,
{
    let d = diff_of(a, b);
    if a.len() == 0 && b.len() > 0 {
        assert(d.drop_last() =~= Seq::<OpView>::empty());
        assert(a.take(0) + b + a.skip(0) =~= b);
        assert(apply_ops(a, d.drop_last()) == a);
    } else if a.len() > 0 && b.len() == 0 {
        assert(d.drop_last() =~= Seq::<OpView>::empty());
        assert(a.take(0) + a.skip(a.len() as int) =~= b);
        assert(apply_ops(a, d.drop_last()) == a);
    } else if a.len() == 0 && b.len() == 0 {
        assert(greedy(a, b, 0, 0) =~= Seq::<StepView>::empty());
        assert(ops_of_steps(greedy(a, b, 0, 0), 0) =~= Seq::<OpView>::empty());
        lemma_merge_short(Seq::<OpView>::empty());
        assert(a =~= b);
    } else {
        let ops = ops_of_steps(greedy(a, b, 0, 0), 0);
        lemma_merge_short(ops);
        assert(d == ops);
        lemma_greedy_single(a, b, 0, 0);
        assert(a.skip(0) =~= a);
        assert(b.skip(0) =~= b);
        assert(a.take(0) + b =~= b);
        if ops.len() == 1 {
            assert(ops.drop_last() =~= Seq::<OpView>::empty());
            assert(apply_ops(a, ops.drop_last()) == a);
        }
    }
}

/// `s` after the operations, applied from the first.
pub open spec fn apply_front(s: Seq<u8>, v: Seq<OpView>) -> Seq<u8>
    decreases v.len(),
{
    if v.len() == 0 {
        s
    } else {
        apply_front(apply_op(s, v[0]), v.drop_first())
    }
}

/// The operation acts on `s`: an insert within it, a delete of bytes within
/// it (an empty one may stand at the end), a replacement starting within it;
/// key-value operations always do.
pub open spec fn in_range(s: Seq<u8>, v: OpView) -> bool {
    match v {
        OpView::Insert(p, _) => p <= s.len(),
        OpView::Delete(p, l) => p + l <= s.len(),
        OpView::Replace(p, _) => p < s.len(),
        _ => true,
    }
}

/// Applied in order to `s`, every operation acts on the state it meets, and
/// every state on the way fits in a `u64` length.
pub open spec fn fits_front(s: Seq<u8>, v: Seq<OpView>) -> bool
    decreases v.len(),
{
    s.len() <= u64::MAX && (v.len() == 0 || (in_range(s, v[0]) && fits_front(apply_op(s, v[0]), v.drop_first())))
}

/// Applying a concatenation applies its parts in turn.
proof fn lemma_apply_front_concat(s: Seq<u8>, a: Seq<OpView>, b: Seq<OpView>)
    ensures
        apply_front(s, a + b) == apply_front(apply_front(s, a), b),
        fits_front(s, a + b) ==> fits_front(s, a) && fits_front(apply_front(s, a), b),
    decreases a.len(),
{
    if a.len() > 0 {
        assert((a + b)[0] == a[0]);
        assert((a + b).drop_first() =~= a.drop_first() + b);
        lemma_apply_front_concat(apply_op(s, a[0]), a.drop_first(), b);
    } else {
        assert(a + b =~= b);
    }
}

/// Applying from the first is applying in order.
proof fn lemma_apply_front_is_apply_ops(s: Seq<u8>, v: Seq<OpView>)
    ensures
        apply_front(s, v) == apply_ops(s, v),
    decreases v.len(),
{
    if v.len() > 0 {
        lemma_apply_front_is_apply_ops(s, v.drop_last());
        lemma_apply_front_concat(s, v.drop_last(), seq![v.last()]);
        assert(v.drop_last() + seq![v.last()] =~= v);
        let w = apply_front(s, v.drop_last());
        let one = seq![v.last()];
        assert(one[0] == v.last());
        assert(one.drop_first() =~= Seq::<OpView>::empty());
        assert(apply_front(apply_op(w, v.last()), one.drop_first()) == apply_op(w, v.last()));
        assert(apply_front(w, one) == apply_op(w, v.last()));
    }
}

/// The inserts absorbed after index `i`, applied to `s` with `d` already
/// inserted at `p`, insert the absorbed data at `p`.
proof fn lemma_absorbed_inserts_apply(v: Seq<OpView>, i: int, p: u64, d: Seq<u8>, s: Seq<u8>)
    requires
        0 <= i <= v.len(),
        p <= s.len(),
    ensures
        i + absorbed_inserts(v, i, p, d.len() as int) <= v.len(),
        apply_front(s.take(p as int) + d + s.skip(p as int), v.subrange(i, i + absorbed_inserts(v, i, p, d.len() as int)))
            == s.take(p as int) + absorbed_data(v, i, p, d) + s.skip(p as int),
    decreases v.len() - i,
{
    lemma_absorbed_inserts_bound(v, i, p, d.len() as int);
    let t = s.take(p as int) + d + s.skip(p as int);
    if 0 <= i < v.len() && v[i] is Insert && v[i]->Insert_0 as int == p + d.len() {
        let e = v[i]->Insert_1;
        let k = absorbed_inserts(v, i, p, d.len() as int);
        lemma_absorbed_inserts_apply(v, i + 1, p, d + e, s);
        assert((d + e).len() == d.len() + e.len());
        assert(v.subrange(i, i + k)[0] == v[i]);
        assert(v.subrange(i, i + k).drop_first() =~= v.subrange(i + 1, i + 1 + absorbed_inserts(v, i + 1, p, (d + e).len() as int)));
        let q = v[i]->Insert_0;
        assert(t.take(q as int) =~= s.take(p as int) + d);
        assert(t.skip(q as int) =~= s.skip(p as int));
        assert(apply_op(t, v[i]) =~= s.take(p as int) + (d + e) + s.skip(p as int));
    } else {
        assert(v.subrange(i, i) =~= Seq::<OpView>::empty());
    }
}

/// The deletes at `p` absorbed after index `i`, applied where they act to
/// `s` with `total` bytes already deleted at `p`, delete the absorbed
/// length at `p`.
proof fn lemma_absorbed_deletes_apply(v: Seq<OpView>, i: int, p: u64, total: int, s: Seq<u8>)
    requires
        0 <= i <= v.len(),
        0 <= total,
        p + total <= s.len(),
        fits_front(s.take(p as int) + s.skip(p + total), v.subrange(i, i + absorbed_deletes(v, i, p))),
    ensures
        i + absorbed_deletes(v, i, p) <= v.len(),
        total <= absorbed_length(v, i, p, total),
        p + absorbed_length(v, i, p, total) <= s.len(),
        apply_front(s.take(p as int) + s.skip(p + total), v.subrange(i, i + absorbed_deletes(v, i, p)))
            == s.take(p as int) + s.skip(p + absorbed_length(v, i, p, total)),
    decreases v.len() - i,
{
    lemma_absorbed_deletes_bound(v, i, p);
    let t = s.take(p as int) + s.skip(p + total);
    let k = absorbed_deletes(v, i, p);
    if 0 <= i < v.len() && v[i] is Delete && v[i]->Delete_0 == p {
        let l = v[i]->Delete_1;
        let w = v.subrange(i, i + k);
        assert(w[0] == v[i]);
        assert(w.drop_first() =~= v.subrange(i + 1, i + 1 + absorbed_deletes(v, i + 1, p)));
        assert(in_range(t, v[i]));
        assert(t.take(p as int) =~= s.take(p as int));
        assert(t.skip(p + l) =~= s.skip(p + total + l));
        assert(apply_op(t, v[i]) =~= s.take(p as int) + s.skip(p + (total + l)));
        lemma_absorbed_deletes_apply(v, i + 1, p, total + l, s);
    } else {
        assert(v.subrange(i, i) =~= Seq::<OpView>::empty());
    }
}

/// Merging runs of inserts and of deletes from index `i` changes nothing
/// about what the operations do, where they all act in turn.
proof fn lemma_merged_from_apply(v: Seq<OpView>, i: int, s: Seq<u8>)
    requires
        0 <= i <= v.len(),
        fits_front(s, v.subrange(i, v.len() as int)),
    ensures
        apply_front(s, merged_from(v, i, true)) == apply_front(s, v.subrange(i, v.len() as int)),
        merged_from(v, i, true).len() <= v.len() - i,
    decreases v.len() - i, 1int,
{
    let n = v.len() as int;
    if i < n {
        match v[i] {
            OpView::Insert(p, d) => { lemma_merged_insert_apply(v, i, s); },
            OpView::Delete(p, l) => { lemma_merged_delete_apply(v, i, s); },
            _ => {
                let rest = v.subrange(i, n);
                assert(rest =~= seq![v[i]] + v.subrange(i + 1, n));
                lemma_apply_front_concat(s, seq![v[i]], v.subrange(i + 1, n));
                assert(seq![v[i]][0] == v[i]);
                assert(seq![v[i]].drop_first() =~= Seq::<OpView>::empty());
                lemma_merged_from_apply(v, i + 1, apply_op(s, v[i]));
                let m = merged_from(v, i, true);
                assert(m == seq![v[i]] + merged_from(v, i + 1, true));
                assert(m[0] == v[i]);
                assert(m.drop_first() =~= merged_from(v, i + 1, true));
            },
        }
    } else {
        assert(v.subrange(i, n) =~= Seq::<OpView>::empty());
    }
}

/// The merging step at an insert.
#[verifier::rlimit(30)]
proof fn lemma_merged_insert_apply(v: Seq<OpView>, i: int, s: Seq<u8>)
    requires
        0 <= i < v.len(),
        v[i] is Insert,
        fits_front(s, v.subrange(i, v.len() as int)),
    ensures
        apply_front(s, merged_from(v, i, true)) == apply_front(s, v.subrange(i, v.len() as int)),
        merged_from(v, i, true).len() <= v.len() - i,
    decreases v.len() - i, 0int,
{
    let n = v.len() as int;
    let p = v[i]->Insert_0;
    let d = v[i]->Insert_1;
    let rest = v.subrange(i, n);
    let k = absorbed_inserts(v, i + 1, p, d.len() as int);
    lemma_absorbed_inserts_apply(v, i + 1, p, d, s);
    let mid = v.subrange(i + 1, i + 1 + k);
    let tail = v.subrange(i + 1 + k, n);
    assert(rest =~= seq![v[i]] + (mid + tail));
    lemma_apply_front_concat(s, seq![v[i]], mid + tail);
    assert(seq![v[i]][0] == v[i]);
    assert(seq![v[i]].drop_first() =~= Seq::<OpView>::empty());
    assert(in_range(s, v[i]));
    let t = apply_op(s, v[i]);
    assert(t == s.take(p as int) + d + s.skip(p as int));
    lemma_apply_front_concat(t, mid, tail);
    let u = s.take(p as int) + absorbed_data(v, i + 1, p, d) + s.skip(p as int);
    lemma_merged_from_apply(v, i + 1 + k, u);
    let m = merged_from(v, i, true);
    assert(m == seq![OpView::Insert(p, absorbed_data(v, i + 1, p, d))] + merged_from(v, i + 1 + k, true));
    assert(m[0] == OpView::Insert(p, absorbed_data(v, i + 1, p, d)));
    assert(m.drop_first() =~= merged_from(v, i + 1 + k, true));
    assert(apply_op(s, m[0]) == u);
}

/// The merging step at a delete.
#[verifier::rlimit(30)]
proof fn lemma_merged_delete_apply(v: Seq<OpView>, i: int, s: Seq<u8>)
    requires
        0 <= i < v.len(),
        v[i] is Delete,
        fits_front(s, v.subrange(i, v.len() as int)),
    ensures
        apply_front(s, merged_from(v, i, true)) == apply_front(s, v.subrange(i, v.len() as int)),
        merged_from(v, i, true).len() <= v.len() - i,
    decreases v.len() - i, 0int,
{
    let n = v.len() as int;
    let p = v[i]->Delete_0;
    let l = v[i]->Delete_1;
    let rest = v.subrange(i, n);
    let k = absorbed_deletes(v, i + 1, p);
    lemma_absorbed_deletes_bound(v, i + 1, p);
    let mid = v.subrange(i + 1, i + 1 + k);
    let tail = v.subrange(i + 1 + k, n);
    assert(rest =~= seq![v[i]] + (mid + tail));
    lemma_apply_front_concat(s, seq![v[i]], mid + tail);
    assert(seq![v[i]][0] == v[i]);
    assert(seq![v[i]].drop_first() =~= Seq::<OpView>::empty());
    assert(in_range(s, v[i]));
    let t = apply_op(s, v[i]);
    assert(t == s.take(p as int) + s.skip(p + l));
    lemma_apply_front_concat(t, mid, tail);
    lemma_absorbed_deletes_apply(v, i + 1, p, l as int, s);
    let total = absorbed_length(v, i + 1, p, l as int);
    let u = s.take(p as int) + s.skip(p + total);
    lemma_merged_from_apply(v, i + 1 + k, u);
    let m = merged_from(v, i, true);
    assert(m == seq![OpView::Delete(p, total as u64)] + merged_from(v, i + 1 + k, true));
    assert(m[0] == OpView::Delete(p, total as u64));
    assert(m.drop_first() =~= merged_from(v, i + 1 + k, true));
    assert(apply_op(s, m[0]) == u);
}

/// Merging adjacent operations never changes what a batch does: where the
/// operations, applied in order to `s`, each act on the state they meet,
/// the merged operations give the same state, and there are no more of them.
pub proof fn lemma_merge_preserves_effect(v: Seq<OpView>, s: Seq<u8>)
    requires
        fits_front(s, v),
    ensures
        apply_ops(s, merged_from(v, 0, true)) == apply_ops(s, v),
        merged_from(v, 0, true).len() <= v.len(),
{
    assert(v.subrange(0, v.len() as int) =~= v);
    lemma_merged_from_apply(v, 0, s);
    lemma_apply_front_is_apply_ops(s, v);
    lemma_apply_front_is_apply_ops(s, merged_from(v, 0, true));
}

/// `b` continues `a` as a merge would join them: an insert that starts where
/// the data of an earlier insert ends, or a delete at the position of an
/// earlier delete.
pub open spec fn continues(a: OpView, b: OpView) -> bool {
    match (a, b) {
        (OpView::Insert(p1, d1), OpView::Insert(p2, _)) => p2 == p1 + d1.len(),
        (OpView::Delete(p1, _), OpView::Delete(p2, _)) => p2 == p1,
        _ => false,
    }
}

/// No operation continues the one before it: nothing is left to merge.
pub open spec fn fully_merged(m: Seq<OpView>) -> bool
    decreases m.len(),
{
    m.len() < 2 || (!continues(m[0], m[1]) && fully_merged(m.drop_first()))
}

/// The run of inserts absorbed after index `i` stops at an operation that
/// does not continue the merged insert.
proof fn lemma_absorbed_inserts_stop(v: Seq<OpView>, i: int, p: u64, d: Seq<u8>)
    requires
        0 <= i,
    ensures
        ({
            let j = i + absorbed_inserts(v, i, p, d.len() as int);
            !(j < v.len() && v[j] is Insert && v[j]->Insert_0 as int == p + absorbed_data(v, i, p, d).len())
        }),
    decreases v.len() - i,
{
    if 0 <= i < v.len() && v[i] is Insert && v[i]->Insert_0 as int == p + d.len() {
        let e = v[i]->Insert_1;
        assert((d + e).len() == d.len() + e.len());
        lemma_absorbed_inserts_stop(v, i + 1, p, d + e);
    }
}

/// The run of deletes absorbed after index `i` stops at an operation that
/// is no delete at `p`.
proof fn lemma_absorbed_deletes_stop(v: Seq<OpView>, i: int, p: u64)
    requires
        0 <= i,
    ensures
        ({
            let j = i + absorbed_deletes(v, i, p);
            !(j < v.len() && v[j] is Delete && v[j]->Delete_0 == p)
        }),
    decreases v.len() - i,
{
    if 0 <= i < v.len() && v[i] is Delete && v[i]->Delete_0 == p {
        lemma_absorbed_deletes_stop(v, i + 1, p);
    }
}

/// The first operation merged from index `i` has the kind and position of `v[i]`.
proof fn lemma_merged_head(v: Seq<OpView>, i: int)
    requires
        0 <= i < v.len(),
    ensures
        merged_from(v, i, true).len() > 0,
        v[i] is Insert ==> merged_from(v, i, true)[0] is Insert && merged_from(v, i, true)[0]->Insert_0 == v[i]->Insert_0,
        v[i] is Delete ==> merged_from(v, i, true)[0] is Delete && merged_from(v, i, true)[0]->Delete_0 == v[i]->Delete_0,
        !(v[i] is Insert) && !(v[i] is Delete) ==> merged_from(v, i, true)[0] == v[i],
{
}

/// Nothing is left to merge in what merging from index `i` gives.
proof fn lemma_merged_from_fully_merged(v: Seq<OpView>, i: int)
    requires
        0 <= i,
    ensures
        fully_merged(merged_from(v, i, true)),
    decreases v.len() - i,
{
    if i < v.len() {
        let m = merged_from(v, i, true);
        match v[i] {
            OpView::Insert(p, d) => {
                let k = absorbed_inserts(v, i + 1, p, d.len() as int);
                lemma_absorbed_inserts_bound(v, i + 1, p, d.len() as int);
                lemma_absorbed_inserts_stop(v, i + 1, p, d);
                let j = i + 1 + k;
                lemma_merged_from_fully_merged(v, j);
                assert(m.drop_first() =~= merged_from(v, j, true));
                if j < v.len() {
                    lemma_merged_head(v, j);
                    assert(m[1] == merged_from(v, j, true)[0]);
                }
            },
            OpView::Delete(p, l) => {
                let k = absorbed_deletes(v, i + 1, p);
                lemma_absorbed_deletes_bound(v, i + 1, p);
                lemma_absorbed_deletes_stop(v, i + 1, p);
                let j = i + 1 + k;
                lemma_merged_from_fully_merged(v, j);
                assert(m.drop_first() =~= merged_from(v, j, true));
                if j < v.len() {
                    lemma_merged_head(v, j);
                    assert(m[1] == merged_from(v, j, true)[0]);
                }
            },
            _ => {
                lemma_merged_from_fully_merged(v, i + 1);
                assert(m.drop_first() =~= merged_from(v, i + 1, true));
            },
        }
    }
}

/// Merging from index `i` gives no more operations than there are from `i`.
proof fn lemma_merged_from_len(v: Seq<OpView>, i: int)
    requires
        0 <= i <= v.len(),
    ensures
        merged_from(v, i, true).len() <= v.len() - i,
    decreases v.len() - i,
{
    if i < v.len() {
        match v[i] {
            OpView::Insert(p, d) => {
                lemma_absorbed_inserts_bound(v, i + 1, p, d.len() as int);
                lemma_merged_from_len(v, i + 1 + absorbed_inserts(v, i + 1, p, d.len() as int));
            },
            OpView::Delete(p, l) => {
                lemma_absorbed_deletes_bound(v, i + 1, p);
                lemma_merged_from_len(v, i + 1 + absorbed_deletes(v, i + 1, p));
            },
            _ => {
                lemma_merged_from_len(v, i + 1);
            },
        }
    }
}

/// Merging leaves nothing to merge: in the merged operations no insert
/// continues the insert before it and no delete stands at the position of
/// the delete before it; and there are no more of them.
pub proof fn lemma_merge_is_complete(v: Seq<OpView>)
    ensures
        fully_merged(merged_from(v, 0, true)),
        merged_from(v, 0, true).len() <= v.len(),
{
    lemma_merged_from_fully_merged(v, 0);
    lemma_merged_from_len(v, 0);
}

/// A state differs from itself in nothing: its diff with itself is empty.
pub proof fn lemma_diff_of_self(a: Seq<u8>)
    ensures
        diff_of(a, a) == Seq::<OpView>::empty(),
{
    let g = greedy(a, a, 0, 0);
    if a.len() == 0 {
        assert(g =~= Seq::<StepView>::empty());
    } else {
        let m = a.len() as int;
        lemma_eq_run_prefix(a, a, 0, m);
        assert(g == seq![StepView::Equal(m as nat)] + greedy(a, a, m, m));
        assert(greedy(a, a, m, m) =~= Seq::<StepView>::empty());
        assert(g =~= seq![StepView::Equal(m as nat)]);
        assert(g.drop_first() =~= Seq::<StepView>::empty());
        assert(ops_of_steps(g.drop_first(), m as nat) =~= Seq::<OpView>::empty());
    }
    assert(ops_of_steps(g, 0) =~= Seq::<OpView>::empty());
    lemma_merge_short(Seq::<OpView>::empty());
}

/// Where one string is a prefix of the other, applying the diff of `a` to
/// `b` to `a` gives `b`.
pub proof fn lemma_diff_round_trip(a: Seq<u8>, b: Seq<u8>)
    requires
        (a.len() <= b.len() && b.take(a.len() as int) == a) || (b.len() <= a.len() && a.take(b.len() as int) == b),
        a.len() <= u64::MAX,
        b.len() <= u64::MAX,
    ensures
        apply_ops(a, diff_of(a, b)) == b,
{
    let d = diff_of(a, b);
    if a.len() == 0 && b.len() > 0 {
        assert(d.drop_last() =~= Seq::<OpView>::empty());
        assert(a.take(0) + b + a.skip(0) =~= b);
        assert(apply_ops(a, d.drop_last()) == a);
        assert(apply_op(a, d.last()) =~= b);
    } else if a.len() > 0 && b.len() == 0 {
        assert(d.drop_last() =~= Seq::<OpView>::empty());
        assert(a.take(0) + a.skip(a.len() as int) =~= b);
        assert(apply_ops(a, d.drop_last()) == a);
        assert(apply_op(a, d.last()) =~= b);
    } else if a.len() == 0 && b.len() == 0 {
        assert(greedy(a, b, 0, 0) =~= Seq::<StepView>::empty());
        assert(ops_of_steps(greedy(a, b, 0, 0), 0) =~= Seq::<OpView>::empty());
        lemma_merge_short(Seq::<OpView>::empty());
        assert(d =~= Seq::<OpView>::empty());
        assert(a =~= b);
    } else {
        let m: int = if a.len() <= b.len() { a.len() as int } else { b.len() as int };
        assert(a.take(m) =~= b.take(m));
        lemma_eq_run_prefix(a, b, 0, m);
        assert(a[0] == a.take(m)[0] && b[0] == b.take(m)[0]);
        let g = greedy(a, b, 0, 0);
        assert(g == seq![StepView::Equal(m as nat)] + greedy(a, b, m, m));
        if a.len() == b.len() {
            assert(greedy(a, b, m, m) =~= Seq::<StepView>::empty());
            assert(g =~= seq![StepView::Equal(m as nat)]);
            assert(g.drop_first() =~= Seq::<StepView>::empty());
            assert(ops_of_steps(g.drop_first(), m as nat) =~= Seq::<OpView>::empty());
            assert(ops_of_steps(g, 0) =~= Seq::<OpView>::empty());
            lemma_merge_short(Seq::<OpView>::empty());
            assert(d =~= Seq::<OpView>::empty());
            assert(a =~= b);
        } else if a.len() < b.len() {
            lemma_ins_run_rest(a, b, m);
            let rest = b.subrange(m, b.len() as int);
            assert(greedy(a, b, m, b.len() as int) =~= Seq::<StepView>::empty());
            assert(greedy(a, b, m, m) =~= seq![StepView::Insert(rest)]);
            assert(g =~= seq![StepView::Equal(m as nat), StepView::Insert(rest)]);
            assert(g.drop_first() =~= seq![StepView::Insert(rest)]);
            assert(g.drop_first().drop_first() =~= Seq::<StepView>::empty());
            let ops = ops_of_steps(g, 0);
            assert(ops_of_steps(g.drop_first().drop_first(), m as nat) =~= Seq::<OpView>::empty());
            assert(ops_of_steps(g.drop_first(), m as nat) =~= seq![OpView::Insert(m as u64, rest)]);
            assert(ops =~= seq![OpView::Insert(m as u64, rest)]);
            lemma_merge_short(ops);
            assert(d =~= ops);
            assert(d.drop_last() =~= Seq::<OpView>::empty());
            assert(a.take(m) + rest + a.skip(m) =~= b);
            assert(apply_ops(a, d.drop_last()) == a);
            assert(apply_op(a, d.last()) =~= b);
        } else {
            assert(greedy(a, b, a.len() as int, m) =~= Seq::<StepView>::empty());
            assert(greedy(a, b, m, m) =~= seq![StepView::Delete((a.len() - m) as nat)]);
            assert(g =~= seq![StepView::Equal(m as nat), StepView::Delete((a.len() - m) as nat)]);
            assert(g.drop_first() =~= seq![StepView::Delete((a.len() - m) as nat)]);
            assert(g.drop_first().drop_first() =~= Seq::<StepView>::empty());
            let ops = ops_of_steps(g, 0);
            let k = (a.len() - m) as nat;
            assert(ops_of_steps(g.drop_first().drop_first(), (m + k) as nat) =~= Seq::<OpView>::empty());
            assert(ops_of_steps(g.drop_first(), m as nat) =~= seq![OpView::Delete(m as u64, k as u64)]);
            assert(ops =~= seq![OpView::Delete(m as u64, (a.len() - m) as u64)]);
            lemma_merge_short(ops);
            assert(d =~= ops);
            assert(d.drop_last() =~= Seq::<OpView>::empty());
            assert(a.take(m) + a.skip(a.len() as int) =~= b);
            assert(apply_ops(a, d.drop_last()) == a);
            assert(apply_op(a, d.last()) =~= b);
        }
    }
}

} // verus!
