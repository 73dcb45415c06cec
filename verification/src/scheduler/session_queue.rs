//! A bounded queue of session operations, processed in batches by priority.

use vstd::prelude::*;
use crate::error::{ValenceError, FrameworkError};
use crate::pubkey::Pubkey;
use crate::runtime::clock_get;

verus! {

broadcast use vstd::seq_lib::group_seq_properties;

/// The kinds of operations that can be queued.
#[derive(Clone, Copy, Debug, PartialEq, Eq, Hash, Structural)]
pub enum OperationType {
    SessionInit,
    SessionActivation,
    SessionPause,
    SessionResume,
    SessionClose,
    CapabilityExecution,
}

/// An operation waiting in the queue.
#[derive(Debug)]
pub struct PendingOperation {
    pub operation_type: OperationType,
    /// The account the operation targets, such as a session address.
    pub target_account: Pubkey,
    pub params: Vec<u8>,
    pub queued_by: Pubkey,
    pub queued_at: i64,
    /// The operation expires after this time.
    pub deadline: i64,
    /// Higher runs first.
    pub priority: u8,
}

/// The queue account.
#[derive(Debug)]
pub struct SessionOperationQueue {
    pub authority: Pubkey,
    pub pending_operations: Vec<PendingOperation>,
    pub max_queue_size: u16,
    pub total_processed: u64,
    pub total_failed: u64,
    pub created_at: i64,
    pub last_processed_at: i64,
    pub bump: u8,
}

/// Statistics of a queue.
#[derive(Debug)]
pub struct QueueStats {
    pub pending_count: usize,
    pub total_processed: u64,
    pub total_failed: u64,
    /// Each operation type that occurs, with how often, in order of first occurrence.
    pub operation_type_counts: Vec<(OperationType, usize)>,
    /// The largest age of a pending operation, 0 for none.
    pub oldest_operation_age: i64,
}

/// Processes the session operation queue.
pub struct QueueManager;

/// The abstract value of a pending operation.
pub struct PendingView {
    pub operation_type: OperationType,
    pub target_account: Seq<u8>,
    pub params: Seq<u8>,
    pub queued_by: Seq<u8>,
    pub queued_at: i64,
    pub deadline: i64,
    pub priority: u8,
}

/// The abstract value of a pending operation.
pub open spec fn pending_view(o: PendingOperation) -> PendingView {
    PendingView {
        operation_type: o.operation_type,
        target_account: o.target_account.bytes@,
        params: o.params@,
        queued_by: o.queued_by.bytes@,
        queued_at: o.queued_at,
        deadline: o.deadline,
        priority: o.priority,
    }
}

/// The abstract values of pending operations.
pub open spec fn pending_views(v: Seq<PendingOperation>) -> Seq<PendingView> {
    v.map_values(|o: PendingOperation| pending_view(o))
}

/// `a` runs strictly before `b`: a higher priority, or the same priority
/// and queued earlier.
pub open spec fn runs_before(a: PendingView, b: PendingView) -> bool {
    a.priority > b.priority || (a.priority == b.priority && a.queued_at < b.queued_at)
}

/// The first index from `k` that `x` runs strictly before, or the length.
pub open spec fn slot_from(s: Seq<PendingView>, x: PendingView, k: int) -> int
    decreases s.len() - k,
{
    if k >= s.len() || k < 0 {
        s.len() as int
    } else if runs_before(x, s[k]) {
        k
    } else {
        slot_from(s, x, k + 1)
    }
}

/// The operations stably sorted by `runs_before`.
pub open spec fn by_priority(v: Seq<PendingView>) -> Seq<PendingView>
    decreases v.len(),
{
    if v.len() == 0 {
        seq![]
    } else {
        let s = by_priority(v.drop_last());
        s.insert(slot_from(s, v.last(), 0), v.last())
    }
}

/// Walks the sorted operations from the front while fewer than `room` have
/// been taken: an operation whose deadline is before `now` is dropped and
/// counted, any other is taken. Gives what is taken, how many were dropped,
/// and what is left.
pub open spec fn batch_walk(s: Seq<PendingView>, room: nat, now: i64) -> (Seq<PendingView>, nat, Seq<PendingView>)
    decreases s.len(),
{
    if room == 0 || s.len() == 0 {
        (seq![], 0, s)
    } else {
        let w = batch_walk(s.drop_first(), if s[0].deadline < now { room } else { (room - 1) as nat }, now);
        if s[0].deadline < now {
            (w.0, w.1 + 1, w.2)
        } else {
            (seq![s[0]] + w.0, w.1, w.2)
        }
    }
}

/// The outcome of processing a batch of the queue at time `now`.
pub open spec fn batch_of(q: SessionOperationQueue, max_batch_size: nat, now: i64) -> (Seq<PendingView>, nat, Seq<PendingView>) {
    batch_walk(by_priority(pending_views(q.pending_operations@)), max_batch_size, now)
}

/// The queue's counters can take the batch processed at time `now`.
pub open spec fn counters_fit(q: SessionOperationQueue, max_batch_size: nat, now: i64) -> bool {
    let w = batch_of(q, max_batch_size, now);
    q.total_failed + w.1 <= u64::MAX && q.total_processed + w.0.len() <= u64::MAX
}

/// `after` and `out` are what processing a batch of `before` at time `now` gives.
pub open spec fn batch_done(before: SessionOperationQueue, after: SessionOperationQueue, out: Seq<PendingView>, max_batch_size: nat, now: i64) -> bool {
    let w = batch_of(before, max_batch_size, now);
    &&& out == w.0
    &&& pending_views(after.pending_operations@) == w.2
    &&& after.total_failed == before.total_failed + w.1
    &&& after.total_processed == before.total_processed + w.0.len()
    &&& after.last_processed_at == now
    &&& after.authority == before.authority
    &&& after.max_queue_size == before.max_queue_size
    &&& after.created_at == before.created_at
    &&& after.bump == before.bump
}

/// The index of `t` among the counted types, or -1.
pub open spec fn type_index(c: Seq<(OperationType, nat)>, t: OperationType) -> int
    decreases c.len(),
{
    if c.len() == 0 {
        -1
    } else if c.last().0 == t {
        c.len() - 1
    } else {
        type_index(c.drop_last(), t)
    }
}

/// The counts with one more operation of type `t`.
pub open spec fn add_type(c: Seq<(OperationType, nat)>, t: OperationType) -> Seq<(OperationType, nat)> {
    let k = type_index(c, t);
    if k >= 0 {
        c.update(k, (t, c[k].1 + 1))
    } else {
        c.push((t, 1nat))
    }
}

/// Each operation type that occurs, with how often, in order of first occurrence.
pub open spec fn type_counts(ts: Seq<OperationType>) -> Seq<(OperationType, nat)>
    decreases ts.len(),
{
    if ts.len() == 0 {
        seq![]
    } else {
        add_type(type_counts(ts.drop_last()), ts.last())
    }
}

/// The index found is that of an entry of the type.
proof fn lemma_type_index(c: Seq<(OperationType, nat)>, t: OperationType)
    ensures
        -1 <= type_index(c, t) < c.len(),
        type_index(c, t) >= 0 ==> c[type_index(c, t)].0 == t,
    decreases c.len(),
{
    if c.len() > 0 && c.last().0 != t {
        lemma_type_index(c.drop_last(), t);
    }
}

/// The age of an operation at the clock reading: 0 where there is none.
pub open spec fn age_at(o: PendingView, now: Option<i64>) -> int {
    match now {
        Some(t) => t - o.queued_at,
        None => 0,
    }
}

/// The largest age among the operations, 0 for none.
pub open spec fn oldest_age(s: Seq<PendingView>, now: Option<i64>) -> int
    decreases s.len(),
{
    if s.len() == 0 {
        0
    } else if s.len() == 1 {
        age_at(s[0], now)
    } else {
        let m = oldest_age(s.drop_last(), now);
        let a = age_at(s.last(), now);
        if a >= m { a } else { m }
    }
}

/// Every age fits in an `i64`.
pub open spec fn ages_fit(s: Seq<PendingView>, now: Option<i64>) -> bool {
    forall|i: int| 0 <= i < s.len() ==> i64::MIN <= #[trigger] age_at(s[i], now) <= i64::MAX
}

/// The operation types of the operations.
pub open spec fn op_types(s: Seq<PendingView>) -> Seq<OperationType> {
    s.map_values(|o: PendingView| o.operation_type)
}

/// The counts as integers.
pub open spec fn counts_view(c: Seq<(OperationType, usize)>) -> Seq<(OperationType, nat)> {
    c.map_values(|e: (OperationType, usize)| (e.0, e.1 as nat))
}

/// `s` are the statistics of `q` at the clock reading `now`.
pub open spec fn stats_of(q: SessionOperationQueue, now: Option<i64>, s: QueueStats) -> bool {
    let v = pending_views(q.pending_operations@);
    &&& s.pending_count == v.len()
    &&& s.total_processed == q.total_processed
    &&& s.total_failed == q.total_failed
    &&& counts_view(s.operation_type_counts@) == type_counts(op_types(v))
    &&& s.oldest_operation_age == oldest_age(v, now)
}

/// The in-memory size of a pending operation.
pub open spec fn pending_operation_size() -> nat {
    vstd::layout::size_of::<PendingOperation>()
}

impl SessionOperationQueue {
    /// The account space of a queue: discriminator, authority, room for 100
    /// operations, the size limit, the counters, the times and the bump.
    pub fn size() -> (r: usize)
        requires
            8 + 32 + 4 + 100 * pending_operation_size() + 2 + 8 + 8 + 8 + 8 + 1 <= usize::MAX,
        ensures
            r == 8 + 32 + 4 + 100 * pending_operation_size() + 2 + 8 + 8 + 8 + 8 + 1,
    {
        let op = core::mem::size_of::<PendingOperation>();
        8 + 32 + 4 + 100 * op + 2 + 8 + 8 + 8 + 8 + 1
    }
}

impl PendingOperation {
    /// A copy of the operation.
    pub fn copy_operation(&self) -> (r: PendingOperation)
        ensures
            pending_view(r) == pending_view(*self),
    {
        let params = self.params.clone();
        assert(params@ =~= self.params@);
        PendingOperation {
            operation_type: self.operation_type,
            target_account: self.target_account,
            params,
            queued_by: self.queued_by,
            queued_at: self.queued_at,
            deadline: self.deadline,
            priority: self.priority,
        }
    }
}

/// The walk over a shorter sequence with less room takes no more.
proof fn lemma_walk_bounds(s: Seq<PendingView>, room: nat, now: i64)
    ensures
        batch_walk(s, room, now).0.len() + batch_walk(s, room, now).1 <= s.len(),
    decreases s.len(),
{
    if room > 0 && s.len() > 0 {
        lemma_walk_bounds(s.drop_first(), if s[0].deadline < now { room } else { (room - 1) as nat }, now);
    }
}

/// The walk takes at most `room` operations, none past its deadline; every
/// operation is taken, dropped or left; what is left is the tail of the
/// sequence, and something is left only when `room` operations were taken.
proof fn lemma_walk_accounts(s: Seq<PendingView>, room: nat, now: i64)
    ensures
        ({
            let w = batch_walk(s, room, now);
            &&& w.0.len() <= room
            &&& w.0.len() + w.1 + w.2.len() == s.len()
            &&& w.2 == s.skip(s.len() - w.2.len())
            &&& (forall|i: int| 0 <= i < w.0.len() ==> (#[trigger] w.0[i]).deadline >= now)
            &&& (w.2.len() > 0 ==> w.0.len() == room)
        }),
    decreases s.len(),
{
    if room == 0 || s.len() == 0 {
        assert(s.skip(0) =~= s);
    } else {
        let r2 = if s[0].deadline < now { room } else { (room - 1) as nat };
        lemma_walk_accounts(s.drop_first(), r2, now);
        let w = batch_walk(s.drop_first(), r2, now);
        assert(s.drop_first().skip(s.drop_first().len() - w.2.len()) =~= s.skip(s.len() - w.2.len()));
        if s[0].deadline >= now {
            let t = seq![s[0]] + w.0;
            assert forall|i: int| 0 <= i < t.len() implies (#[trigger] t[i]).deadline >= now by {
                if i > 0 {
                    assert(t[i] == w.0[i - 1]);
                }
            }
        }
    }
}

/// The insertion slot lies within the sequence.
proof fn lemma_slot_bound(s: Seq<PendingView>, x: PendingView, k: int)
    requires
        0 <= k <= s.len(),
    ensures
        k <= slot_from(s, x, k) <= s.len(),
    decreases s.len() - k,
{
    if k < s.len() && !runs_before(x, s[k]) {
        lemma_slot_bound(s, x, k + 1);
    }
}

/// Sorting by priority keeps the number of operations.
proof fn lemma_by_priority_len(v: Seq<PendingView>)
    ensures
        by_priority(v).len() == v.len(),
    decreases v.len(),
{
    if v.len() > 0 {
        lemma_by_priority_len(v.drop_last());
        lemma_slot_bound(by_priority(v.drop_last()), v.last(), 0);
    }
}

/// No operation runs strictly before one that comes earlier.
pub open spec fn in_run_order(s: Seq<PendingView>) -> bool {
    forall|i: int, j: int| 0 <= i < j < s.len() ==> !runs_before(#[trigger] s[j], #[trigger] s[i])
}

/// The slot is after every operation that `x` does not run before, up to
/// the first it does.
proof fn lemma_slot_from(s: Seq<PendingView>, x: PendingView, k: int)
    requires
        0 <= k <= s.len(),
    ensures
        forall|i: int| k <= i < slot_from(s, x, k) ==> !runs_before(x, #[trigger] s[i]),
        slot_from(s, x, k) < s.len() ==> runs_before(x, s[slot_from(s, x, k)]),
    decreases s.len() - k,
{
    if k < s.len() && !runs_before(x, s[k]) {
        lemma_slot_from(s, x, k + 1);
    }
}

/// Sorting by priority puts the operations in run order, each taken from the input.
proof fn lemma_by_priority_sorted(v: Seq<PendingView>)
    ensures
        in_run_order(by_priority(v)),
        forall|i: int| 0 <= i < by_priority(v).len() ==> v.contains(#[trigger] by_priority(v)[i]),
    decreases v.len(),
{
    if v.len() > 0 {
        let p = v.drop_last();
        lemma_by_priority_sorted(p);
        let s = by_priority(p);
        let x = v.last();
        lemma_slot_bound(s, x, 0);
        lemma_slot_from(s, x, 0);
        let k = slot_from(s, x, 0);
        let q = s.insert(k, x);
        assert(q == by_priority(v));
        assert(v[v.len() - 1] == x);
        assert forall|i: int| 0 <= i < q.len() implies v.contains(#[trigger] q[i]) by {
            if i != k {
                let e = if i < k { s[i] } else { s[i - 1] };
                assert(q[i] == e);
                assert(p.contains(e));
                let j = choose|j: int| 0 <= j < p.len() && p[j] == e;
                assert(v[j] == e);
            }
        }
        assert forall|i: int, j: int| 0 <= i < j < q.len() implies !runs_before(#[trigger] q[j], #[trigger] q[i]) by {
            if j < k {
                assert(q[i] == s[i] && q[j] == s[j]);
            } else if j == k {
                assert(q[i] == s[i]);
                assert(!runs_before(x, s[i]));
            } else if i < k {
                assert(q[i] == s[i] && q[j] == s[j - 1]);
            } else if i == k {
                assert(q[j] == s[j - 1]);
                assert(runs_before(x, s[k]));
                if k < j - 1 {
                    assert(!runs_before(s[j - 1], s[k]));
                }
            } else {
                assert(q[i] == s[i - 1] && q[j] == s[j - 1]);
            }
        }
    }
}

/// The walk over operations in run order takes them in run order.
proof fn lemma_walk_sorted(s: Seq<PendingView>, room: nat, now: i64)
    requires
        in_run_order(s),
    ensures
        in_run_order(batch_walk(s, room, now).0),
        forall|i: int| 0 <= i < batch_walk(s, room, now).0.len() ==> s.contains(#[trigger] batch_walk(s, room, now).0[i]),
    decreases s.len(),
{
    if room > 0 && s.len() > 0 {
        let t = s.drop_first();
        let r2 = if s[0].deadline < now { room } else { (room - 1) as nat };
        assert(in_run_order(t)) by {
            assert forall|i: int, j: int| 0 <= i < j < t.len() implies !runs_before(#[trigger] t[j], #[trigger] t[i]) by {
                assert(t[i] == s[i + 1] && t[j] == s[j + 1]);
            }
        }
        lemma_walk_sorted(t, r2, now);
        let w = batch_walk(t, r2, now).0;
        assert forall|i: int| 0 <= i < w.len() implies s.contains(#[trigger] w[i]) by {
            assert(t.contains(w[i]));
            let j = choose|j: int| 0 <= j < t.len() && t[j] == w[i];
            assert(s[j + 1] == w[i]);
        }
        if s[0].deadline >= now {
            let taken = seq![s[0]] + w;
            assert forall|i: int, j: int| 0 <= i < j < taken.len() implies !runs_before(#[trigger] taken[j], #[trigger] taken[i]) by {
                if i == 0 {
                    assert(taken[j] == w[j - 1]);
                    assert(t.contains(w[j - 1]));
                    let m = choose|m: int| 0 <= m < t.len() && t[m] == w[j - 1];
                    assert(s[m + 1] == w[j - 1]);
                } else {
                    assert(taken[i] == w[i - 1] && taken[j] == w[j - 1]);
                }
            }
            assert forall|i: int| 0 <= i < taken.len() implies s.contains(#[trigger] taken[i]) by {
                if i == 0 {
                    assert(s[0] == taken[0]);
                } else {
                    assert(taken[i] == w[i - 1]);
                }
            }
        }
    }
}

/// A processed batch runs in priority order: a higher priority first, and
/// among equal priorities the one queued earlier; every operation of it was
/// pending.
pub proof fn lemma_batch_in_priority_order(q: SessionOperationQueue, max_batch_size: nat, now: i64)
    ensures
        in_run_order(batch_of(q, max_batch_size, now).0),
        forall|i: int| 0 <= i < batch_of(q, max_batch_size, now).0.len()
            ==> pending_views(q.pending_operations@).contains(#[trigger] batch_of(q, max_batch_size, now).0[i]),
{
    let v = pending_views(q.pending_operations@);
    lemma_by_priority_sorted(v);
    lemma_walk_sorted(by_priority(v), max_batch_size, now);
    let w = batch_of(q, max_batch_size, now).0;
    assert forall|i: int| 0 <= i < w.len() implies v.contains(#[trigger] w[i]) by {
        assert(by_priority(v).contains(w[i]));
        let j = choose|j: int| 0 <= j < by_priority(v).len() && by_priority(v)[j] == w[i];
        assert(v.contains(by_priority(v)[j]));
    }
}

/// Processing a batch loses no operation: each pending operation is
/// processed, dropped as expired, or left in the queue. At most
/// `max_batch_size` are processed, none past its deadline; those left are
/// the last ones in priority order, and some are left only when the batch
/// is full.
pub proof fn lemma_batch_accounts_for_all(q: SessionOperationQueue, max_batch_size: nat, now: i64)
    ensures
        ({
            let w = batch_of(q, max_batch_size, now);
            let sorted = by_priority(pending_views(q.pending_operations@));
            &&& w.0.len() <= max_batch_size
            &&& w.0.len() + w.1 + w.2.len() == q.pending_operations@.len()
            &&& w.2 == sorted.skip(sorted.len() - w.2.len())
            &&& (forall|i: int| 0 <= i < w.0.len() ==> (#[trigger] w.0[i]).deadline >= now)
            &&& (w.2.len() > 0 ==> w.0.len() == max_batch_size)
        }),
{
    let v = pending_views(q.pending_operations@);
    lemma_by_priority_len(v);
    lemma_walk_accounts(by_priority(v), max_batch_size, now);
}

/// The ages of a prefix are bounded by those of the whole: the largest age
/// of a non-empty prefix extended by one operation.
proof fn lemma_oldest_step(s: Seq<PendingView>, i: int, now: Option<i64>)
    requires
        0 < i < s.len(),
    ensures
        oldest_age(s.take(i + 1), now) == (if age_at(s[i], now) >= oldest_age(s.take(i), now) { age_at(s[i], now) } else { oldest_age(s.take(i), now) }),
{
    assert(s.take(i + 1).drop_last() =~= s.take(i));
}

impl QueueManager {
    /// Appends the operation, refused with `QueueFull` once the queue holds
    /// `max_queue_size` operations.
    pub fn enqueue_operation(queue: &mut SessionOperationQueue, operation: PendingOperation) -> (r: Result<(), ValenceError>)
        ensures
            old(queue).pending_operations@.len() >= old(queue).max_queue_size ==> r == Err::<(), ValenceError>(ValenceError::QueueFull) && *final(queue) == *old(queue),
            old(queue).pending_operations@.len() < old(queue).max_queue_size ==> r is Ok
                && final(queue).pending_operations@ == old(queue).pending_operations@.push(operation)
                && *final(queue) == (SessionOperationQueue { pending_operations: final(queue).pending_operations, ..*old(queue) }),
    {
        if queue.pending_operations.len() >= queue.max_queue_size as usize {
            return Err(ValenceError::QueueFull);
        }
        queue.pending_operations.push(operation);
        Ok(())
    }

    /// Sorts the queue stably by priority, highest first, then by queue time;
    /// then, from the front and while fewer than `max_batch_size` have been
    /// taken, drops and counts as failed each operation whose deadline is
    /// before `now` and takes the others. Records the time.
    pub fn process_batch_at(queue: &mut SessionOperationQueue, max_batch_size: usize, now: i64) -> (r: Vec<PendingOperation>)
        requires
            counters_fit(*old(queue), max_batch_size as nat, now),
        ensures
            batch_done(*old(queue), *final(queue), pending_views(r@), max_batch_size as nat, now),
    {
        let ghost v = pending_views(queue.pending_operations@);
        let ghost q0 = *queue;
        let mut ops: Vec<PendingOperation> = Vec::new();
        std::mem::swap(&mut ops, &mut queue.pending_operations);
        let mut sorted: Vec<PendingOperation> = Vec::new();
        let n_ops = ops.len();
        let ghost n = n_ops as nat;
        let mut i: usize = 0;
        while ops.len() > 0
            invariant
                v == pending_views(q0.pending_operations@),
                n == v.len(),
                n <= usize::MAX,
                i + ops@.len() == n,
                pending_views(ops@) == v.skip(i as int),
                pending_views(sorted@) == by_priority(v.take(i as int)),
            decreases ops@.len(),
        {
            let x = ops.remove(0);
            let ghost s = pending_views(sorted@);
            let ghost xv = pending_view(x);
            assert(xv == v[i as int]) by {
                assert(v.skip(i as int)[0] == v[i as int]);
            }
            assert(pending_views(ops@) =~= v.skip(i + 1));
            let mut k: usize = 0;
            while k < sorted.len() && !(x.priority > sorted[k].priority || (x.priority == sorted[k].priority && x.queued_at < sorted[k].queued_at))
                invariant
                    k <= sorted.len(),
                    s == pending_views(sorted@),
                    xv == pending_view(x),
                    slot_from(s, xv, 0) == slot_from(s, xv, k as int),
                decreases sorted.len() - k,
            {
                k += 1;
            }
            assert(slot_from(s, xv, k as int) == k);
            sorted.insert(k, x);
            proof {
                assert(pending_views(sorted@) =~= s.insert(k as int, xv));
                assert(v.take(i + 1).drop_last() =~= v.take(i as int));
                assert(v.take(i + 1).last() == xv);
            }
            i += 1;
        }
        assert(v.take(n as int) =~= v);
        let ghost total = batch_walk(by_priority(v), max_batch_size as nat, now);
        queue.pending_operations = sorted;
        let mut processed: Vec<PendingOperation> = Vec::new();
        let mut dropped: u64 = 0;
        while queue.pending_operations.len() > 0 && processed.len() < max_batch_size
            invariant
                processed@.len() <= max_batch_size,
                total == batch_walk(by_priority(v), max_batch_size as nat, now),
                q0.total_failed + total.1 <= u64::MAX,
                ({
                    let w = batch_walk(pending_views(queue.pending_operations@), (max_batch_size - processed@.len()) as nat, now);
                    &&& pending_views(processed@) + w.0 == total.0
                    &&& dropped + w.1 == total.1
                    &&& w.2 == total.2
                }),
                queue.authority == q0.authority,
                queue.max_queue_size == q0.max_queue_size,
                queue.created_at == q0.created_at,
                queue.bump == q0.bump,
                queue.total_failed == q0.total_failed,
                queue.total_processed == q0.total_processed,
            decreases queue.pending_operations@.len(),
        {
            let ghost cur = pending_views(queue.pending_operations@);
            let ghost room = (max_batch_size - processed@.len()) as nat;
            let expired = queue.pending_operations[0].deadline < now;
            let op = queue.pending_operations.remove(0);
            assert(pending_views(queue.pending_operations@) =~= cur.drop_first());
            proof {
                lemma_walk_bounds(cur.drop_first(), if cur[0].deadline < now { room } else { (room - 1) as nat }, now);
            }
            if expired {
                dropped = dropped + 1;
            } else {
                let ghost prev = pending_views(processed@);
                processed.push(op);
                assert(pending_views(processed@) =~= prev.push(cur[0]));
                assert(prev.push(cur[0]) + batch_walk(cur.drop_first(), (room - 1) as nat, now).0 =~= prev + (seq![cur[0]] + batch_walk(cur.drop_first(), (room - 1) as nat, now).0));
            }
        }
        proof {
            lemma_walk_bounds(by_priority(v), max_batch_size as nat, now);
            assert(pending_views(processed@) =~= total.0);
        }
        queue.total_failed = queue.total_failed + dropped;
        queue.total_processed = queue.total_processed + processed.len() as u64;
        queue.last_processed_at = now;
        processed
    }

    /// Processes a batch as `process_batch_at` does, at the clock's time;
    /// refused with `UnsupportedSysvar`, the queue untouched, where the clock
    /// cannot be read.
    pub fn process_batch(queue: &mut SessionOperationQueue, max_batch_size: usize) -> (r: Result<Vec<PendingOperation>, FrameworkError>)
        requires
            forall|t: i64| #[trigger] counters_fit(*old(queue), max_batch_size as nat, t),
        ensures
            r is Err ==> r == Err::<Vec<PendingOperation>, FrameworkError>(FrameworkError::UnsupportedSysvar) && *final(queue) == *old(queue),
            r matches Ok(out) ==> exists|t: i64| #[trigger] batch_done(*old(queue), *final(queue), pending_views(out@), max_batch_size as nat, t),
    {
        let now = match clock_get() {
            Some(c) => c.unix_timestamp,
            None => { return Err(FrameworkError::UnsupportedSysvar); }
        };
        assert(counters_fit(*queue, max_batch_size as nat, now));
        let out = Self::process_batch_at(queue, max_batch_size, now);
        assert(batch_done(*old(queue), *queue, pending_views(out@), max_batch_size as nat, now));
        assert(exists|t: i64| #[trigger] batch_done(*old(queue), *queue, pending_views(out@), max_batch_size as nat, t));
        let r = Ok(out);
        assert(r matches Ok(o) && pending_views(o@) == pending_views(out@));
        r
    }

    /// Counts one more operation of type `t`.
    fn count_type(counts: &mut Vec<(OperationType, usize)>, t: OperationType, bound: usize)
        requires
            forall|k: int| 0 <= k < old(counts)@.len() ==> (#[trigger] old(counts)@[k]).1 <= bound,
            bound < usize::MAX,
        ensures
            counts_view(final(counts)@) == add_type(counts_view(old(counts)@), t),
            forall|k: int| 0 <= k < final(counts)@.len() ==> (#[trigger] final(counts)@[k]).1 <= bound + 1,
    {
        let ghost c = counts_view(counts@);
        proof {
            lemma_type_index(c, t);
        }
        let mut k: usize = counts.len();
        while k > 0
            invariant
                k <= counts@.len(),
                c == counts_view(counts@),
                *counts == *old(counts),
                forall|j: int| 0 <= j < counts@.len() ==> (#[trigger] counts@[j]).1 <= bound,
                bound < usize::MAX,
                type_index(c, t) == type_index(c.take(k as int), t),
            decreases k,
        {
            assert(c.take(k as int).drop_last() =~= c.take(k - 1));
            if counts[k - 1].0 == t {
                let (u, cnt) = counts.remove(k - 1);
                counts.insert(k - 1, (u, cnt + 1));
                assert(counts_view(counts@) =~= c.update(k - 1, (t, c[k - 1].1 + 1)));
                assert forall|j: int| 0 <= j < counts@.len() implies (#[trigger] counts@[j]).1 <= bound + 1 by {
                    if j != k - 1 {
                        assert(counts@[j] == old(counts)@[j]);
                    }
                }
                return;
            }
            k = k - 1;
        }
        assert(c.take(0) =~= Seq::<(OperationType, nat)>::empty());
        counts.push((t, 1));
        assert(counts_view(counts@) =~= c.push((t, 1nat)));
    }

    /// The statistics of the queue with ages taken at the clock reading
    /// `now` (0 where there is none).
    pub fn get_queue_stats_at(queue: &SessionOperationQueue, now: Option<i64>) -> (r: QueueStats)
        requires
            ages_fit(pending_views(queue.pending_operations@), now),
        ensures
            stats_of(*queue, now, r),
    {
        let ghost v = pending_views(queue.pending_operations@);
        let ghost ts = op_types(v);
        let mut counts: Vec<(OperationType, usize)> = Vec::new();
        let mut oldest: i64 = 0;
        let mut i: usize = 0;
        while i < queue.pending_operations.len()
            invariant
                i <= queue.pending_operations@.len(),
                v == pending_views(queue.pending_operations@),
                ts == op_types(v),
                ages_fit(v, now),
                counts_view(counts@) == type_counts(ts.take(i as int)),
                forall|k: int| 0 <= k < counts@.len() ==> (#[trigger] counts@[k]).1 <= i,
                oldest == oldest_age(v.take(i as int), now),
            decreases queue.pending_operations@.len() - i,
        {
            let op = &queue.pending_operations[i];
            let ghost c = counts_view(counts@);
            assert(ts.take(i + 1).drop_last() =~= ts.take(i as int));
            assert(ts.take(i + 1).last() == op.operation_type);
            proof {
                lemma_type_index(c, op.operation_type);
            }
            Self::count_type(&mut counts, op.operation_type, i);
            let a: i64 = match now {
                Some(t) => {
                    assert(i64::MIN <= age_at(v[i as int], now) <= i64::MAX);
                    t - op.queued_at
                }
                None => 0,
            };
            proof {
                assert(v.take(i + 1).drop_last() =~= v.take(i as int));
                if i > 0 {
                    lemma_oldest_step(v, i as int, now);
                }
            }
            if i == 0 || a >= oldest {
                oldest = a;
            }
            i += 1;
        }
        assert(ts.take(ts.len() as int) =~= ts);
        assert(v.take(v.len() as int) =~= v);
        QueueStats {
            pending_count: queue.pending_operations.len(),
            total_processed: queue.total_processed,
            total_failed: queue.total_failed,
            operation_type_counts: counts,
            oldest_operation_age: oldest,
        }
    }

    /// The statistics of the queue with ages taken at the clock's time (0
    /// where the clock cannot be read); none where an age would not fit in
    /// an `i64`.
    pub fn get_queue_stats(queue: &SessionOperationQueue) -> (r: Option<QueueStats>)
        ensures
            r matches Some(s) ==> exists|now: Option<i64>| #[trigger] stats_of(*queue, now, s),
            r is None ==> exists|t: i64| !#[trigger] ages_fit(pending_views(queue.pending_operations@), Some(t)),
    {
        let now = match clock_get() {
            Some(c) => Some(c.unix_timestamp),
            None => None,
        };
        let mut i: usize = 0;
        while i < queue.pending_operations.len()
            invariant
                i <= queue.pending_operations@.len(),
                forall|j: int| 0 <= j < i ==> i64::MIN <= #[trigger] age_at(pending_views(queue.pending_operations@)[j], now) <= i64::MAX,
            decreases queue.pending_operations@.len() - i,
        {
            let q = queue.pending_operations[i].queued_at;
            assert(pending_views(queue.pending_operations@)[i as int].queued_at == q);
            match now {
                Some(t) => {
                    if t.checked_sub(q).is_none() {
                        assert(age_at(pending_views(queue.pending_operations@)[i as int], Some(t)) == t - q);
                        assert(!ages_fit(pending_views(queue.pending_operations@), Some(t)));
                        return None;
                    }
                }
                None => {}
            }
            i += 1;
        }
        let s = Self::get_queue_stats_at(queue, now);
        assert(stats_of(*queue, now, s));
        let r = Some(s);
        assert(r matches Some(x) && stats_of(*queue, now, x));
        r
    }
}

} // verus!
