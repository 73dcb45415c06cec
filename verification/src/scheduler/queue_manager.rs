//! Execution queues of capabilities, one per shard, with a queue for high
//! priorities and a table of the items being processed.

use vstd::prelude::*;
use std::collections::VecDeque;
use crate::error::{ValenceError, FrameworkError, ProgramFailure};
use crate::pubkey::Pubkey;
use crate::runtime::clock_get;
use crate::text::views;

verus! {

broadcast use vstd::seq_lib::group_seq_properties;

/// The priority from which items also enter the high-priority queue.
pub const HIGH_PRIORITY: u8 = 7;

/// The state of a queue item.
#[derive(Debug, Clone, Copy, PartialEq, Eq, Structural)]
pub enum QueueItemStatus {
    Pending,
    Processing,
    Completed,
    Failed,
}

/// An item of an execution queue.
#[derive(Debug)]
pub struct QueueItem {
    pub shard_id: Pubkey,
    pub capability_id: String,
    pub priority: u8,
    pub timestamp: i64,
    pub status: QueueItemStatus,
}

/// Counts over the queues.
#[derive(Debug, Clone, Copy)]
pub struct QueueStatus {
    pub total_items: u64,
    pub processing_items: u64,
    pub failed_items: u64,
}

/// The abstract value of a queue item.
pub struct ItemView {
    pub shard: Seq<u8>,
    pub capability: Seq<char>,
    pub priority: u8,
    pub timestamp: i64,
    pub status: QueueItemStatus,
}

/// The abstract value of a queue item.
pub open spec fn item_view(i: QueueItem) -> ItemView {
    ItemView { shard: i.shard_id.bytes@, capability: i.capability_id@, priority: i.priority, timestamp: i.timestamp, status: i.status }
}

/// The abstract values of queue items.
pub open spec fn items_view(v: Seq<QueueItem>) -> Seq<ItemView> {
    v.map_values(|i: QueueItem| item_view(i))
}

/// The same item in another state.
pub open spec fn with_status(i: ItemView, s: QueueItemStatus) -> ItemView {
    ItemView { status: s, ..i }
}

/// The shard queues: each shard's address with its items, in order.
pub type ShardQueuesView = Seq<(Seq<u8>, Seq<ItemView>)>;

/// The abstract value of a queue manager.
pub struct QueueManagerView {
    pub queues: ShardQueuesView,
    pub priority: Seq<ItemView>,
    pub processing: Seq<ItemView>,
}

/// No shard occurs twice among the queues, no capability twice among the
/// items being processed.
pub open spec fn manager_wf(v: QueueManagerView) -> bool {
    &&& forall|i: int, j: int| 0 <= i < j < v.queues.len() ==> (#[trigger] v.queues[i]).0 != (#[trigger] v.queues[j]).0
    &&& forall|i: int, j: int| 0 <= i < j < v.processing.len() ==> (#[trigger] v.processing[i]).capability != (#[trigger] v.processing[j]).capability
}

/// The first index from `i` on of the queue of `key`, or -1.
pub open spec fn shard_index_from(qs: ShardQueuesView, key: Seq<u8>, i: int) -> int
    decreases qs.len() - i,
{
    if i < 0 || i >= qs.len() {
        -1
    } else if qs[i].0 == key {
        i
    } else {
        shard_index_from(qs, key, i + 1)
    }
}

/// The index of the queue of `key`, or -1.
pub open spec fn shard_index(qs: ShardQueuesView, key: Seq<u8>) -> int {
    shard_index_from(qs, key, 0)
}

/// The queues with `items` appended to the queue of `key`, which is created
/// at the end where there is none.
pub open spec fn append_to_shard(qs: ShardQueuesView, key: Seq<u8>, items: Seq<ItemView>) -> ShardQueuesView {
    let k = shard_index(qs, key);
    if k >= 0 {
        qs.update(k, (key, qs[k].1 + items))
    } else {
        qs.push((key, items))
    }
}

/// The first index from `i` on of an item of capability `c`, or -1.
pub open spec fn capability_index_from(ps: Seq<ItemView>, c: Seq<char>, i: int) -> int
    decreases ps.len() - i,
{
    if i < 0 || i >= ps.len() {
        -1
    } else if ps[i].capability == c {
        i
    } else {
        capability_index_from(ps, c, i + 1)
    }
}

/// The index of the item of capability `c`, or -1.
pub open spec fn capability_index(ps: Seq<ItemView>, c: Seq<char>) -> int {
    capability_index_from(ps, c, 0)
}

/// The items with `item` in place of the item of its capability, or added
/// at the end.
pub open spec fn upsert(ps: Seq<ItemView>, item: ItemView) -> Seq<ItemView> {
    let k = capability_index(ps, item.capability);
    if k >= 0 {
        ps.update(k, item)
    } else {
        ps.push(item)
    }
}

/// The items without the item of capability `c`.
pub open spec fn remove_capability(ps: Seq<ItemView>, c: Seq<char>) -> Seq<ItemView> {
    let k = capability_index(ps, c);
    if k >= 0 {
        ps.remove(k)
    } else {
        ps
    }
}

/// The items that do not belong to the shard `key`, in order.
pub open spec fn other_shards(items: Seq<ItemView>, key: Seq<u8>) -> Seq<ItemView>
    decreases items.len(),
{
    if items.len() == 0 {
        Seq::empty()
    } else {
        let rest = other_shards(items.drop_last(), key);
        if items.last().shard == key {
            rest
        } else {
            rest.push(items.last())
        }
    }
}

/// The pending items of the given capabilities.
pub open spec fn pending_items(shard: Seq<u8>, caps: Seq<Seq<char>>, priority: u8, timestamp: i64) -> Seq<ItemView> {
    caps.map_values(|c: Seq<char>| ItemView { shard, capability: c, priority, timestamp, status: QueueItemStatus::Pending })
}

/// The state after enqueuing the capabilities.
pub open spec fn enqueued(v: QueueManagerView, shard: Seq<u8>, caps: Seq<Seq<char>>, priority: u8, timestamp: i64) -> QueueManagerView {
    let items = pending_items(shard, caps, priority, timestamp);
    QueueManagerView {
        queues: append_to_shard(v.queues, shard, items),
        priority: if priority >= HIGH_PRIORITY { v.priority + items } else { v.priority },
        processing: v.processing,
    }
}

/// The first index from `i` on of a non-empty queue, or -1.
pub open spec fn nonempty_from(qs: ShardQueuesView, i: int) -> int
    decreases qs.len() - i,
{
    if i < 0 || i >= qs.len() {
        -1
    } else if qs[i].1.len() > 0 {
        i
    } else {
        nonempty_from(qs, i + 1)
    }
}

/// The state after taking the next item, and the item: the head of the
/// high-priority queue, else the head of the first non-empty shard queue.
pub open spec fn dequeued(v: QueueManagerView) -> (QueueManagerView, Option<ItemView>) {
    if v.priority.len() > 0 {
        let item = with_status(v.priority[0], QueueItemStatus::Processing);
        (QueueManagerView { queues: v.queues, priority: v.priority.drop_first(), processing: upsert(v.processing, item) }, Some(item))
    } else {
        let k = nonempty_from(v.queues, 0);
        if k >= 0 {
            let item = with_status(v.queues[k].1[0], QueueItemStatus::Processing);
            (QueueManagerView {
                queues: v.queues.update(k, (v.queues[k].0, v.queues[k].1.drop_first())),
                priority: v.priority,
                processing: upsert(v.processing, item),
            }, Some(item))
        } else {
            (v, None)
        }
    }
}

/// The state after a failure of capability `c`: its item leaves the
/// processing table and, one priority lower and failed, goes back to its
/// shard's queue unless its priority was 0.
pub open spec fn failed(v: QueueManagerView, c: Seq<char>) -> QueueManagerView {
    let k = capability_index(v.processing, c);
    if k >= 0 {
        let item = v.processing[k];
        let processing = v.processing.remove(k);
        if item.priority > 0 {
            let back = ItemView { priority: (item.priority - 1) as u8, status: QueueItemStatus::Failed, ..item };
            QueueManagerView { queues: append_to_shard(v.queues, item.shard, seq![back]), priority: v.priority, processing }
        } else {
            QueueManagerView { queues: v.queues, priority: v.priority, processing }
        }
    } else {
        v
    }
}

/// The state after clearing the shard `key` from every queue and table.
pub open spec fn cleared(v: QueueManagerView, key: Seq<u8>) -> QueueManagerView {
    let k = shard_index(v.queues, key);
    QueueManagerView {
        queues: if k >= 0 { v.queues.remove(k) } else { v.queues },
        priority: other_shards(v.priority, key),
        processing: other_shards(v.processing, key),
    }
}

/// The number of items over the shard queues.
pub open spec fn total_len(qs: ShardQueuesView) -> nat
    decreases qs.len(),
{
    if qs.len() == 0 {
        0
    } else {
        total_len(qs.drop_last()) + qs.last().1.len()
    }
}

/// The number of failed items.
pub open spec fn failed_count(items: Seq<ItemView>) -> nat
    decreases items.len(),
{
    if items.len() == 0 {
        0
    } else {
        failed_count(items.drop_last()) + if items.last().status == QueueItemStatus::Failed { 1nat } else { 0nat }
    }
}

/// The number of failed items over the shard queues.
pub open spec fn failed_total(qs: ShardQueuesView) -> nat
    decreases qs.len(),
{
    if qs.len() == 0 {
        0
    } else {
        failed_total(qs.drop_last()) + failed_count(qs.last().1)
    }
}

/// The abstract value of an optional item.
pub open spec fn opt_item_view(o: Option<QueueItem>) -> Option<ItemView> {
    match o {
        Some(i) => Some(item_view(i)),
        None => None,
    }
}

/// Manages execution queues across shards.
pub struct QueueManager {
    queues: Vec<(Pubkey, VecDeque<QueueItem>)>,
    priority_queue: VecDeque<QueueItem>,
    processing: Vec<QueueItem>,
}

impl View for QueueManager {
    type V = QueueManagerView;

    closed spec fn view(&self) -> QueueManagerView {
        QueueManagerView {
            queues: self.queues@.map_values(|e: (Pubkey, VecDeque<QueueItem>)| (e.0.bytes@, items_view(e.1@))),
            priority: items_view(self.priority_queue@),
            processing: items_view(self.processing@),
        }
    }
}

impl QueueItem {
    /// A copy of the item.
    pub fn copy_item(&self) -> (r: QueueItem)
        ensures
            item_view(r) == item_view(*self),
    {
        QueueItem { shard_id: self.shard_id, capability_id: self.capability_id.clone(), priority: self.priority, timestamp: self.timestamp, status: self.status }
    }
}

impl Default for QueueManager {
    fn default() -> (r: Self)
        ensures
            r@.queues.len() == 0,
            r@.priority.len() == 0,
            r@.processing.len() == 0,
    {
        let r = QueueManager { queues: Vec::new(), priority_queue: VecDeque::new(), processing: Vec::new() };
        assert(r@.queues =~= Seq::empty());
        assert(r@.priority =~= Seq::empty());
        assert(r@.processing =~= Seq::empty());
        r
    }
}

/// The search from `i` finds the first matching index at or after `i`.
proof fn lemma_shard_index_from(qs: ShardQueuesView, key: Seq<u8>, i: int)
    requires
        0 <= i <= qs.len(),
    ensures
        ({
            let k = shard_index_from(qs, key, i);
            ||| (k == -1 && forall|j: int| i <= j < qs.len() ==> (#[trigger] qs[j]).0 != key)
            ||| (i <= k < qs.len() && qs[k].0 == key && forall|j: int| i <= j < k ==> (#[trigger] qs[j]).0 != key)
        }),
    decreases qs.len() - i,
{
    if i < qs.len() && qs[i].0 != key {
        lemma_shard_index_from(qs, key, i + 1);
    }
}

/// The search from `i` finds the first matching index at or after `i`.
proof fn lemma_capability_index_from(ps: Seq<ItemView>, c: Seq<char>, i: int)
    requires
        0 <= i <= ps.len(),
    ensures
        ({
            let k = capability_index_from(ps, c, i);
            ||| (k == -1 && forall|j: int| i <= j < ps.len() ==> (#[trigger] ps[j]).capability != c)
            ||| (i <= k < ps.len() && ps[k].capability == c && forall|j: int| i <= j < k ==> (#[trigger] ps[j]).capability != c)
        }),
    decreases ps.len() - i,
{
    if i < ps.len() && ps[i].capability != c {
        lemma_capability_index_from(ps, c, i + 1);
    }
}

/// Every item kept by `other_shards` is an item of the input.
proof fn lemma_other_shards_subset(items: Seq<ItemView>, key: Seq<u8>)
    ensures
        forall|x: ItemView| #[trigger] other_shards(items, key).contains(x) ==> items.contains(x),
        other_shards(items, key).len() <= items.len(),
    decreases items.len(),
{
    if items.len() > 0 {
        lemma_other_shards_subset(items.drop_last(), key);
        assert forall|x: ItemView| #[trigger] other_shards(items, key).contains(x) implies items.contains(x) by {
            let rest = other_shards(items.drop_last(), key);
            if rest.contains(x) {
                assert(items.drop_last().contains(x));
                let j = choose|j: int| 0 <= j < items.drop_last().len() && items.drop_last()[j] == x;
                assert(items[j] == x);
            } else {
                assert(items[items.len() - 1] == x);
            }
        }
    }
}

/// Keeping some items keeps capabilities distinct.
proof fn lemma_other_shards_distinct(items: Seq<ItemView>, key: Seq<u8>)
    requires
        forall|i: int, j: int| 0 <= i < j < items.len() ==> (#[trigger] items[i]).capability != (#[trigger] items[j]).capability,
    ensures
        ({
            let r = other_shards(items, key);
            forall|i: int, j: int| 0 <= i < j < r.len() ==> (#[trigger] r[i]).capability != (#[trigger] r[j]).capability
        }),
    decreases items.len(),
{
    if items.len() > 0 {
        let d = items.drop_last();
        assert forall|i: int, j: int| 0 <= i < j < d.len() implies (#[trigger] d[i]).capability != (#[trigger] d[j]).capability by {
            assert(d[i] == items[i] && d[j] == items[j]);
        }
        lemma_other_shards_distinct(d, key);
        lemma_other_shards_subset(d, key);
        let rest = other_shards(d, key);
        let r = other_shards(items, key);
        if items.last().shard != key {
            assert forall|i: int, j: int| 0 <= i < j < r.len() implies (#[trigger] r[i]).capability != (#[trigger] r[j]).capability by {
                if j == r.len() - 1 {
                    assert(rest.contains(r[i]));
                    assert(d.contains(r[i]));
                    let m = choose|m: int| 0 <= m < d.len() && d[m] == r[i];
                    assert(items[m] == r[i]);
                    assert(items[items.len() - 1] == r[j]);
                } else {
                    assert(r[i] == rest[i] && r[j] == rest[j]);
                }
            }
        }
    }
}

/// The failed items of queues are at most all their items.
proof fn lemma_failed_le(items: Seq<ItemView>)
    ensures
        failed_count(items) <= items.len(),
    decreases items.len(),
{
    if items.len() > 0 {
        lemma_failed_le(items.drop_last());
    }
}

/// The failed items over the queues are at most all their items.
proof fn lemma_failed_total_le(qs: ShardQueuesView)
    ensures
        failed_total(qs) <= total_len(qs),
    decreases qs.len(),
{
    if qs.len() > 0 {
        lemma_failed_total_le(qs.drop_last());
        lemma_failed_le(qs.last().1);
    }
}

/// The total over a prefix is at most the total over a longer prefix.
proof fn lemma_total_len_prefix(qs: ShardQueuesView, a: int, b: int)
    requires
        0 <= a <= b <= qs.len(),
    ensures
        total_len(qs.take(a)) <= total_len(qs.take(b)),
    decreases b - a,
{
    if a < b {
        lemma_total_len_prefix(qs, a, b - 1);
        assert(qs.take(b).drop_last() =~= qs.take(b - 1));
    }
}

/// Putting an item in the processing table and then removing its
/// capability leaves no item of that capability there, where capabilities
/// were distinct.
proof fn lemma_upsert_then_remove(ps: Seq<ItemView>, item: ItemView)
    requires
        forall|i: int, j: int| 0 <= i < j < ps.len() ==> (#[trigger] ps[i]).capability != (#[trigger] ps[j]).capability,
    ensures
        capability_index(upsert(ps, item), item.capability) >= 0,
        upsert(ps, item)[capability_index(upsert(ps, item), item.capability)] == item,
        forall|j: int| 0 <= j < remove_capability(upsert(ps, item), item.capability).len()
            ==> (#[trigger] remove_capability(upsert(ps, item), item.capability)[j]).capability != item.capability,
{
    let c = item.capability;
    lemma_capability_index_from(ps, c, 0);
    let k = capability_index(ps, c);
    let u = upsert(ps, item);
    lemma_capability_index_from(u, c, 0);
    if k >= 0 {
        assert(u == ps.update(k, item));
        assert forall|j: int| 0 <= j < k implies (#[trigger] u[j]).capability != c by {
            assert(u[j] == ps[j]);
        }
        assert(u[k] == item);
        assert(capability_index(u, c) == k);
        let r = u.remove(k);
        assert forall|j: int| 0 <= j < r.len() implies (#[trigger] r[j]).capability != c by {
            if j < k {
                assert(r[j] == ps[j]);
            } else {
                assert(r[j] == ps[j + 1]);
            }
        }
    } else {
        assert(u == ps.push(item));
        assert forall|j: int| 0 <= j < ps.len() implies (#[trigger] u[j]).capability != c by {
            assert(u[j] == ps[j]);
        }
        assert(u[ps.len() as int] == item);
        assert(capability_index(u, c) == ps.len());
        assert(u.remove(ps.len() as int) =~= ps);
    }
}

/// The item that a dequeue hands out is being processed; once it is marked
/// completed, no item of its capability is being processed any more, and
/// the queues and the high-priority queue are as the dequeue left them.
pub proof fn lemma_dequeue_then_complete(v: QueueManagerView)
    requires
        manager_wf(v),
    ensures
        dequeued(v).1 matches Some(item) ==> {
            let after = dequeued(v).0;
            let done = QueueManagerView { processing: remove_capability(after.processing, item.capability), ..after };
            &&& item.status == QueueItemStatus::Processing
            &&& capability_index(after.processing, item.capability) >= 0
            &&& after.processing[capability_index(after.processing, item.capability)] == item
            &&& (forall|j: int| 0 <= j < done.processing.len() ==> (#[trigger] done.processing[j]).capability != item.capability)
            &&& done.queues == after.queues
            &&& done.priority == after.priority
        },
{
    match dequeued(v).1 {
        Some(item) => {
            lemma_upsert_then_remove(v.processing, item);
        }
        None => {}
    }
}

/// The search from `i` finds no non-empty queue exactly when every queue
/// from `i` on is empty.
proof fn lemma_nonempty_from(qs: ShardQueuesView, i: int)
    requires
        0 <= i <= qs.len(),
    ensures
        nonempty_from(qs, i) == -1 <==> forall|j: int| i <= j < qs.len() ==> (#[trigger] qs[j]).1.len() == 0,
        nonempty_from(qs, i) != -1 ==> i <= nonempty_from(qs, i) < qs.len(),
    decreases qs.len() - i,
{
    if i < qs.len() {
        lemma_nonempty_from(qs, i + 1);
    }
}

/// The queues hold no item exactly when each of them is empty.
proof fn lemma_total_len_zero(qs: ShardQueuesView)
    ensures
        total_len(qs) == 0 <==> forall|j: int| 0 <= j < qs.len() ==> (#[trigger] qs[j]).1.len() == 0,
    decreases qs.len(),
{
    if qs.len() > 0 {
        lemma_total_len_zero(qs.drop_last());
        if total_len(qs) == 0 {
            assert forall|j: int| 0 <= j < qs.len() implies (#[trigger] qs[j]).1.len() == 0 by {
                if j < qs.len() - 1 {
                    assert(qs.drop_last()[j] == qs[j]);
                }
            }
        } else if forall|j: int| 0 <= j < qs.len() ==> (#[trigger] qs[j]).1.len() == 0 {
            assert forall|j: int| 0 <= j < qs.drop_last().len() implies (#[trigger] qs.drop_last()[j]).1.len() == 0 by {
                assert(qs.drop_last()[j] == qs[j]);
            }
            assert(qs[qs.len() - 1].1.len() == 0);
        }
    }
}

/// A dequeue hands out an item exactly when one is queued: in the
/// high-priority queue or in some shard's queue.
pub proof fn lemma_dequeue_finds_work(v: QueueManagerView)
    ensures
        dequeued(v).1 is None <==> (v.priority.len() == 0 && total_len(v.queues) == 0),
        dequeued(v).1 is None ==> dequeued(v).0 == v,
{
    lemma_nonempty_from(v.queues, 0);
    lemma_total_len_zero(v.queues);
}

/// Replacing one queue changes the item count by the difference.
proof fn lemma_total_len_update(qs: ShardQueuesView, k: int, x: (Seq<u8>, Seq<ItemView>))
    requires
        0 <= k < qs.len(),
    ensures
        total_len(qs.update(k, x)) == total_len(qs) - qs[k].1.len() + x.1.len(),
    decreases qs.len(),
{
    if k == qs.len() - 1 {
        assert(qs.update(k, x).drop_last() =~= qs.drop_last());
    } else {
        lemma_total_len_update(qs.drop_last(), k, x);
        assert(qs.update(k, x).drop_last() =~= qs.drop_last().update(k, x));
    }
}

/// Enqueuing capabilities adds one item per capability to the shard queues,
/// and to the high-priority queue as well where the priority is high.
pub proof fn lemma_enqueue_counts(v: QueueManagerView, shard: Seq<u8>, caps: Seq<Seq<char>>, priority: u8, timestamp: i64)
    ensures
        total_len(enqueued(v, shard, caps, priority, timestamp).queues) == total_len(v.queues) + caps.len(),
        enqueued(v, shard, caps, priority, timestamp).priority.len()
            == v.priority.len() + (if priority >= HIGH_PRIORITY { caps.len() } else { 0 }),
        enqueued(v, shard, caps, priority, timestamp).processing == v.processing,
{
    let items = pending_items(shard, caps, priority, timestamp);
    lemma_shard_index_from(v.queues, shard, 0);
    let k = shard_index(v.queues, shard);
    if k >= 0 {
        lemma_total_len_update(v.queues, k, (shard, v.queues[k].1 + items));
    } else {
        assert(v.queues.push((shard, items)).drop_last() =~= v.queues);
    }
}

impl QueueManager {
    /// An empty queue manager.
    pub fn new() -> (r: Self)
        ensures
            r@.queues.len() == 0,
            r@.priority.len() == 0,
            r@.processing.len() == 0,
            manager_wf(r@),
    {
        Self::default()
    }

    /// The index of the queue of shard `key`.
    fn find_shard(&self, key: &Pubkey) -> (r: Option<usize>)
        ensures
            r matches Some(k) ==> k == shard_index(self@.queues, key.bytes@) && k < self.queues@.len(),
            r is None ==> shard_index(self@.queues, key.bytes@) == -1,
    {
        let ghost qs = self@.queues;
        let mut k: usize = 0;
        while k < self.queues.len()
            invariant
                k <= self.queues.len(),
                qs == self@.queues,
                qs.len() == self.queues@.len(),
                shard_index(qs, key.bytes@) == shard_index_from(qs, key.bytes@, k as int),
            decreases self.queues.len() - k,
        {
            assert(qs[k as int].0 == self.queues@[k as int].0.bytes@);
            if self.queues[k].0 == *key {
                return Some(k);
            }
            k += 1;
        }
        None
    }

    /// The index of the item of capability `c` among those being processed.
    fn find_processing(&self, c: &String) -> (r: Option<usize>)
        ensures
            r matches Some(k) ==> k == capability_index(self@.processing, c@) && k < self.processing@.len(),
            r is None ==> capability_index(self@.processing, c@) == -1,
    {
        let ghost ps = self@.processing;
        let mut k: usize = 0;
        while k < self.processing.len()
            invariant
                k <= self.processing.len(),
                ps == self@.processing,
                ps.len() == self.processing@.len(),
                capability_index(ps, c@) == capability_index_from(ps, c@, k as int),
            decreases self.processing.len() - k,
        {
            assert(ps[k as int].capability == self.processing@[k as int].capability_id@);
            if self.processing[k].capability_id == *c {
                return Some(k);
            }
            k += 1;
        }
        None
    }

    /// Appends items to the queue of shard `key`, creating it at the end
    /// where there is none.
    fn extend_shard_queue(&mut self, key: Pubkey, items: Vec<QueueItem>)
        ensures
            final(self)@ == (QueueManagerView { queues: append_to_shard(old(self)@.queues, key.bytes@, items_view(items@)), ..old(self)@ }),
            manager_wf(old(self)@) ==> manager_wf(final(self)@),
    {
        let ghost v = self@;
        let found = self.find_shard(&key);
        let (idx, mut dq) = match found {
            Some(k) => {
                let (_, dq) = self.queues.remove(k);
                (k, dq)
            }
            None => (self.queues.len(), VecDeque::new()),
        };
        let ghost start = items_view(dq@);
        let mut i: usize = 0;
        while i < items.len()
            invariant
                i <= items.len(),
                items_view(dq@) == start + items_view(items@).take(i as int),
            decreases items.len() - i,
        {
            let ghost prev = dq@;
            dq.push_back(items[i].copy_item());
            assert(items_view(dq@) =~= items_view(prev).push(item_view(items@[i as int])));
            assert(items_view(items@).take(i + 1) =~= items_view(items@).take(i as int).push(item_view(items@[i as int])));
            i += 1;
        }
        assert(items_view(items@).take(items.len() as int) =~= items_view(items@));
        self.queues.insert(idx, (key, dq));
        proof {
            let k = shard_index(v.queues, key.bytes@);
            lemma_shard_index_from(v.queues, key.bytes@, 0);
            if k >= 0 {
                assert(start =~= v.queues[k].1);
                assert(self@.queues =~= v.queues.update(k, (key.bytes@, v.queues[k].1 + items_view(items@))));
            } else {
                assert(start =~= Seq::<ItemView>::empty());
                assert(self@.queues =~= v.queues.push((key.bytes@, items_view(items@))));
            }
            assert(self@.priority == v.priority);
            assert(self@.processing == v.processing);
            if manager_wf(v) {
                let q2 = self@.queues;
                assert forall|i: int, j: int| 0 <= i < j < q2.len() implies (#[trigger] q2[i]).0 != (#[trigger] q2[j]).0 by {
                    if k >= 0 {
                        assert(q2[i].0 == v.queues[i].0 && q2[j].0 == v.queues[j].0);
                    } else if j < v.queues.len() {
                        assert(q2[i] == v.queues[i] && q2[j] == v.queues[j]);
                    } else {
                        assert(q2[i] == v.queues[i]);
                    }
                }
            }
        }
    }

    /// Enqueues pending items of the capabilities for the shard, stamped
    /// with `timestamp`, also in the high-priority queue from priority 7 on.
    /// Refused with `InvalidOrderingConstraint` for no capability.
    pub fn enqueue_capabilities_at(&mut self, shard_id: Pubkey, capabilities: &Vec<String>, priority: u8, timestamp: i64) -> (r: Result<(), ValenceError>)
        ensures
            capabilities@.len() == 0 ==> r == Err::<(), ValenceError>(ValenceError::InvalidOrderingConstraint) && final(self)@ == old(self)@,
            capabilities@.len() > 0 ==> r is Ok && final(self)@ == enqueued(old(self)@, shard_id.bytes@, views(capabilities@), priority, timestamp),
            manager_wf(old(self)@) ==> manager_wf(final(self)@),
    {
        if capabilities.len() == 0 {
            return Err(ValenceError::InvalidOrderingConstraint);
        }
        let ghost v = self@;
        let ghost expected = pending_items(shard_id.bytes@, views(capabilities@), priority, timestamp);
        let mut items: Vec<QueueItem> = Vec::new();
        let mut i: usize = 0;
        while i < capabilities.len()
            invariant
                i <= capabilities.len(),
                self@ == (QueueManagerView { priority: self@.priority, ..v }),
                manager_wf(v) ==> manager_wf(self@),
                items_view(items@) == expected.take(i as int),
                priority >= HIGH_PRIORITY ==> self@.priority == v.priority + expected.take(i as int),
                priority < HIGH_PRIORITY ==> self@.priority == v.priority,
                expected == pending_items(shard_id.bytes@, views(capabilities@), priority, timestamp),
            decreases capabilities.len() - i,
        {
            let item = QueueItem { shard_id, capability_id: capabilities[i].clone(), priority, timestamp, status: QueueItemStatus::Pending };
            assert(item_view(item) == expected[i as int]);
            assert(expected.take(i + 1) =~= expected.take(i as int).push(expected[i as int]));
            if priority >= HIGH_PRIORITY {
                let ghost prev = self.priority_queue@;
                self.priority_queue.push_back(item.copy_item());
                assert(items_view(self.priority_queue@) =~= items_view(prev).push(item_view(item)));
            }
            let ghost prev_items = items@;
            items.push(item);
            assert(items_view(items@) =~= items_view(prev_items).push(expected[i as int]));
            i += 1;
        }
        assert(expected.take(capabilities.len() as int) =~= expected);
        self.extend_shard_queue(shard_id, items);
        Ok(())
    }

    /// Enqueues the capabilities as `enqueue_capabilities_at` does, stamped
    /// with the clock's time; refused with `UnsupportedSysvar` where the
    /// clock cannot be read.
    pub fn enqueue_capabilities(&mut self, shard_id: Pubkey, capabilities: &Vec<String>, priority: u8) -> (r: Result<(), ProgramFailure>)
        ensures
            capabilities@.len() == 0 ==> r == Err::<(), ProgramFailure>(ProgramFailure::Kernel(ValenceError::InvalidOrderingConstraint)),
            capabilities@.len() > 0 ==> r is Ok || r == Err::<(), ProgramFailure>(ProgramFailure::Framework(FrameworkError::UnsupportedSysvar)),
            r is Err ==> final(self)@ == old(self)@,
            r is Ok ==> exists|t: i64| final(self)@ == #[trigger] enqueued(old(self)@, shard_id.bytes@, views(capabilities@), priority, t),
            manager_wf(old(self)@) ==> manager_wf(final(self)@),
    {
        if capabilities.len() == 0 {
            return Err(ProgramFailure::Kernel(ValenceError::InvalidOrderingConstraint));
        }
        let now = match clock_get() {
            Some(c) => c.unix_timestamp,
            None => { return Err(ProgramFailure::Framework(FrameworkError::UnsupportedSysvar)); }
        };
        match self.enqueue_capabilities_at(shard_id, capabilities, priority, now) {
            Ok(()) => Ok(()),
            Err(e) => Err(ProgramFailure::Kernel(e)),
        }
    }

    /// Moves the item of its capability into the processing table.
    fn record_processing(&mut self, item: QueueItem)
        ensures
            final(self)@ == (QueueManagerView { processing: upsert(old(self)@.processing, item_view(item)), ..old(self)@ }),
            manager_wf(old(self)@) ==> manager_wf(final(self)@),
    {
        let ghost v = self@;
        let found = self.find_processing(&item.capability_id);
        proof {
            lemma_capability_index_from(v.processing, item.capability_id@, 0);
        }
        match found {
            Some(k) => {
                self.processing.remove(k);
                self.processing.insert(k, item);
                assert(self@.processing =~= v.processing.update(k as int, item_view(item)));
            }
            None => {
                self.processing.push(item);
                assert(self@.processing =~= v.processing.push(item_view(item)));
            }
        }
        assert(self@.queues == v.queues);
        assert(self@.priority == v.priority);
    }

    /// Takes the next item for processing: the head of the high-priority
    /// queue, else the head of the first non-empty shard queue.
    pub fn dequeue_next(&mut self) -> (r: Result<Option<QueueItem>, ValenceError>)
        ensures
            r matches Ok(o) && (final(self)@, opt_item_view(o)) == dequeued(old(self)@),
            manager_wf(old(self)@) ==> manager_wf(final(self)@),
    {
        let ghost v = self@;
        if self.priority_queue.len() > 0 {
            let mut item = self.priority_queue.pop_front().unwrap();
            assert(self@.priority =~= v.priority.drop_first());
            item.status = QueueItemStatus::Processing;
            self.record_processing(item.copy_item());
            return Ok(Some(item));
        }
        let mut k: usize = 0;
        while k < self.queues.len()
            invariant
                k <= self.queues.len(),
                self@ == v,
                v == old(self)@,
                v.priority.len() == 0,
                v.queues.len() == self.queues@.len(),
                nonempty_from(v.queues, 0) == nonempty_from(v.queues, k as int),
            decreases self.queues.len() - k,
        {
            assert(v.queues[k as int].1.len() == self.queues@[k as int].1@.len());
            if self.queues[k].1.len() > 0 {
                let (key, mut dq) = self.queues.remove(k);
                let mut item = dq.pop_front().unwrap();
                assert(items_view(dq@) =~= v.queues[k as int].1.drop_first());
                self.queues.insert(k, (key, dq));
                assert(self@.queues =~= v.queues.update(k as int, (v.queues[k as int].0, v.queues[k as int].1.drop_first())));
                proof {
                    if manager_wf(v) {
                        let q2 = self@.queues;
                        assert forall|i: int, j: int| 0 <= i < j < q2.len() implies (#[trigger] q2[i]).0 != (#[trigger] q2[j]).0 by {
                            assert(q2[i].0 == v.queues[i].0 && q2[j].0 == v.queues[j].0);
                        }
                    }
                }
                item.status = QueueItemStatus::Processing;
                assert(item_view(item) == with_status(v.queues[k as int].1[0], QueueItemStatus::Processing));
                assert(nonempty_from(v.queues, k as int) == k);
                self.record_processing(item.copy_item());
                return Ok(Some(item));
            }
            k += 1;
        }
        Ok(None)
    }

    /// Drops the item of the capability from the processing table.
    pub fn mark_completed(&mut self, capability_id: &String) -> (r: Result<(), ValenceError>)
        ensures
            r is Ok,
            final(self)@ == (QueueManagerView { processing: remove_capability(old(self)@.processing, capability_id@), ..old(self)@ }),
            manager_wf(old(self)@) ==> manager_wf(final(self)@),
    {
        let ghost v = self@;
        if let Some(k) = self.find_processing(capability_id) {
            self.processing.remove(k);
            assert(self@.processing =~= v.processing.remove(k as int));
        }
        assert(self@.queues == v.queues);
        assert(self@.priority == v.priority);
        Ok(())
    }

    /// Drops the item of the capability from the processing table and puts
    /// it back, failed and one priority lower, on its shard's queue unless
    /// its priority was 0.
    pub fn mark_failed(&mut self, capability_id: &String) -> (r: Result<(), ValenceError>)
        ensures
            r is Ok,
            final(self)@ == failed(old(self)@, capability_id@),
            manager_wf(old(self)@) ==> manager_wf(final(self)@),
    {
        let ghost v = self@;
        if let Some(k) = self.find_processing(capability_id) {
            let mut item = self.processing.remove(k);
            assert(self@.processing =~= v.processing.remove(k as int));
            assert(self@.queues == v.queues);
            assert(self@.priority == v.priority);
            item.status = QueueItemStatus::Failed;
            if item.priority > 0 {
                item.priority = item.priority - 1;
                let key = item.shard_id;
                let mut back: Vec<QueueItem> = Vec::new();
                back.push(item);
                assert(items_view(back@) =~= seq![item_view(back@[0])]);
                self.extend_shard_queue(key, back);
            }
        }
        Ok(())
    }

    /// Counts the items over the shard queues, those being processed, and
    /// the failed items over the shard queues.
    pub fn get_queue_status(&self) -> (r: QueueStatus)
        requires
            total_len(self@.queues) <= u64::MAX,
        ensures
            r.total_items == total_len(self@.queues),
            r.processing_items == self@.processing.len(),
            r.failed_items == failed_total(self@.queues),
    {
        let ghost qs = self@.queues;
        let mut total: u64 = 0;
        let mut failed_items: u64 = 0;
        let mut i: usize = 0;
        while i < self.queues.len()
            invariant
                i <= self.queues.len(),
                qs == self@.queues,
                qs.len() == self.queues@.len(),
                total_len(qs) <= u64::MAX,
                total == total_len(qs.take(i as int)),
                failed_items == failed_total(qs.take(i as int)),
            decreases self.queues.len() - i,
        {
            let dq = &self.queues[i].1;
            let ghost items = qs[i as int].1;
            assert(items == items_view(dq@));
            let mut j: usize = 0;
            let mut f: u64 = 0;
            while j < dq.len()
                invariant
                    j <= dq@.len(),
                    items == items_view(dq@),
                    f == failed_count(items.take(j as int)),
                    f <= j,
                decreases dq@.len() - j,
            {
                assert(items.take(j + 1).drop_last() =~= items.take(j as int));
                if dq[j].status == QueueItemStatus::Failed {
                    f = f + 1;
                }
                j += 1;
            }
            assert(items.take(dq@.len() as int) =~= items);
            proof {
                assert(qs.take(i + 1).drop_last() =~= qs.take(i as int));
                lemma_total_len_prefix(qs, i + 1, qs.len() as int);
                assert(qs.take(qs.len() as int) =~= qs);
                lemma_failed_total_le(qs.take(i + 1));
            }
            total = total + dq.len() as u64;
            failed_items = failed_items + f;
            i += 1;
        }
        assert(qs.take(qs.len() as int) =~= qs);
        QueueStatus { total_items: total, processing_items: self.processing.len() as u64, failed_items }
    }

    /// The items of `src` that do not belong to the shard `key`.
    fn keep_other_shards(src: &VecDeque<QueueItem>, key: &Pubkey) -> (r: VecDeque<QueueItem>)
        ensures
            items_view(r@) == other_shards(items_view(src@), key.bytes@),
    {
        let ghost s = items_view(src@);
        let mut r: VecDeque<QueueItem> = VecDeque::new();
        let mut i: usize = 0;
        while i < src.len()
            invariant
                i <= src@.len(),
                s == items_view(src@),
                items_view(r@) == other_shards(s.take(i as int), key.bytes@),
            decreases src@.len() - i,
        {
            assert(s.take(i + 1).drop_last() =~= s.take(i as int));
            if !(src[i].shard_id == *key) {
                let ghost prev = r@;
                r.push_back(src[i].copy_item());
                assert(items_view(r@) =~= items_view(prev).push(s[i as int]));
            }
            i += 1;
        }
        assert(s.take(src@.len() as int) =~= s);
        r
    }

    /// Removes the shard's queue, and its items from the high-priority queue
    /// and from the processing table.
    pub fn clear_shard_queue(&mut self, shard_id: Pubkey) -> (r: Result<(), ValenceError>)
        ensures
            r is Ok,
            final(self)@ == cleared(old(self)@, shard_id.bytes@),
            manager_wf(old(self)@) ==> manager_wf(final(self)@),
    {
        let ghost v = self@;
        if let Some(k) = self.find_shard(&shard_id) {
            self.queues.remove(k);
            assert(self@.queues =~= v.queues.remove(k as int));
        }
        let ghost q2 = self@.queues;
        self.priority_queue = Self::keep_other_shards(&self.priority_queue, &shard_id);
        let mut kept: Vec<QueueItem> = Vec::new();
        let ghost ps = v.processing;
        let mut i: usize = 0;
        while i < self.processing.len()
            invariant
                i <= self.processing@.len(),
                ps == items_view(self.processing@),
                items_view(kept@) == other_shards(ps.take(i as int), shard_id.bytes@),
            decreases self.processing@.len() - i,
        {
            assert(ps.take(i + 1).drop_last() =~= ps.take(i as int));
            if !(self.processing[i].shard_id == shard_id) {
                let ghost prev = kept@;
                kept.push(self.processing[i].copy_item());
                assert(items_view(kept@) =~= items_view(prev).push(ps[i as int]));
            }
            i += 1;
        }
        assert(ps.take(ps.len() as int) =~= ps);
        self.processing = kept;
        proof {
            assert(self@.queues == q2);
            if manager_wf(v) {
                lemma_other_shards_distinct(v.processing, shard_id.bytes@);
                assert forall|i: int, j: int| 0 <= i < j < q2.len() implies (#[trigger] q2[i]).0 != (#[trigger] q2[j]).0 by {
                    let k = shard_index(v.queues, shard_id.bytes@);
                    if k >= 0 {
                        let a = if i < k { i } else { i + 1 };
                        let b = if j < k { j } else { j + 1 };
                        assert(q2[i] == v.queues[a] && q2[j] == v.queues[b]);
                    }
                }
            }
        }
        Ok(())
    }
}

} // verus!
