//! The two bounded collections of `heapless` that the scheduler is built on.
//!
//! Everything in this file is taken on trust: Verus does not read `heapless`.
//! Each contract below restates, for exclusive (`&mut`) access from one
//! context, what the source of `heapless` 0.8 shows of the method it names.
//! The rest of the crate is proved from these contracts alone.

use heapless::binary_heap::{BinaryHeap, Min};
use heapless::mpmc::MpMcQueue;
use vstd::multiset::Multiset;
use vstd::prelude::*;

verus! {

/// Number of task ids the ready queue can hold.
pub const READY_CAPACITY: usize = 4;

/// Number of pending deadlines the deadline heap can hold.
pub const MAX_DEADLINES: usize = 8;

/// `heapless::binary_heap::Min`, the marker that makes a heap a min-heap.
#[verifier::external_type_specification]
#[verifier::external_body]
pub struct ExMin(heapless::binary_heap::Min);

/// `heapless::binary_heap::BinaryHeap`, opaque to the verifier.
#[verifier::external_type_specification]
#[verifier::external_body]
#[verifier::reject_recursive_types(T)]
#[verifier::reject_recursive_types(K)]
pub struct ExBinaryHeap<T, K, const N: usize>(heapless::binary_heap::BinaryHeap<T, K, N>);

/// `heapless::mpmc::MpMcQueue`, opaque to the verifier.
#[verifier::external_type_specification]
#[verifier::external_body]
#[verifier::reject_recursive_types(T)]
pub struct ExMpMcQueue<T, const N: usize>(heapless::mpmc::MpMcQueue<T, N>);

/// The task ids held by a ready queue, oldest first.
pub uninterp spec fn queue_items(queue: MpMcQueue<usize, 4>) -> Seq<usize>;

/// The `(deadline, task id)` entries held by a deadline heap.
pub uninterp spec fn heap_entries(heap: BinaryHeap<(u32, usize), Min, 8>) -> Multiset<(u32, usize)>;

/// The order std gives to pairs: by the first component, then by the second.
pub open spec fn entry_le(a: (u32, usize), b: (u32, usize)) -> bool {
    a.0 < b.0 || (a.0 == b.0 && a.1 <= b.1)
}

/// `entry` is in `entries` and no entry of `entries` is ordered before it.
pub open spec fn is_least(entries: Multiset<(u32, usize)>, entry: (u32, usize)) -> bool {
    &&& entries.count(entry) > 0
    &&& forall|other: (u32, usize)| #[trigger] entries.count(other) > 0 ==> entry_le(entry, other)
}

/// `MpMcQueue::new`: the new queue is empty.
#[verifier::external_body]
pub(crate) fn queue_new() -> (queue: MpMcQueue<usize, 4>)
    ensures
        queue_items(queue) == Seq::<usize>::empty(),
{
    MpMcQueue::new()
}

/// `MpMcQueue::enqueue`: with fewer than four items queued the item is added
/// at the back; otherwise the queue is left alone and the item comes back.
#[verifier::external_body]
pub(crate) fn queue_enqueue(queue: &mut MpMcQueue<usize, 4>, item: usize) -> (outcome: Result<(), usize>)
    ensures
        queue_items(*old(queue)).len() < 4 ==> outcome is Ok && queue_items(*final(queue))
            == queue_items(*old(queue)).push(item),
        queue_items(*old(queue)).len() >= 4 ==> outcome is Err && outcome->Err_0 == item
            && queue_items(*final(queue)) == queue_items(*old(queue)),
{
    queue.enqueue(item)
}

/// `MpMcQueue::dequeue`: the item at the front is taken out and returned, or
/// `None` if the queue is empty.
#[verifier::external_body]
pub(crate) fn queue_dequeue(queue: &mut MpMcQueue<usize, 4>) -> (front: Option<usize>)
    ensures
        queue_items(*old(queue)).len() == 0 ==> front is None && queue_items(*final(queue))
            == queue_items(*old(queue)),
        queue_items(*old(queue)).len() > 0 ==> front == Some(queue_items(*old(queue))[0])
            && queue_items(*final(queue)) == queue_items(*old(queue)).drop_first(),
{
    queue.dequeue()
}

/// `BinaryHeap::new`: the new heap is empty.
#[verifier::external_body]
pub(crate) fn heap_new() -> (heap: BinaryHeap<(u32, usize), Min, 8>)
    ensures
        heap_entries(heap) == Multiset::<(u32, usize)>::empty(),
{
    BinaryHeap::new()
}

/// `BinaryHeap::len`: the number of entries.
#[verifier::external_body]
pub(crate) fn heap_len(heap: &BinaryHeap<(u32, usize), Min, 8>) -> (len: usize)
    ensures
        len == heap_entries(*heap).len(),
{
    heap.len()
}

/// `BinaryHeap::is_empty`: whether the heap holds no entry.
#[verifier::external_body]
pub(crate) fn heap_is_empty(heap: &BinaryHeap<(u32, usize), Min, 8>) -> (empty: bool)
    ensures
        empty == (heap_entries(*heap).len() == 0),
{
    heap.is_empty()
}

/// `BinaryHeap::peek` on a min-heap: a copy of the least entry, or `None` if
/// the heap is empty.
#[verifier::external_body]
pub(crate) fn heap_peek(heap: &BinaryHeap<(u32, usize), Min, 8>) -> (top: Option<(u32, usize)>)
    ensures
        heap_entries(*heap).len() == 0 ==> top is None,
        heap_entries(*heap).len() > 0 ==> top is Some && is_least(heap_entries(*heap), top->0),
{
    heap.peek().copied()
}

/// `BinaryHeap::pop` on a min-heap: the least entry is taken out and
/// returned, or `None` if the heap is empty.
#[verifier::external_body]
pub(crate) fn heap_pop(heap: &mut BinaryHeap<(u32, usize), Min, 8>) -> (top: Option<(u32, usize)>)
    ensures
        heap_entries(*old(heap)).len() == 0 ==> top is None && heap_entries(*final(heap))
            == heap_entries(*old(heap)),
        heap_entries(*old(heap)).len() > 0 ==> top is Some && is_least(
            heap_entries(*old(heap)),
            top->0,
        ) && heap_entries(*final(heap)) == heap_entries(*old(heap)).remove(top->0),
{
    heap.pop()
}

/// `BinaryHeap::push`: with fewer than eight entries held the entry is added;
/// otherwise the heap is left alone and the entry comes back.
#[verifier::external_body]
pub(crate) fn heap_push(heap: &mut BinaryHeap<(u32, usize), Min, 8>, entry: (u32, usize)) -> (outcome:
    Result<(), (u32, usize)>)
    ensures
        heap_entries(*old(heap)).len() < 8 ==> outcome is Ok && heap_entries(*final(heap))
            == heap_entries(*old(heap)).insert(entry),
        heap_entries(*old(heap)).len() >= 8 ==> outcome is Err && outcome->Err_0 == entry
            && heap_entries(*final(heap)) == heap_entries(*old(heap)),
{
    heap.push(entry)
}

/// `BinaryHeap::iter`: every entry of the heap, each once, in no stated order.
#[verifier::external_body]
pub(crate) fn heap_snapshot(heap: &BinaryHeap<(u32, usize), Min, 8>) -> (entries: Vec<(u32, usize)>)
    ensures
        entries@.to_multiset() == heap_entries(*heap),
{
    heap.iter().copied().collect()
}

} // verus!
