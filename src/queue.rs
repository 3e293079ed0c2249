use vstd::prelude::*;
use crossbeam_queue::SegQueue;
use smallvec::SmallVec;

verus! {

/// `crossbeam_queue::SegQueue`, an unbounded FIFO queue; this library only
/// touches it through exclusive references.
#[verifier::external_type_specification]
#[verifier::external_body]
#[verifier::reject_recursive_types(T)]
pub struct ExSegQueue<T>(SegQueue<T>);

/// The dependency list of a queued task, held in a `smallvec::SmallVec`
/// that keeps up to four identifiers inline.
#[verifier::external_body]
pub struct DependencyList {
    items: SmallVec<[u64; 4]>,
}

/// The identifiers held by a queue, head first.
pub uninterp spec fn queue_items(q: SegQueue<u64>) -> Seq<u64>;

/// The identifiers held by a dependency list, in order.
pub uninterp spec fn dependency_items(v: DependencyList) -> Seq<u64>;

/// Relies on `SegQueue::new`: a new queue holds nothing.
#[verifier::external_body]
pub(crate) fn queue_new() -> (r: SegQueue<u64>)
    ensures
        queue_items(r) == Seq::<u64>::empty(),
{
    SegQueue::new()
}

/// Relies on `SegQueue::push_mut`: with exclusive access the value goes to the tail.
#[verifier::external_body]
pub(crate) fn queue_push(q: &mut SegQueue<u64>, value: u64)
    ensures
        queue_items(*final(q)) == queue_items(*old(q)).push(value),
{
    q.push_mut(value)
}

/// Relies on `SegQueue::pop_mut`: with exclusive access the head leaves, or
/// `None` comes back from an empty queue.
#[verifier::external_body]
pub(crate) fn queue_pop(q: &mut SegQueue<u64>) -> (r: Option<u64>)
    ensures
        match r {
            Some(v) => queue_items(*old(q)).len() > 0 && v == queue_items(*old(q))[0]
                && queue_items(*final(q)) == queue_items(*old(q)).drop_first(),
            None => queue_items(*old(q)).len() == 0 && queue_items(*final(q)) == queue_items(*old(q)),
        },
{
    q.pop_mut()
}

/// Relies on `SegQueue::len`: the number of elements in the queue.
#[verifier::external_body]
pub(crate) fn queue_len(q: &SegQueue<u64>) -> (r: usize)
    ensures
        r == queue_items(*q).len(),
{
    q.len()
}

/// Relies on `SmallVec::from_slice`: a list holding the slice's elements in order.
#[verifier::external_body]
pub(crate) fn dependencies_from(s: &[u64]) -> (r: DependencyList)
    ensures
        dependency_items(r) == s@,
{
    DependencyList { items: SmallVec::from_slice(s) }
}

/// Relies on `SmallVec::len`: the number of elements.
#[verifier::external_body]
pub(crate) fn dependencies_len(v: &DependencyList) -> (r: usize)
    ensures
        r == dependency_items(*v).len(),
{
    v.items.len()
}

/// Relies on indexing a `SmallVec`: the element at `i`.
#[verifier::external_body]
pub(crate) fn dependency_at(v: &DependencyList, i: usize) -> (r: u64)
    requires
        i < dependency_items(*v).len(),
    ensures
        r == dependency_items(*v)[i as int],
{
    v.items[i]
}

} // verus!
