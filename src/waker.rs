use vstd::prelude::*;
use std::collections::HashMap;
use crate::task::TaskId;

verus! {

broadcast use vstd::std_specs::hash::group_hash_axioms;

/// The resumption callbacks registered for `id` in `m`, oldest first.
pub open spec fn registered<W>(m: Map<u64, Seq<W>>, id: u64) -> Seq<W> {
    if m.contains_key(id) {
        m[id]
    } else {
        Seq::empty()
    }
}

/// Resumption callbacks of suspended waiters, kept per task until the task
/// completes.
pub struct WakerRegistry<W> {
    wakers: HashMap<u64, Vec<W>>,
}

impl<W> WakerRegistry<W> {
    pub closed spec fn pending(&self) -> Map<u64, Seq<W>> {
        self.wakers@.map_values(|v: Vec<W>| v@)
    }

    pub fn new() -> (r: Self)
        ensures
            r.pending() == Map::<u64, Seq<W>>::empty(),
    {
        let r = WakerRegistry { wakers: HashMap::new() };
        assert(r.pending() =~= Map::<u64, Seq<W>>::empty());
        r
    }

    /// Adds `waker` behind the callbacks already registered for `task_id`.
    pub fn register_waker(&mut self, task_id: TaskId, waker: W)
        ensures
            final(self).pending() == old(self).pending().insert(
                task_id.0,
                registered(old(self).pending(), task_id.0).push(waker),
            ),
    {
        let id = task_id.0;
        let list = match self.wakers.remove(&id) {
            Some(v) => v,
            None => Vec::new(),
        };
        let mut list = list;
        let ghost prev = list@;
        assert(prev == registered(old(self).pending(), id));
        list.push(waker);
        self.wakers.insert(id, list);
        assert(self.pending() =~= old(self).pending().insert(id, prev.push(waker)));
    }

    /// Removes and returns every callback registered for `task_id`, oldest
    /// first, for the caller to invoke once each.
    pub fn wake(&mut self, task_id: TaskId) -> (r: Vec<W>)
        ensures
            r@ == registered(old(self).pending(), task_id.0),
            final(self).pending() == old(self).pending().remove(task_id.0),
    {
        let r = match self.wakers.remove(&task_id.0) {
            Some(v) => v,
            None => Vec::new(),
        };
        assert(self.pending() =~= old(self).pending().remove(task_id.0));
        r
    }

    /// Forgets every registered callback.
    pub fn clear_all(&mut self)
        ensures
            final(self).pending() == Map::<u64, Seq<W>>::empty(),
    {
        self.wakers.clear();
        assert(self.pending() =~= Map::<u64, Seq<W>>::empty());
    }
}

} // verus!
