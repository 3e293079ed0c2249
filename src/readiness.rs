use vstd::prelude::*;
use std::collections::{HashMap, HashSet};
use crossbeam_queue::SegQueue;
use crate::queue::{
    dependencies_from, dependencies_len, dependency_at, dependency_items, queue_items, queue_len,
    queue_new, queue_pop, queue_push, DependencyList,
};
use crate::task::{BoxedTask, Task, INVALID_TASK_ID};

verus! {

broadcast use vstd::std_specs::hash::group_hash_axioms;

/// A task is ready when each of its dependencies is the reserved identifier
/// or has completed.
pub open spec fn ready(deps: Seq<u64>, completed: Set<u64>) -> bool {
    forall|j: int| 0 <= j < deps.len() ==> deps[j] == INVALID_TASK_ID || completed.contains(#[trigger] deps[j])
}

/// `s` with its first `k` elements moved, in order, behind the rest.
pub open spec fn rotated(s: Seq<u64>, k: int) -> Seq<u64> {
    s.subrange(k, s.len() as int) + s.subrange(0, k)
}

/// A queue of readiness records together with the tasks they stand for.
/// Each queued identifier appears once and has its task and dependency list
/// stored under it.
pub struct TaskQueue<T: Task> {
    queue: SegQueue<u64>,
    storage: HashMap<u64, BoxedTask<T>>,
    dependencies: HashMap<u64, DependencyList>,
}

impl<T: Task> TaskQueue<T> {
    /// Identifiers in the queue, head first.
    pub closed spec fn items(&self) -> Seq<u64> {
        queue_items(self.queue)
    }

    /// Identifiers whose tasks are held here.
    pub closed spec fn stored(&self) -> Set<u64> {
        self.storage@.dom()
    }

    /// The dependency list of each held task.
    pub closed spec fn deps(&self) -> Map<u64, Seq<u64>> {
        self.dependencies@.map_values(|d: DependencyList| dependency_items(d))
    }

    pub closed spec fn wf(&self) -> bool {
        &&& self.items().no_duplicates()
        &&& forall|i: int| 0 <= i < self.items().len() ==> self.storage@.contains_key(#[trigger] self.items()[i])
        &&& self.storage@.dom() == self.dependencies@.dom()
        &&& forall|k: u64| #[trigger] self.storage@.contains_key(k) ==> self.storage@[k].spec_id().0 == k
    }

    /// Nothing is queued or held.
    pub open spec fn is_empty_queue(&self) -> bool {
        self.items().len() == 0 && self.stored() == Set::<u64>::empty()
    }

    /// What one pass over at most `limit` records does, given the completed
    /// set: records that are not ready go back to the tail in order; the first
    /// ready one, if any, is taken out with its task.
    pub open spec fn passed(
        self,
        after: Self,
        completed: Set<u64>,
        limit: nat,
        taken: Option<u64>,
    ) -> bool {
        let n = self.items().len();
        match taken {
            Some(id) => exists|k: int|
                #![trigger self.items()[k]]
                0 <= k < limit && k < n && (forall|j: int|
                    0 <= j < k ==> !ready(self.deps()[#[trigger] self.items()[j]], completed))
                    && ready(self.deps()[self.items()[k]], completed) && id == self.items()[k]
                    && after.items() == rotated(self.items(), k).drop_first() && after.stored()
                    == self.stored().remove(id) && after.deps() == self.deps().remove(id),
            None => {
                let m = if limit < n {
                    limit as int
                } else {
                    n as int
                };
                &&& forall|j: int|
                    0 <= j < m ==> !ready(self.deps()[#[trigger] self.items()[j]], completed)
                &&& after.items() == rotated(self.items(), m)
                &&& after.stored() == self.stored()
                &&& after.deps() == self.deps()
            },
        }
    }

    pub fn new() -> (r: Self)
        ensures
            r.wf(),
            r.is_empty_queue(),
            r.deps() == Map::<u64, Seq<u64>>::empty(),
    {
        let r = TaskQueue { queue: queue_new(), storage: HashMap::new(), dependencies: HashMap::new() };
        assert(r.deps() =~= Map::<u64, Seq<u64>>::empty());
        assert(r.stored() =~= Set::<u64>::empty());
        r
    }

    /// Number of queued records.
    pub fn len(&self) -> (r: usize)
        ensures
            r == self.items().len(),
    {
        queue_len(&self.queue)
    }

    /// Holds `task` and queues its record at the tail.
    pub fn enqueue(&mut self, task: BoxedTask<T>, dependencies: &[u64])
        requires
            old(self).wf(),
            !old(self).stored().contains(task.spec_id().0),
        ensures
            final(self).wf(),
            final(self).items() == old(self).items().push(task.spec_id().0),
            final(self).stored() == old(self).stored().insert(task.spec_id().0),
            final(self).deps() == old(self).deps().insert(task.spec_id().0, dependencies@),
    {
        let id = task.id().0;
        let list = dependencies_from(dependencies);
        self.storage.insert(id, task);
        self.dependencies.insert(id, list);
        queue_push(&mut self.queue, id);
        proof {
            assert(self.deps() =~= old(self).deps().insert(id, dependencies@));
            assert(self.stored() =~= old(self).stored().insert(id));
            assert forall|i: int, j: int|
                0 <= i < j < self.items().len() implies self.items()[i] != self.items()[j] by {
                if j == self.items().len() - 1 {
                    assert(old(self).storage@.contains_key(old(self).items()[i]));
                }
            }
            assert forall|i: int| 0 <= i < self.items().len() implies self.storage@.contains_key(
                #[trigger] self.items()[i],
            ) by {
                if i < old(self).items().len() {
                    assert(old(self).storage@.contains_key(old(self).items()[i]));
                }
            }
        }
    }

    fn is_ready(&self, id: u64, completed: &HashSet<u64>) -> (r: bool)
        requires
            self.wf(),
            self.stored().contains(id),
        ensures
            r == ready(self.deps()[id], completed@),
    {
        let list = self.dependencies.get(&id).unwrap();
        let ghost deps = dependency_items(*list);
        assert(self.deps().contains_key(id));
        assert(deps == self.deps()[id]);
        let n = dependencies_len(list);
        let mut j: usize = 0;
        while j < n
            invariant
                n == deps.len(),
                j <= n,
                deps == dependency_items(*list),
                deps == self.deps()[id],
                forall|i: int| 0 <= i < j ==> deps[i] == INVALID_TASK_ID || completed@.contains(#[trigger] deps[i]),
            decreases n - j,
        {
            let d = dependency_at(list, j);
            if d != INVALID_TASK_ID && !completed.contains(&d) {
                assert(deps[j as int] == d);
                return false;
            }
            j = j + 1;
        }
        true
    }

    /// One pass over at most `limit` records: each record that is not ready
    /// goes back to the tail; the first ready one is taken out and its task
    /// returned.
    pub fn pop_ready(&mut self, completed: &HashSet<u64>, limit: usize) -> (r: Option<BoxedTask<T>>)
        requires
            old(self).wf(),
        ensures
            final(self).wf(),
            old(self).passed(
                *final(self),
                completed@,
                limit as nat,
                match r {
                    Some(t) => Some(t.spec_id().0),
                    None => None,
                },
            ),
    {
        let ghost s0 = self.items();
        let n = queue_len(&self.queue);
        let bound = if limit < n {
            limit
        } else {
            n
        };
        let mut i: usize = 0;
        while i < bound
            invariant
                self.wf(),
                bound <= n,
                n == s0.len(),
                bound <= limit,
                i <= bound,
                self.items() == rotated(s0, i as int),
                self.stored() == old(self).stored(),
                self.deps() == old(self).deps(),
                s0 == old(self).items(),
                forall|j: int|
                    0 <= j < i ==> !ready(old(self).deps()[#[trigger] s0[j]], completed@),
            decreases bound - i,
        {
            let ghost cur = self.items();
            assert(cur[0] == s0[i as int]);
            let popped = queue_pop(&mut self.queue);
            let id = popped.unwrap();
            assert(self.storage@.contains_key(cur[0]));
            if self.is_ready(id, completed) {
                let task = self.storage.remove(&id).unwrap();
                self.dependencies.remove(&id);
                proof {
                    assert(cur.drop_first() =~= rotated(s0, i as int).drop_first());
                    assert(self.stored() =~= old(self).stored().remove(id));
                    assert(self.deps() =~= old(self).deps().remove(id));
                    assert forall|a: int| 0 <= a < self.items().len() implies self.storage@.contains_key(
                        #[trigger] self.items()[a],
                    ) by {
                        assert(self.items()[a] == cur[a + 1]);
                        assert(old(self).storage@.contains_key(cur[a + 1]));
                    }
                    assert(old(self).passed(*self, completed@, limit as nat, Some(id)));
                }
                return Some(task);
            }
            queue_push(&mut self.queue, id);
            proof {
                assert(self.items() =~= rotated(s0, i as int + 1));
                assert forall|a: int, b: int|
                    0 <= a < b < self.items().len() implies self.items()[a] != self.items()[b] by {
                    if b == self.items().len() - 1 {
                        assert(self.items()[a] == cur[a + 1]);
                    } else {
                        assert(self.items()[a] == cur[a + 1]);
                        assert(self.items()[b] == cur[b + 1]);
                    }
                }
                assert forall|a: int| 0 <= a < self.items().len() implies self.storage@.contains_key(
                    #[trigger] self.items()[a],
                ) by {
                    if a == self.items().len() - 1 {
                        assert(self.items()[a] == cur[0]);
                    } else {
                        assert(self.items()[a] == cur[a + 1]);
                    }
                }
            }
            i = i + 1;
        }
        None
    }
}

/// The task that a pass hands out was held in the queue with a ready
/// dependency list.
pub proof fn lemma_taken_is_ready<T: Task>(
    q: TaskQueue<T>,
    after: TaskQueue<T>,
    completed: Set<u64>,
    limit: nat,
    b: u64,
)
    requires
        q.wf(),
        q.passed(after, completed, limit, Some(b)),
    ensures
        q.stored().contains(b),
        q.deps().contains_key(b),
        ready(q.deps()[b], completed),
{
    let k = choose|k: int|
        #![trigger q.items()[k]]
        0 <= k < limit && k < q.items().len() && (forall|j: int|
            0 <= j < k ==> !ready(q.deps()[#[trigger] q.items()[j]], completed)) && ready(
            q.deps()[q.items()[k]],
            completed,
        ) && b == q.items()[k] && after.items() == rotated(q.items(), k).drop_first()
            && after.stored() == q.stored().remove(b) && after.deps() == q.deps().remove(b);
    assert(q.storage@.contains_key(q.items()[k]));
}

} // verus!
