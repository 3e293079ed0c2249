use vstd::prelude::*;
use std::collections::HashSet;
use crate::naming::{
    config_view, decimal, lemma_pool_shape, lemma_single_entry, pool_names, pool_of, strings_view,
    thread_names,
};
use crate::readiness::{lemma_taken_is_ready, ready, TaskQueue};
use crate::task::{BoxedTask, Task, TaskId, INVALID_TASK_ID};

verus! {

broadcast use vstd::std_specs::hash::group_hash_axioms;

/// A submission named a thread that is not registered.
#[derive(Clone, Debug)]
pub struct ThreadNotFound {
    pub name: String,
}

impl ThreadNotFound {
    /// The message that reports the error.
    pub fn message(&self) -> (r: String)
        ensures
            r@ == seq!['T', 'h', 'r', 'e', 'a', 'd', ' ', '\''] + self.name@ + seq![
                '\'',
                ' ',
                'n',
                'o',
                't',
                ' ',
                'f',
                'o',
                'u',
                'n',
                'd',
            ],
    {
        let mut r = String::from_str("Thread '");
        r.append(self.name.as_str());
        r.append("' not found");
        proof {
            reveal_strlit("Thread '");
            reveal_strlit("' not found");
        }
        assert(r@ =~= seq!['T', 'h', 'r', 'e', 'a', 'd', ' ', '\''] + self.name@ + seq![
            '\'',
            ' ',
            'n',
            'o',
            't',
            ' ',
            'f',
            'o',
            'u',
            'n',
            'd',
        ]);
        r
    }
}

/// A registered thread: its name and the queue that only it drains.
pub struct ThreadLocalState<T: Task> {
    name: String,
    local: TaskQueue<T>,
}

/// The bookkeeping of the scheduler: identifier counter, registered threads
/// with their local queues, the global queue shared by all threads, and the
/// set of completed tasks.
pub struct TaskSchedular<T: Task> {
    next_id: u64,
    threads: Vec<ThreadLocalState<T>>,
    global: TaskQueue<T>,
    completed: HashSet<u64>,
}

pub open spec fn ids_view(ids: Seq<TaskId>) -> Seq<u64> {
    ids.map_values(|d: TaskId| d.0)
}

/// What `id` of a result that may hold a task is.
pub open spec fn taken_id<T: Task>(r: Option<BoxedTask<T>>) -> Option<u64> {
    match r {
        Some(t) => Some(t.spec_id().0),
        None => None,
    }
}

impl<T: Task> TaskSchedular<T> {
    /// The identifier the next submission receives.
    pub closed spec fn next_id(&self) -> u64 {
        self.next_id
    }

    /// Names of the registered threads, in registration order.
    pub closed spec fn thread_names(&self) -> Seq<Seq<char>> {
        self.threads@.map_values(|t: ThreadLocalState<T>| t.name@)
    }

    /// The local queue of the `i`-th registered thread.
    pub closed spec fn local(&self, i: int) -> TaskQueue<T> {
        self.threads@[i].local
    }

    pub closed spec fn global(&self) -> TaskQueue<T> {
        self.global
    }

    /// Identifiers of the tasks reported complete.
    pub closed spec fn completed_ids(&self) -> Set<u64> {
        self.completed@
    }

    pub closed spec fn wf(&self) -> bool {
        &&& self.global.wf()
        &&& forall|i: int| 0 <= i < self.threads@.len() ==> (#[trigger] self.threads@[i]).local.wf()
        &&& forall|id: u64| #[trigger] self.global.stored().contains(id) ==> id < self.next_id
        &&& forall|i: int, id: u64|
            0 <= i < self.threads@.len() && #[trigger] self.threads@[i].local.stored().contains(id)
                ==> id < self.next_id
    }

    /// No registered thread has a queued or held task.
    pub open spec fn locals_empty(&self) -> bool {
        forall|i: int| 0 <= i < self.thread_names().len() ==> (#[trigger] self.local(i)).is_empty_queue()
    }

    /// `after` differs from `self` at most in the local queue of thread `i`.
    pub open spec fn same_except_local(&self, after: Self, i: int) -> bool {
        &&& after.next_id() == self.next_id()
        &&& after.thread_names() == self.thread_names()
        &&& after.global() == self.global()
        &&& after.completed_ids() == self.completed_ids()
        &&& forall|j: int| 0 <= j < self.thread_names().len() && j != i ==> #[trigger] after.local(j) == self.local(j)
    }

    /// The first registered thread called `name`, if any.
    pub open spec fn first_thread(&self, name: Seq<char>, i: int) -> bool {
        &&& 0 <= i < self.thread_names().len()
        &&& self.thread_names()[i] == name
        &&& forall|j: int| 0 <= j < i ==> #[trigger] self.thread_names()[j] != name
    }

    /// A shutdown of all threads: `joined` lists the threads that were
    /// registered, none stays registered, and nothing else changes.
    pub open spec fn shut_down(&self, after: Self, joined: Seq<Seq<char>>) -> bool {
        &&& joined == self.thread_names()
        &&& after.thread_names() == Seq::<Seq<char>>::empty()
        &&& after.next_id() == self.next_id()
        &&& after.global() == self.global()
        &&& after.completed_ids() == self.completed_ids()
    }

    /// A reconfiguration: `joined` lists the threads that were registered
    /// and are to be stopped; the other state but the pool is kept.
    pub open spec fn reconfigured(&self, after: Self, joined: Seq<Seq<char>>) -> bool {
        &&& joined == self.thread_names()
        &&& after.next_id() == self.next_id()
        &&& after.global() == self.global()
        &&& after.completed_ids() == self.completed_ids()
    }

    fn spawn_threads(&mut self, thread_configs: &[(&str, usize)])
        requires
            old(self).wf(),
            old(self).thread_names().len() == 0,
        ensures
            final(self).wf(),
            final(self).thread_names() == pool_names(config_view(thread_configs@)),
            final(self).locals_empty(),
            final(self).next_id() == old(self).next_id(),
            final(self).global() == old(self).global(),
            final(self).completed_ids() == old(self).completed_ids(),
    {
        let mut names = thread_names(thread_configs);
        let ghost target = strings_view(names@);
        let mut k: usize = 0;
        while k < names.len()
            invariant
                self.wf(),
                k <= names@.len(),
                target == strings_view(names@),
                self.thread_names() == target.subrange(0, k as int),
                self.locals_empty(),
                self.next_id() == old(self).next_id(),
                self.global() == old(self).global(),
                self.completed_ids() == old(self).completed_ids(),
            decreases names@.len() - k,
        {
            let name = names[k].clone();
            let ghost name_view = name@;
            assert(name_view == target[k as int]);
            let local = TaskQueue::new();
            let state = ThreadLocalState { name, local };
            let ghost prev = self.threads@;
            let ghost prev_self = *self;
            self.threads.push(state);
            proof {
                assert(self.threads@ == prev.push(state));
                assert(prev.map_values(|t: ThreadLocalState<T>| t.name@).len() == prev.len());
                assert(self.threads@.len() == k + 1);
                assert(self.thread_names().len() == k + 1);
                assert(self.thread_names()[k as int] == name_view);
                assert(self.thread_names() =~= target.subrange(0, k as int + 1));
                assert forall|i: int| 0 <= i < self.thread_names().len() implies (
                #[trigger] self.local(i)).is_empty_queue() by {
                    if i < k {
                        assert(self.threads@[i] == prev[i]);
                        assert(prev_self.local(i).is_empty_queue());
                    } else {
                        assert(self.threads@[i] == state);
                    }
                }
            }
            k = k + 1;
        }
        proof {
            assert(target.subrange(0, k as int) =~= target);
        }
    }

    /// A scheduler with the threads that `thread_configs` asks for: for each
    /// entry `(name, count)`, one thread called `name` when `count` is 1,
    /// else `count` threads called `name_0` .. `name_{count-1}`.
    pub fn new(thread_configs: &[(&str, usize)]) -> (r: Self)
        ensures
            r.wf(),
            r.next_id() == 0,
            r.thread_names() == pool_names(config_view(thread_configs@)),
            r.locals_empty(),
            r.global().is_empty_queue(),
            r.completed_ids() == Set::<u64>::empty(),
    {
        let mut r = TaskSchedular {
            next_id: 0,
            threads: Vec::new(),
            global: TaskQueue::new(),
            completed: HashSet::new(),
        };
        proof {
            assert(r.thread_names() =~= Seq::<Seq<char>>::empty());
        }
        r.spawn_threads(thread_configs);
        r
    }

    /// Number of registered threads.
    pub fn num_worker_threads(&self) -> (r: usize)
        ensures
            r == self.thread_names().len(),
    {
        self.threads.len()
    }

    /// Names of the registered threads, in registration order.
    pub fn worker_names(&self) -> (r: Vec<String>)
        ensures
            strings_view(r@) == self.thread_names(),
    {
        let mut r: Vec<String> = Vec::new();
        let mut i: usize = 0;
        while i < self.threads.len()
            invariant
                i <= self.threads@.len(),
                strings_view(r@) == self.thread_names().subrange(0, i as int),
            decreases self.threads@.len() - i,
        {
            let name = self.threads[i].name.clone();
            assert(self.thread_names().len() == self.threads@.len());
            assert(name@ == self.thread_names()[i as int]);
            let ghost prev = r@;
            r.push(name);
            proof {
                assert(r@ == prev.push(name));
                assert(strings_view(r@) =~= strings_view(prev).push(name@));
                assert(strings_view(r@) =~= self.thread_names().subrange(0, i as int + 1));
            }
            i = i + 1;
        }
        proof {
            assert(self.thread_names().subrange(0, i as int) =~= self.thread_names());
        }
        r
    }

    /// Index of the first registered thread called `name`.
    pub fn find_thread(&self, name: &str) -> (r: Option<usize>)
        ensures
            match r {
                Some(i) => self.first_thread(name@, i as int),
                None => !self.thread_names().contains(name@),
            },
    {
        let wanted = name.to_owned();
        let mut i: usize = 0;
        while i < self.threads.len()
            invariant
                i <= self.threads@.len(),
                wanted@ == name@,
                forall|j: int| 0 <= j < i ==> #[trigger] self.thread_names()[j] != name@,
            decreases self.threads@.len() - i,
        {
            if self.threads[i].name.eq(&wanted) {
                return Some(i);
            }
            i = i + 1;
        }
        None
    }

    /// Whether a thread called `name` is registered.
    pub fn has_thread(&self, name: &str) -> (r: bool)
        ensures
            r == self.thread_names().contains(name@),
    {
        match self.find_thread(name) {
            Some(_) => true,
            None => false,
        }
    }

    /// Number of records on the global queue.
    pub fn global_len(&self) -> (r: usize)
        ensures
            r == self.global().items().len(),
    {
        self.global.len()
    }

    /// Number of records on the local queue of thread `i`.
    pub fn local_len(&self, i: usize) -> (r: usize)
        requires
            i < self.thread_names().len(),
        ensures
            r == self.local(i as int).items().len(),
    {
        self.threads[i].local.len()
    }

    /// Whether another task can still be given an identifier.
    pub fn can_submit(&self) -> (r: bool)
        ensures
            r == (self.next_id() < INVALID_TASK_ID),
    {
        self.next_id < INVALID_TASK_ID
    }

    fn ids_of(dependencies: &[TaskId]) -> (r: Vec<u64>)
        ensures
            r@ == ids_view(dependencies@),
    {
        let mut r: Vec<u64> = Vec::new();
        let mut i: usize = 0;
        while i < dependencies.len()
            invariant
                i <= dependencies@.len(),
                r@ == ids_view(dependencies@.subrange(0, i as int)),
            decreases dependencies@.len() - i,
        {
            r.push(dependencies[i].0);
            proof {
                assert(ids_view(dependencies@.subrange(0, i as int + 1)) =~= ids_view(
                    dependencies@.subrange(0, i as int),
                ).push(dependencies@[i as int].0));
            }
            i = i + 1;
        }
        proof {
            assert(dependencies@.subrange(0, i as int) =~= dependencies@);
        }
        r
    }

    /// Registers `task` in the global storage with no dependency and queues
    /// it on the global queue.
    pub fn submit(&mut self, task: T) -> (r: TaskId)
        requires
            old(self).wf(),
            old(self).next_id() < INVALID_TASK_ID,
        ensures
            final(self).wf(),
            r.0 == old(self).next_id(),
            r.is_valid(),
            !old(self).global().stored().contains(r.0),
            forall|j: int| 0 <= j < old(self).thread_names().len() ==> !(#[trigger] old(self).local(j)).stored().contains(r.0),
            final(self).next_id() == old(self).next_id() + 1,
            final(self).global().items() == old(self).global().items().push(r.0),
            final(self).global().stored() == old(self).global().stored().insert(r.0),
            final(self).global().deps() == old(self).global().deps().insert(r.0, Seq::<u64>::empty()),
            final(self).thread_names() == old(self).thread_names(),
            final(self).completed_ids() == old(self).completed_ids(),
            forall|j: int| 0 <= j < old(self).thread_names().len() ==> #[trigger] final(self).local(j) == old(self).local(j),
    {
        let empty: Vec<TaskId> = Vec::new();
        proof {
            assert(ids_view(empty@) =~= Seq::<u64>::empty());
        }
        self.submit_after(task, empty.as_slice())
    }

    /// Registers `task` in the global storage and queues it on the global
    /// queue; it runs only once every task in `dependencies` has completed.
    pub fn submit_after(&mut self, task: T, dependencies: &[TaskId]) -> (r: TaskId)
        requires
            old(self).wf(),
            old(self).next_id() < INVALID_TASK_ID,
        ensures
            final(self).wf(),
            r.0 == old(self).next_id(),
            r.is_valid(),
            !old(self).global().stored().contains(r.0),
            forall|j: int| 0 <= j < old(self).thread_names().len() ==> !(#[trigger] old(self).local(j)).stored().contains(r.0),
            final(self).next_id() == old(self).next_id() + 1,
            final(self).global().items() == old(self).global().items().push(r.0),
            final(self).global().stored() == old(self).global().stored().insert(r.0),
            final(self).global().deps() == old(self).global().deps().insert(r.0, ids_view(dependencies@)),
            final(self).thread_names() == old(self).thread_names(),
            final(self).completed_ids() == old(self).completed_ids(),
            forall|j: int| 0 <= j < old(self).thread_names().len() ==> #[trigger] final(self).local(j) == old(self).local(j),
    {
        let boxed = BoxedTask::new(&mut self.next_id, task);
        let id = boxed.id();
        let deps = Self::ids_of(dependencies);
        self.global.enqueue(boxed, deps.as_slice());
        proof {
            assert(self.thread_names() =~= old(self).thread_names());
        }
        id
    }

    /// Registers `task` with the thread called `thread_name` and queues it on
    /// that thread's local queue; fails, changing nothing, when no such thread
    /// is registered.
    pub fn submit_to(&mut self, thread_name: &str, task: T) -> (r: Result<TaskId, ThreadNotFound>)
        requires
            old(self).wf(),
            old(self).thread_names().contains(thread_name@) ==> old(self).next_id() < INVALID_TASK_ID,
        ensures
            final(self).wf(),
            match r {
                Err(e) => !old(self).thread_names().contains(thread_name@) && e.name@ == thread_name@
                    && *final(self) == *old(self),
                Ok(id) => exists|i: int|
                    old(self).first_thread(thread_name@, i) && Self::submitted_locally(
                        *old(self),
                        *final(self),
                        i,
                        id,
                        Seq::<u64>::empty(),
                    ),
            },
    {
        let empty: Vec<TaskId> = Vec::new();
        proof {
            assert(ids_view(empty@) =~= Seq::<u64>::empty());
        }
        self.submit_to_after(thread_name, task, empty.as_slice())
    }

    /// `after` is `before` with a task `id` with dependencies `deps` queued on
    /// the local queue of thread `i`.
    pub open spec fn submitted_locally(before: Self, after: Self, i: int, id: TaskId, deps: Seq<u64>) -> bool {
        &&& id.0 == before.next_id()
        &&& id.is_valid()
        &&& !before.global().stored().contains(id.0)
        &&& forall|j: int| 0 <= j < before.thread_names().len() ==> !(#[trigger] before.local(j)).stored().contains(id.0)
        &&& after.next_id() == before.next_id() + 1
        &&& after.local(i).items() == before.local(i).items().push(id.0)
        &&& after.local(i).stored() == before.local(i).stored().insert(id.0)
        &&& after.local(i).deps() == before.local(i).deps().insert(id.0, deps)
        &&& after.thread_names() == before.thread_names()
        &&& after.global() == before.global()
        &&& after.completed_ids() == before.completed_ids()
        &&& forall|j: int| 0 <= j < before.thread_names().len() && j != i ==> #[trigger] after.local(j) == before.local(j)
    }

    /// `submit_to` with dependencies: the task runs on the named thread once
    /// every task in `dependencies` has completed.
    pub fn submit_to_after(&mut self, thread_name: &str, task: T, dependencies: &[TaskId]) -> (r: Result<TaskId, ThreadNotFound>)
        requires
            old(self).wf(),
            old(self).thread_names().contains(thread_name@) ==> old(self).next_id() < INVALID_TASK_ID,
        ensures
            final(self).wf(),
            match r {
                Err(e) => !old(self).thread_names().contains(thread_name@) && e.name@ == thread_name@
                    && *final(self) == *old(self),
                Ok(id) => exists|i: int|
                    old(self).first_thread(thread_name@, i) && Self::submitted_locally(
                        *old(self),
                        *final(self),
                        i,
                        id,
                        ids_view(dependencies@),
                    ),
            },
    {
        let i = match self.find_thread(thread_name) {
            Some(i) => i,
            None => {
                return Err(ThreadNotFound { name: thread_name.to_owned() });
            },
        };
        let ghost before = *old(self);
        let boxed = BoxedTask::new(&mut self.next_id, task);
        let id = boxed.id();
        let deps = Self::ids_of(dependencies);
        let mut state = self.threads.remove(i);
        state.local.enqueue(boxed, deps.as_slice());
        self.threads.insert(i, state);
        proof {
            assert(self.threads@ =~= before.threads@.update(i as int, state));
            assert(self.thread_names() =~= before.thread_names());
            assert forall|j: int| 0 <= j < self.threads@.len() implies (#[trigger] self.threads@[j]).local.wf() by {
                if j != i {
                    assert(self.threads@[j] == before.threads@[j]);
                }
            }
            assert forall|j: int, x: u64|
                0 <= j < self.threads@.len() && #[trigger] self.threads@[j].local.stored().contains(x)
                    implies x < self.next_id by {
                if j != i {
                    assert(self.threads@[j] == before.threads@[j]);
                }
            }
            assert(Self::submitted_locally(before, *self, i as int, id, ids_view(dependencies@)));
        }
        Ok(id)
    }

    /// The effect of one worker decision on the queues of thread `worker`
    /// and on the global queue; `taken` is the task handed out, if any.
    pub open spec fn stepped(&self, after: Self, worker: int, taken: Option<u64>) -> bool {
        ||| (taken is Some && self.local(worker).passed(after.local(worker), self.completed_ids(), 1, taken)
            && after.global() == self.global())
        ||| (self.local(worker).passed(after.local(worker), self.completed_ids(), 1, None)
            && self.global().passed(
            after.global(),
            self.completed_ids(),
            self.global().items().len(),
            taken,
        ))
    }

    /// One decision of the worker loop of thread `worker`: its local queue
    /// is tried first, one record at most; if that yields nothing, one pass
    /// over the whole global queue. Records that are not ready go back to the
    /// tail of their queue. The task returned, if any, leaves its queue and
    /// storage and is to be run by the caller.
    pub fn next_task(&mut self, worker: usize) -> (r: Option<BoxedTask<T>>)
        requires
            old(self).wf(),
            worker < old(self).thread_names().len(),
        ensures
            final(self).wf(),
            final(self).next_id() == old(self).next_id(),
            final(self).thread_names() == old(self).thread_names(),
            final(self).completed_ids() == old(self).completed_ids(),
            forall|j: int|
                0 <= j < old(self).thread_names().len() && j != worker ==> #[trigger] final(self).local(j)
                    == old(self).local(j),
            old(self).stepped(*final(self), worker as int, taken_id(r)),
    {
        let ghost before = *old(self);
        let mut state = self.threads.remove(worker);
        let local_task = state.local.pop_ready(&self.completed, 1);
        self.threads.insert(worker, state);
        proof {
            assert(self.threads@ =~= before.threads@.update(worker as int, state));
            assert(self.thread_names() =~= before.thread_names());
            assert forall|j: int| 0 <= j < self.threads@.len() implies (#[trigger] self.threads@[j]).local.wf() by {
                if j != worker {
                    assert(self.threads@[j] == before.threads@[j]);
                }
            }
            assert forall|j: int, x: u64|
                0 <= j < self.threads@.len() && #[trigger] self.threads@[j].local.stored().contains(x)
                    implies x < self.next_id by {
                if j != worker {
                    assert(self.threads@[j] == before.threads@[j]);
                } else {
                    assert(before.threads@[j].local.stored().contains(x));
                }
            }
        }
        match local_task {
            Some(t) => {
                return Some(t);
            },
            None => {},
        }
        let n = self.global.len();
        let r = self.global.pop_ready(&self.completed, n);
        r
    }

    /// Records that task `id` has completed.
    pub fn complete(&mut self, id: TaskId)
        requires
            old(self).wf(),
        ensures
            final(self).wf(),
            final(self).completed_ids() == old(self).completed_ids().insert(id.0),
            final(self).next_id() == old(self).next_id(),
            final(self).thread_names() == old(self).thread_names(),
            final(self).global() == old(self).global(),
            forall|j: int| 0 <= j < old(self).thread_names().len() ==> #[trigger] final(self).local(j) == old(self).local(j),
    {
        self.completed.insert(id.0);
    }

    /// Whether task `id` has been reported complete (the reserved identifier
    /// always counts as complete).
    pub fn is_completed(&self, id: TaskId) -> (r: bool)
        ensures
            r == (id.0 == INVALID_TASK_ID || self.completed_ids().contains(id.0)),
    {
        id.0 == INVALID_TASK_ID || self.completed.contains(&id.0)
    }

    /// Unregisters every thread and drops their local queues and tasks;
    /// returns the names of the threads that the caller must stop and join.
    /// The global queue is kept.
    pub fn join_all_workers(&mut self) -> (r: Vec<String>)
        requires
            old(self).wf(),
        ensures
            final(self).wf(),
            old(self).shut_down(*final(self), strings_view(r@)),
    {
        let r = self.worker_names();
        self.threads = Vec::new();
        proof {
            assert(self.thread_names() =~= Seq::<Seq<char>>::empty());
        }
        r
    }

    /// Shuts down every thread as `join_all_workers` does, then registers the
    /// threads that `thread_configs` asks for, with empty local queues.
    /// Returns the names of the threads to stop and join.
    pub fn config(&mut self, thread_configs: &[(&str, usize)]) -> (r: Vec<String>)
        requires
            old(self).wf(),
        ensures
            final(self).wf(),
            old(self).reconfigured(*final(self), strings_view(r@)),
            final(self).thread_names() == pool_names(config_view(thread_configs@)),
            final(self).locals_empty(),
            final(self).next_id() == old(self).next_id(),
            final(self).global() == old(self).global(),
            final(self).completed_ids() == old(self).completed_ids(),
    {
        let r = self.join_all_workers();
        self.spawn_threads(thread_configs);
        r
    }
}

/// A scheduler with the default pool: eight threads `worker_0` .. `worker_7`.
pub fn initialize<T: Task>() -> (r: TaskSchedular<T>)
    ensures
        r.wf(),
        r.next_id() == 0,
        r.thread_names() == pool_of("worker"@, 8),
        r.locals_empty(),
        r.global().is_empty_queue(),
        r.completed_ids() == Set::<u64>::empty(),
{
    let configs = vec![("worker", 8usize)];
    proof {
        assert(config_view(configs@) =~= seq![("worker"@, 8usize)]);
        lemma_single_entry("worker"@, 8);
    }
    TaskSchedular::new(configs.as_slice())
}

impl<T: Task> Default for TaskSchedular<T> {
    /// The default pool; see `initialize`.
    fn default() -> (r: Self)
        ensures
            r.wf(),
            r.next_id() == 0,
            r.thread_names() == pool_of("worker"@, 8),
            r.locals_empty(),
            r.global().is_empty_queue(),
            r.completed_ids() == Set::<u64>::empty(),
    {
        initialize()
    }
}

/// Reconfigures the pool of `schedular`; see `TaskSchedular::config`.
pub fn config<T: Task>(schedular: &mut TaskSchedular<T>, thread_configs: &[(&str, usize)]) -> (r: Vec<String>)
    requires
        old(schedular).wf(),
    ensures
        final(schedular).wf(),
        old(schedular).reconfigured(*final(schedular), strings_view(r@)),
        final(schedular).thread_names() == pool_names(config_view(thread_configs@)),
        final(schedular).locals_empty(),
        final(schedular).next_id() == old(schedular).next_id(),
        final(schedular).global() == old(schedular).global(),
        final(schedular).completed_ids() == old(schedular).completed_ids(),
{
    schedular.config(thread_configs)
}

proof fn lemma_counter_increases(b: Seq<int>, a: Seq<int>, i: int, j: int)
    requires
        b.len() == a.len(),
        forall|k: int| 0 <= k < b.len() ==> #[trigger] a[k] == b[k] + 1,
        forall|k: int| 0 <= k < b.len() - 1 ==> #[trigger] a[k] <= b[k + 1],
        0 <= i < j < b.len(),
    ensures
        b[i] < b[j],
    decreases j - i,
{
    assert(a[j - 1] <= b[j]);
    assert(a[j - 1] == b[j - 1] + 1);
    if i < j - 1 {
        lemma_counter_increases(b, a, i, j - 1);
    }
}

/// Identifiers are never reused. Take a series of submissions to one
/// scheduler, the `k`-th seeing the scheduler as `before[k]`, returning
/// `ids[k]` and leaving it as `after[k]` (each submission takes the counter
/// and advances it by one); between two submissions the counter does not go
/// down, which every operation of the scheduler guarantees. Then the
/// identifiers returned are pairwise distinct.
pub proof fn lemma_identifiers_distinct<T: Task>(
    ids: Seq<TaskId>,
    before: Seq<TaskSchedular<T>>,
    after: Seq<TaskSchedular<T>>,
)
    requires
        ids.len() == before.len() == after.len(),
        forall|k: int| #![trigger ids[k]] 0 <= k < ids.len() ==> ids[k].0 == before[k].next_id() && after[k].next_id() == before[k].next_id() + 1,
        forall|k: int| 0 <= k < ids.len() - 1 ==> #[trigger] after[k].next_id() <= before[k + 1].next_id(),
    ensures
        forall|i: int, j: int| 0 <= i < j < ids.len() ==> ids[i] != ids[j],
{
    let n = ids.len() as int;
    let b = Seq::new(n as nat, |k: int| before[k].next_id() as int);
    let a = Seq::new(n as nat, |k: int| after[k].next_id() as int);
    assert forall|k: int| 0 <= k < n implies #[trigger] a[k] == b[k] + 1 by {
        assert(ids[k].0 == before[k].next_id());
    }
    assert forall|k: int| 0 <= k < n - 1 implies #[trigger] a[k] <= b[k + 1] by {
        assert(after[k].next_id() <= before[k + 1].next_id());
    }
    assert forall|i: int, j: int| 0 <= i < j < ids.len() implies ids[i] != ids[j] by {
        lemma_counter_increases(b, a, i, j);
        assert(ids[i].0 == before[i].next_id());
        assert(ids[j].0 == before[j].next_id());
    }
}

/// A task never starts before its dependencies: when a worker decision hands
/// out task `b`, the dependency list `b` was queued with, in the local queue
/// of that worker or in the global queue, names only completed tasks or the
/// reserved identifier.
pub proof fn lemma_dependency_ordering<T: Task>(
    s: TaskSchedular<T>,
    after: TaskSchedular<T>,
    worker: int,
    b: u64,
)
    requires
        s.wf(),
        0 <= worker < s.thread_names().len(),
        s.stepped(after, worker, Some(b)),
    ensures
        (s.local(worker).stored().contains(b) && ready(s.local(worker).deps()[b], s.completed_ids()))
            || (s.global().stored().contains(b) && ready(s.global().deps()[b], s.completed_ids())),
{
    assert(s.local(worker).wf());
    if s.local(worker).passed(after.local(worker), s.completed_ids(), 1, Some(b)) {
        lemma_taken_is_ready(s.local(worker), after.local(worker), s.completed_ids(), 1, b);
    } else {
        lemma_taken_is_ready(
            s.global(),
            after.global(),
            s.completed_ids(),
            s.global().items().len(),
            b,
        );
    }
}

/// Progress: a worker decision hands out a task whenever some record on the
/// global queue is ready; the task handed out then leaves the queue it was
/// held in, so every queued independent task is handed out after as many
/// decisions as there are records.
pub proof fn lemma_ready_record_is_handed_out<T: Task>(
    s: TaskSchedular<T>,
    after: TaskSchedular<T>,
    worker: int,
    taken: Option<u64>,
    j: int,
)
    requires
        s.wf(),
        0 <= worker < s.thread_names().len(),
        s.stepped(after, worker, taken),
        0 <= j < s.global().items().len(),
        ready(s.global().deps()[s.global().items()[j]], s.completed_ids()),
    ensures
        taken is Some,
        s.local(worker).stored().contains(taken->0) && after.local(worker).stored() == s.local(
            worker,
        ).stored().remove(taken->0) || s.global().stored().contains(taken->0) && after.global().stored()
            == s.global().stored().remove(taken->0),
{
    if taken is None {
        assert(s.global().passed(after.global(), s.completed_ids(), s.global().items().len(), None));
        assert(!ready(s.global().deps()[s.global().items()[j]], s.completed_ids()));
    }
    let b = taken->0;
    assert(s.local(worker).wf());
    if s.local(worker).passed(after.local(worker), s.completed_ids(), 1, Some(b)) {
        lemma_taken_is_ready(s.local(worker), after.local(worker), s.completed_ids(), 1, b);
    } else {
        lemma_taken_is_ready(s.global(), after.global(), s.completed_ids(), s.global().items().len(), b);
    }
}

/// Every task held in a queue has an identifier below the counter, so the
/// identifier that the next submission issues is held nowhere yet.
pub proof fn lemma_stored_below_counter<T: Task>(s: TaskSchedular<T>)
    requires
        s.wf(),
    ensures
        forall|id: u64| #[trigger] s.global().stored().contains(id) ==> id < s.next_id(),
        forall|i: int, id: u64|
            0 <= i < s.thread_names().len() && #[trigger] s.local(i).stored().contains(id) ==> id < s.next_id(),
{
    assert forall|i: int, id: u64|
        0 <= i < s.thread_names().len() && #[trigger] s.local(i).stored().contains(id) implies id < s.next_id() by {
        assert(s.threads@[i].local.stored().contains(id));
    }
}

/// Shape of the pool after a configuration of one entry `(name, count)`:
/// exactly one thread called `name` when `count` is 1; otherwise `count`
/// pairwise distinct threads called `name_0` .. `name_{count-1}`.
pub proof fn lemma_config_pool_shape<T: Task>(s: TaskSchedular<T>, name: Seq<char>, count: usize)
    requires
        s.thread_names() == pool_names(seq![(name, count)]),
    ensures
        count == 1 ==> s.thread_names() == seq![name],
        count != 1 ==> s.thread_names().len() == count,
        count != 1 ==> forall|i: int|
            0 <= i < count ==> #[trigger] s.thread_names()[i] == name + seq!['_'] + decimal(i as nat),
        forall|i: int, j: int|
            0 <= i < j < s.thread_names().len() ==> s.thread_names()[i] != s.thread_names()[j],
{
    lemma_single_entry(name, count);
    lemma_pool_shape(name, count as nat);
}

/// Over a series of reconfigurations ended by a shutdown, every generation
/// of threads is handed out for joining exactly once, by the step that
/// replaces it, and no thread is left registered at the end.
pub proof fn lemma_each_generation_joined_once<T: Task>(
    states: Seq<TaskSchedular<T>>,
    joined: Seq<Seq<Seq<char>>>,
)
    requires
        joined.len() >= 1,
        states.len() == joined.len() + 1,
        forall|i: int| 0 <= i < joined.len() - 1 ==> #[trigger] states[i].reconfigured(states[i + 1], joined[i]),
        states[joined.len() - 1].shut_down(states[joined.len() as int], joined[joined.len() - 1]),
    ensures
        forall|i: int| 0 <= i < joined.len() ==> #[trigger] joined[i] == states[i].thread_names(),
        states.last().thread_names().len() == 0,
{
    assert forall|i: int| 0 <= i < joined.len() implies #[trigger] joined[i] == states[i].thread_names() by {
        if i < joined.len() - 1 {
            assert(states[i].reconfigured(states[i + 1], joined[i]));
        }
    }
}

/// Shutting down twice joins each thread once: the first shutdown hands out
/// every registered thread, the second hands out none.
pub proof fn lemma_shutdown_idempotent<T: Task>(
    s0: TaskSchedular<T>,
    s1: TaskSchedular<T>,
    s2: TaskSchedular<T>,
    first: Seq<Seq<char>>,
    second: Seq<Seq<char>>,
)
    requires
        s0.shut_down(s1, first),
        s1.shut_down(s2, second),
    ensures
        first == s0.thread_names(),
        second.len() == 0,
        s2.thread_names().len() == 0,
        s2.global() == s0.global(),
{
}

} // verus!
