use vstd::prelude::*;

verus! {

/// Identifier of a submitted task. Issued from a strictly increasing counter;
/// the largest value is reserved and means "no task / already satisfied".
#[derive(Debug, Clone, Copy, PartialEq, Eq, Structural, Hash)]
pub struct TaskId(pub u64);

/// The reserved identifier value.
pub const INVALID_TASK_ID: u64 = 0xffff_ffff_ffff_ffff;

impl TaskId {
    /// The reserved identifier that never names a submitted task.
    pub fn invalid() -> (r: TaskId)
        ensures
            !r.is_valid(),
    {
        TaskId(INVALID_TASK_ID)
    }

    /// Issues the identifier held by `counter` and advances the counter.
    pub fn new(counter: &mut u64) -> (r: TaskId)
        requires
            *old(counter) < INVALID_TASK_ID,
        ensures
            r.0 == *old(counter),
            *final(counter) == *old(counter) + 1,
            r.is_valid(),
    {
        let r = TaskId(*counter);
        *counter = *counter + 1;
        r
    }

    pub open spec fn is_valid(self) -> bool {
        self.0 != INVALID_TASK_ID
    }

    /// Whether this identifier names a task (is not the reserved value).
    pub fn valid(&self) -> (r: bool)
        ensures
            r == self.is_valid(),
    {
        self.0 != INVALID_TASK_ID
    }
}

/// A unit of work with a single output, run at most once.
pub trait Task: Sized {
    type Output;

    fn execute(self) -> Self::Output;
}

/// A task paired with the identifier it was registered under.
pub struct BoxedTask<T: Task> {
    id: TaskId,
    task: T,
}

impl<T: Task> BoxedTask<T> {
    pub closed spec fn spec_id(&self) -> TaskId {
        self.id
    }

    /// Boxes `task` under a fresh identifier issued from `counter`: the
    /// counter's value, which is never the reserved one, after which the
    /// counter advances so that the value is not issued again.
    pub fn new(counter: &mut u64, task: T) -> (r: Self)
        requires
            *old(counter) < INVALID_TASK_ID,
        ensures
            r.spec_id().0 == *old(counter),
            *final(counter) == *old(counter) + 1,
            r.spec_id().is_valid(),
    {
        let id = TaskId::new(counter);
        BoxedTask { id, task }
    }

    /// Runs the task, consuming the box.
    pub fn execute(self) -> T::Output {
        self.task.execute()
    }

    pub fn id(&self) -> (r: TaskId)
        ensures
            r == self.spec_id(),
    {
        self.id
    }
}

} // verus!
