use vstd::prelude::*;

verus! {

/// The completion record of one task: a flag and a slot for its result.
/// The slot is filled once, together with the flag, and emptied at most once.
pub struct CompletionState<T> {
    completed: bool,
    result: Option<T>,
}

impl<T> CompletionState<T> {
    pub closed spec fn is_completed(&self) -> bool {
        self.completed
    }

    pub closed spec fn value(&self) -> Option<T> {
        self.result
    }

    /// A value can still be taken.
    pub open spec fn can_take(&self) -> bool {
        self.is_completed() && self.value() is Some
    }

    /// The task completed and its value has already been handed out.
    pub open spec fn is_delivered(&self) -> bool {
        self.is_completed() && self.value() is None
    }

    /// A record for a task that has not finished.
    pub fn new() -> (r: Self)
        ensures
            !r.is_completed(),
            r.value() is None,
    {
        CompletionState { completed: false, result: None }
    }

    /// A record that counts as completed and holds no value; it stands for
    /// "no dependency" and never yields a result.
    pub fn null() -> (r: Self)
        ensures
            r.is_delivered(),
    {
        CompletionState { completed: true, result: None }
    }

    /// Stores the result and marks the task completed. Happens once.
    pub fn set_result(&mut self, value: T)
        requires
            !old(self).is_completed(),
        ensures
            final(self).is_completed(),
            final(self).value() == Some(value),
    {
        self.result = Some(value);
        self.completed = true;
    }

    pub fn completed(&self) -> (r: bool)
        ensures
            r == self.is_completed(),
    {
        self.completed
    }

    /// Whether `get` may be called now.
    pub fn has_result(&self) -> (r: bool)
        ensures
            r == self.can_take(),
    {
        self.completed && self.result.is_some()
    }

    /// The value, left in place, if the task completed and it is still there.
    pub fn peek(&self) -> (r: Option<&T>)
        ensures
            match r {
                Some(v) => self.can_take() && self.value() == Some(*v),
                None => !self.can_take(),
            },
    {
        if !self.completed {
            return None;
        }
        match &self.result {
            Some(v) => Some(v),
            None => None,
        }
    }

    /// Takes the value if the task completed and the value is still there;
    /// otherwise leaves the record as it is and returns `None`.
    pub fn try_get(&mut self) -> (r: Option<T>)
        ensures
            r == (if old(self).is_completed() { old(self).value() } else { None }),
            final(self).is_completed() == old(self).is_completed(),
            final(self).value() == (if old(self).is_completed() { None } else { old(self).value() }),
    {
        if self.completed {
            self.result.take()
        } else {
            None
        }
    }

    /// Takes the value; allowed only while one is there.
    pub fn get(&mut self) -> (r: T)
        requires
            old(self).can_take(),
        ensures
            Some(r) == old(self).value(),
            final(self).is_delivered(),
    {
        let taken = self.result.take();
        taken.unwrap()
    }
}

/// A result is delivered at most once: after `get` (or a `try_get` that
/// returned a value) the record is delivered, a delivered record admits no
/// further `get`, and `try_get` on it returns `None` and leaves it delivered.
pub proof fn lemma_single_delivery<T>(s: CompletionState<T>)
    requires
        s.is_delivered(),
    ensures
        !s.can_take(),
        s.is_completed(),
{
}

} // verus!
