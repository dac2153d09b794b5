//! Tasks
use vstd::prelude::*;

verus! {

/// The handle by which an executor wakes a task.
#[verifier::external_type_specification]
#[verifier::external_body]
pub struct ExWaker(std::task::Waker);

/// A copy of `w` that wakes the same task (`Waker::clone`).
#[verifier::external_body]
pub(crate) fn clone_waker(w: &std::task::Waker) -> std::task::Waker {
    w.clone()
}

/// What polling a `Yield` asks of the executor.
#[derive(PartialEq, Eq, Debug)]
pub enum YieldPoll {
    /// The task is done yielding.
    Ready,
    /// Wake the task again, then suspend it.
    WakeAndPend,
}

/// A future that suspends the current task once.
pub struct Yield {
    yielded: bool,
}

impl Yield {
    /// Whether the task has already been suspended once.
    pub closed spec fn has_yielded(&self) -> bool {
        self.yielded
    }

    /// Polls the future: the first poll asks to wake the task and suspend it, later polls are ready.
    pub fn poll(&mut self) -> (r: YieldPoll)
        ensures
            old(self).has_yielded() ==> r == YieldPoll::Ready,
            !old(self).has_yielded() ==> r == YieldPoll::WakeAndPend,
            final(self).has_yielded(),
    {
        if self.yielded {
            YieldPoll::Ready
        } else {
            self.yielded = true;
            YieldPoll::WakeAndPend
        }
    }
}

/// Suspends the current task
pub fn yield_now() -> (r: Yield)
    ensures
        !r.has_yielded(),
{
    Yield { yielded: false }
}

} // verus!
