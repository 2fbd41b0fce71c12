//! The waker capability the slots consume: a clonable handle that marks one
//! pending task ready, owned and given out by the scheduler around them.

use vstd::prelude::*;

use crate::model::WakerModel;

verus! {

/// A waker capability.
///
/// `key()` identifies the concrete handle and `task()` the logical task it
/// wakes; both are ghost. `will_wake` decides handle equivalence at run time,
/// and is conservative: it reports `true` only for handles of one task, but
/// may report `false` for two distinct handles that nevertheless share a task
/// (`key_determines_task` is the one-sided obligation). Invoking `wake` must
/// be non-blocking and safe from any execution context, even for a task that
/// has already completed.
pub trait TaskWaker: Sized {
    /// Identity of the concrete handle: clones share it. Verified
    /// implementations override this; the default names no handle in
    /// particular.
    open spec fn key(&self) -> int {
        0
    }

    /// The logical task this handle marks ready. Verified implementations
    /// override this.
    open spec fn task(&self) -> int {
        0
    }

    /// Handles with one key wake one task.
    proof fn key_determines_task(&self, other: &Self)
        ensures
            self.key() == other.key() ==> self.task() == other.task(),
    ;

    /// Would `self` and `other` wake the same task? Exactly the key test.
    fn will_wake(&self, other: &Self) -> (r: bool)
        ensures
            r == (self.key() == other.key()),
    ;

    /// A new handle for the same task, interchangeable with `self`.
    fn clone_waker(&self) -> (r: Self)
        ensures
            r.key() == self.key(),
            r.task() == self.task(),
    ;

    /// Mark the task ready. Consumes the handle; at most one invocation per
    /// clone can ever come from it.
    fn wake(self);
}

/// The ghost content of a waker capability.
pub open spec fn model_of<W: TaskWaker>(w: W) -> WakerModel {
    WakerModel { key: w.key(), task: w.task() }
}

/// A waker whose invocation does nothing: a stand-in for a task that no
/// longer needs to be polled. Waking it is a safe no-op, as the capability
/// contract demands of completed tasks.
pub struct NoopWaker {
    /// The task this handle names.
    pub task_id: u64,
}

impl TaskWaker for NoopWaker {
    open spec fn key(&self) -> int {
        self.task_id as int
    }

    open spec fn task(&self) -> int {
        self.task_id as int
    }

    proof fn key_determines_task(&self, other: &Self) {
    }

    fn will_wake(&self, other: &Self) -> (r: bool) {
        self.task_id == other.task_id
    }

    fn clone_waker(&self) -> (r: Self) {
        NoopWaker { task_id: self.task_id }
    }

    fn wake(self) {
    }
}

} // verus!
