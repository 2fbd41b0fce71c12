//! The plain slot: for use from a single execution context, with no
//! concurrent access and no locking overhead.

use vstd::prelude::*;

use crate::model::{register_keeps, register_state, register_wakes, wake_state, wake_wakes, WakerModel};
use crate::waker::{model_of, TaskWaker};

verus! {

/// A slot holding at most one waker capability.
///
/// Created empty; `register` installs a waker, `wake` removes and invokes it.
/// Dropping an occupied slot discards the stored waker without invoking it:
/// destruction is not a wake.
pub struct WakerRegistration<W: TaskWaker> {
    waker: Option<W>,
    invoked: Ghost<Seq<int>>,
}

impl<W: TaskWaker> WakerRegistration<W> {
    /// The stored waker, if any.
    pub closed spec fn stored(&self) -> Option<W> {
        self.waker
    }

    /// Ghost content (key and task) of the stored waker.
    pub open spec fn stored_model(&self) -> Option<WakerModel> {
        match self.stored() {
            Option::Some(w) => Option::Some(model_of(w)),
            Option::None => Option::None,
        }
    }

    /// Every task this slot has woken, oldest first.
    pub closed spec fn woken(&self) -> Seq<int> {
        self.invoked@
    }

    /// An empty slot. No allocation; the zero-cost initial state.
    pub fn new() -> (r: Self)
        ensures
            r.stored() is None,
            r.woken() == Seq::<int>::empty(),
    {
        WakerRegistration { waker: Option::None, invoked: Ghost(Seq::empty()) }
    }

    /// Install a waker. If the stored waker is judged to wake the same task,
    /// it is kept unchanged and `w` is discarded (a coalescing optimization
    /// that skips the clone). Otherwise a clone of `w` takes the slot, and a
    /// displaced waker is woken exactly once, synchronously, so its task can
    /// re-register if it is still interested.
    ///
    /// A `wake` that completed before this call began is not replayed: the
    /// slot queues no past wakes, so a caller must re-check its readiness
    /// condition after registering, or a wake landing in the gap is missed.
    pub fn register(&mut self, w: &W)
        ensures
            final(self).stored_model() == register_state(old(self).stored_model(), model_of(*w)),
            final(self).woken() == old(self).woken() + register_wakes(
                old(self).stored_model(),
                model_of(*w),
            ),
            register_keeps(old(self).stored_model(), model_of(*w)) ==> final(self).stored()
                == old(self).stored(),
    {
        let keep: bool = match &self.waker {
            Option::Some(prev) => prev.will_wake(w),
            Option::None => false,
        };
        if keep {
            proof {
                assert(old(self).woken() + register_wakes(
                    old(self).stored_model(),
                    model_of(*w),
                ) =~= old(self).woken());
            }
        } else {
            let fresh = w.clone_waker();
            let prev = self.waker.take();
            self.waker = Option::Some(fresh);
            match prev {
                Option::Some(p) => {
                    self.invoked = Ghost(self.invoked@ + seq![p.task()]);
                    p.wake();
                }
                Option::None => {
                    proof {
                        assert(old(self).woken() + register_wakes(
                            old(self).stored_model(),
                            model_of(*w),
                        ) =~= old(self).woken());
                    }
                },
            }
        }
    }

    /// Remove and invoke the stored waker; a no-op on an empty slot. The slot
    /// is empty afterwards, so each registration is delivered at most once
    /// and an immediately repeated `wake` does nothing.
    pub fn wake(&mut self)
        ensures
            final(self).stored() is None,
            final(self).stored_model() == wake_state(old(self).stored_model()),
            final(self).woken() == old(self).woken() + wake_wakes(old(self).stored_model()),
    {
        let prev = self.waker.take();
        match prev {
            Option::Some(p) => {
                self.invoked = Ghost(self.invoked@ + seq![p.task()]);
                p.wake();
            }
            Option::None => {
                proof {
                    assert(old(self).woken() + wake_wakes(old(self).stored_model())
                        =~= old(self).woken());
                }
            },
        }
    }
}

} // verus!
