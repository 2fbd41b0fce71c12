//! The interrupt-safe slot: an interrupt handler and task code may share it.
//! Every slot access runs inside a critical section taken from a
//! caller-supplied [`InterruptMask`]; any waker invocation happens strictly
//! after the section is released, so a woken callback can never re-enter the
//! masked region and mutate the slot reentrantly.

use vstd::prelude::*;

use crate::mask::InterruptMask;
use crate::model::{register_keeps, register_state, register_wakes, wake_state, wake_wakes, WakerModel};
use crate::waker::{model_of, TaskWaker};

verus! {

/// A single thing an interrupt-safe slot can be seen to do.
pub enum SlotEvent {
    /// The critical section was entered (preemption masked).
    Masked,
    /// The critical section was left (preemption re-enabled).
    Unmasked,
    /// Invocation of the stored waker, carrying its task identity.
    Invoked(int),
}

/// The tasks invoked in an event sequence, oldest first.
pub open spec fn invocations_of(es: Seq<SlotEvent>) -> Seq<int>
    decreases es.len(),
{
    if es.len() == 0 {
        Seq::empty()
    } else {
        invocations_of(es.drop_last()) + (match es.last() {
            SlotEvent::Invoked(t) => seq![t],
            _ => Seq::<int>::empty(),
        })
    }
}

/// Appending one event appends its invocation, if it is one.
pub proof fn lemma_invocations_of_push(es: Seq<SlotEvent>, e: SlotEvent)
    ensures
        invocations_of(es.push(e)) == invocations_of(es) + (match e {
            SlotEvent::Invoked(t) => seq![t],
            _ => Seq::<int>::empty(),
        }),
{
    assert(es.push(e).drop_last() =~= es);
    assert(es.push(e).last() == e);
}

/// The events one `register(w)` call appends: enter and leave the critical
/// section, then the displaced waker's invocation if one was displaced —
/// strictly after the section is released.
pub open spec fn register_events(s: Option<WakerModel>, w: WakerModel) -> Seq<SlotEvent> {
    if register_keeps(s, w) || s is None {
        seq![SlotEvent::Masked, SlotEvent::Unmasked]
    } else {
        seq![SlotEvent::Masked, SlotEvent::Unmasked, SlotEvent::Invoked(s->Some_0.task)]
    }
}

/// The events one `wake()` call appends: enter and leave the critical
/// section, then the stored waker's invocation if the slot was occupied —
/// strictly after the section is released.
pub open spec fn wake_events(s: Option<WakerModel>) -> Seq<SlotEvent> {
    match s {
        Option::Some(p) => seq![
            SlotEvent::Masked,
            SlotEvent::Unmasked,
            SlotEvent::Invoked(p.task),
        ],
        Option::None => seq![SlotEvent::Masked, SlotEvent::Unmasked],
    }
}

/// A slot holding at most one waker capability, guarded by a critical
/// section.
///
/// Same state machine as the plain slot; in addition each operation is one
/// atomic critical section, so a preempting `wake` observes either the slot
/// before or the slot after a concurrent `register`, never a torn state.
pub struct AtomicWakerRegistration<W: TaskWaker, M: InterruptMask> {
    waker: Option<W>,
    mask: M,
    log: Ghost<Seq<SlotEvent>>,
}

impl<W: TaskWaker, M: InterruptMask> AtomicWakerRegistration<W, M> {
    /// Between operations the critical section is never held.
    pub closed spec fn inv(&self) -> bool {
        !self.mask.masked()
    }

    /// The stored waker, if any.
    pub closed spec fn stored(&self) -> Option<W> {
        self.waker
    }

    /// Ghost content (key and task) of the stored waker.
    pub open spec fn stored_model(&self) -> Option<WakerModel> {
        match self.stored() {
            Option::Some(w) => Option::Some(model_of(w)),
            Option::None => Option::None,
        }
    }

    /// Everything this slot has done, in program order.
    pub closed spec fn events(&self) -> Seq<SlotEvent> {
        self.log@
    }

    /// Every task this slot has woken, oldest first.
    pub open spec fn woken(&self) -> Seq<int> {
        invocations_of(self.events())
    }

    /// An empty slot guarded by `mask`, whose critical section must not
    /// currently be held.
    pub fn new(mask: M) -> (r: Self)
        requires
            !mask.masked(),
        ensures
            r.inv(),
            r.stored() is None,
            r.events() == Seq::<SlotEvent>::empty(),
    {
        AtomicWakerRegistration { waker: Option::None, mask, log: Ghost(Seq::empty()) }
    }

    /// Install a waker, as the plain slot does, but atomically: the stored
    /// waker is inspected and exchanged inside one critical section, and a
    /// displaced waker is invoked exactly once, after the section is
    /// released.
    ///
    /// A `wake` that completed before this call began is not replayed: the
    /// slot queues no past wakes, so a caller must re-check its readiness
    /// condition after registering, or a wake landing in the gap is missed.
    pub fn register(&mut self, w: &W)
        requires
            old(self).inv(),
        ensures
            final(self).inv(),
            final(self).stored_model() == register_state(old(self).stored_model(), model_of(*w)),
            final(self).events() == old(self).events() + register_events(
                old(self).stored_model(),
                model_of(*w),
            ),
            final(self).woken() == old(self).woken() + register_wakes(
                old(self).stored_model(),
                model_of(*w),
            ),
            register_keeps(old(self).stored_model(), model_of(*w)) ==> final(self).stored()
                == old(self).stored(),
    {
        self.mask.mask();
        self.log = Ghost(self.log@.push(SlotEvent::Masked));
        let keep: bool = match &self.waker {
            Option::Some(prev) => prev.will_wake(w),
            Option::None => false,
        };
        let displaced: Option<W> = if keep {
            Option::None
        } else {
            let fresh = w.clone_waker();
            let prev = self.waker.take();
            self.waker = Option::Some(fresh);
            prev
        };
        self.mask.unmask();
        self.log = Ghost(self.log@.push(SlotEvent::Unmasked));
        proof {
            lemma_invocations_of_push(old(self).events(), SlotEvent::Masked);
            lemma_invocations_of_push(
                old(self).events().push(SlotEvent::Masked),
                SlotEvent::Unmasked,
            );
        }
        match displaced {
            Option::Some(p) => {
                proof {
                    lemma_invocations_of_push(self.log@, SlotEvent::Invoked(p.task()));
                }
                self.log = Ghost(self.log@.push(SlotEvent::Invoked(p.task())));
                proof {
                    assert(self.log@ =~= old(self).events() + register_events(
                        old(self).stored_model(),
                        model_of(*w),
                    ));
                    assert(invocations_of(self.log@) =~= invocations_of(old(self).events())
                        + register_wakes(old(self).stored_model(), model_of(*w)));
                }
                p.wake();
            }
            Option::None => {
                proof {
                    assert(self.log@ =~= old(self).events() + register_events(
                        old(self).stored_model(),
                        model_of(*w),
                    ));
                    assert(invocations_of(self.log@) =~= invocations_of(old(self).events())
                        + register_wakes(old(self).stored_model(), model_of(*w)));
                }
            },
        }
    }

    /// Remove and invoke the stored waker, as the plain slot does, but
    /// atomically: the slot is emptied inside one critical section, and the
    /// removed waker is invoked after the section is released. A no-op on an
    /// empty slot.
    pub fn wake(&mut self)
        requires
            old(self).inv(),
        ensures
            final(self).inv(),
            final(self).stored() is None,
            final(self).stored_model() == wake_state(old(self).stored_model()),
            final(self).events() == old(self).events() + wake_events(old(self).stored_model()),
            final(self).woken() == old(self).woken() + wake_wakes(old(self).stored_model()),
    {
        self.mask.mask();
        self.log = Ghost(self.log@.push(SlotEvent::Masked));
        let prev = self.waker.take();
        self.mask.unmask();
        self.log = Ghost(self.log@.push(SlotEvent::Unmasked));
        proof {
            lemma_invocations_of_push(old(self).events(), SlotEvent::Masked);
            lemma_invocations_of_push(
                old(self).events().push(SlotEvent::Masked),
                SlotEvent::Unmasked,
            );
        }
        match prev {
            Option::Some(p) => {
                proof {
                    lemma_invocations_of_push(self.log@, SlotEvent::Invoked(p.task()));
                }
                self.log = Ghost(self.log@.push(SlotEvent::Invoked(p.task())));
                proof {
                    assert(self.log@ =~= old(self).events() + wake_events(
                        old(self).stored_model(),
                    ));
                    assert(invocations_of(self.log@) =~= invocations_of(old(self).events())
                        + wake_wakes(old(self).stored_model()));
                }
                p.wake();
            }
            Option::None => {
                proof {
                    assert(self.log@ =~= old(self).events() + wake_events(
                        old(self).stored_model(),
                    ));
                    assert(invocations_of(self.log@) =~= invocations_of(old(self).events())
                        + wake_wakes(old(self).stored_model()));
                }
            },
        }
    }
}

} // verus!
