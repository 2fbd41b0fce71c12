//! The critical-section capability consumed by the interrupt-safe slot.
//!
//! On hardware this is the global interrupt mask of the current core; handing
//! it to the slot as an explicit capability lets the slot run under a
//! simulated mask on a host as well.

use vstd::prelude::*;

verus! {

/// Exclusive access to the one preemption source that contends for a slot.
///
/// `mask` enters and `unmask` leaves the critical section; while it is held
/// no contender runs, so a slot bracketing its accesses in it mutates the
/// cell atomically with respect to that contender. Nesting is ruled out: the
/// section can only be entered when it is not already held. Neither call
/// blocks; a contender simply runs after `unmask`, in program order.
pub trait InterruptMask: Sized {
    /// Whether the critical section is currently held through this
    /// capability. Verified implementations override this; the default
    /// treats the section as never held.
    open spec fn masked(&self) -> bool {
        false
    }

    /// Enter the critical section (disable preemption).
    fn mask(&mut self)
        requires
            !old(self).masked(),
        ensures
            final(self).masked(),
    ;

    /// Leave the critical section (re-enable preemption).
    fn unmask(&mut self)
        requires
            old(self).masked(),
        ensures
            !final(self).masked(),
    ;
}

/// A simulated interrupt mask: it records whether the section is held and
/// masks nothing, for use where no real preemption exists (host-side runs of
/// the interrupt-safe slot). A capability over a real interrupt controller
/// belongs to the surrounding hardware layer.
pub struct FlagMask {
    held: bool,
}

impl FlagMask {
    /// A mask whose critical section is not held.
    pub fn new() -> (r: Self)
        ensures
            !r.masked(),
    {
        FlagMask { held: false }
    }
}

impl InterruptMask for FlagMask {
    closed spec fn masked(&self) -> bool {
        self.held
    }

    fn mask(&mut self) {
        self.held = true;
    }

    fn unmask(&mut self) {
        self.held = false;
    }
}

} // verus!
