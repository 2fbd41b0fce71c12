//! A single-slot wake-notification primitive for cooperative task schedulers.
//!
//! The slot stores at most one waker capability. `register` installs a waker,
//! waking any displaced one so its task can re-register; `wake` removes and
//! invokes the stored waker. Two variants share this state machine:
//! [`slot::WakerRegistration`] for single-context use, and
//! [`atomic::AtomicWakerRegistration`], which brackets every slot access in a
//! caller-supplied critical section so that an interrupt handler and task code
//! may share it.

pub mod model;
pub mod waker;
pub mod slot;
pub mod mask;
pub mod atomic;
