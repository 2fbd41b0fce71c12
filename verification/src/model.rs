//! Mathematical model of the slot: its state is the stored waker (if any),
//! its observable effect the sequence of task identities it has woken.

use vstd::prelude::*;

verus! {

/// Ghost description of a waker capability. `key` identifies the concrete
/// handle: two handles with equal keys are interchangeable, and the slot may
/// coalesce them. `task` is the logical task the handle marks ready. Equal
/// keys always mean an equal task; distinct keys may still serve one task
/// (the equivalence judgement is conservative).
pub struct WakerModel {
    pub key: int,
    pub task: int,
}

/// Keys that agree never name different tasks. Every type implementing the
/// waker-capability trait is obliged to satisfy this.
pub open spec fn consistent_pair(a: WakerModel, b: WakerModel) -> bool {
    a.key == b.key ==> a.task == b.task
}

/// `register` keeps the stored waker exactly when the new one is judged
/// equivalent to it (same key).
pub open spec fn register_keeps(s: Option<WakerModel>, w: WakerModel) -> bool {
    match s {
        Some(p) => p.key == w.key,
        None => false,
    }
}

/// Slot state after `register(w)`.
pub open spec fn register_state(s: Option<WakerModel>, w: WakerModel) -> Option<WakerModel> {
    if register_keeps(s, w) {
        s
    } else {
        Some(w)
    }
}

/// Tasks woken by `register(w)`: exactly the displaced waker's task, if one
/// was displaced.
pub open spec fn register_wakes(s: Option<WakerModel>, w: WakerModel) -> Seq<int> {
    match s {
        Some(p) => if p.key == w.key {
            Seq::empty()
        } else {
            seq![p.task]
        },
        None => Seq::empty(),
    }
}

/// Slot state after `wake()`: always empty.
pub open spec fn wake_state(s: Option<WakerModel>) -> Option<WakerModel> {
    None
}

/// Tasks woken by `wake()`: the stored waker's task, if any.
pub open spec fn wake_wakes(s: Option<WakerModel>) -> Seq<int> {
    match s {
        Some(p) => seq![p.task],
        None => Seq::empty(),
    }
}

/// How many wakers a slot state holds.
pub open spec fn stored_count(s: Option<WakerModel>) -> nat {
    match s {
        Some(p) => 1,
        None => 0,
    }
}

/// One operation on a slot.
pub enum SlotOp {
    /// `register` with this waker.
    Register(WakerModel),
    /// `wake`.
    Wake,
}

/// Slot state after one operation.
pub open spec fn step_state(s: Option<WakerModel>, op: SlotOp) -> Option<WakerModel> {
    match op {
        SlotOp::Register(w) => register_state(s, w),
        SlotOp::Wake => wake_state(s),
    }
}

/// Tasks woken by one operation.
pub open spec fn step_wakes(s: Option<WakerModel>, op: SlotOp) -> Seq<int> {
    match op {
        SlotOp::Register(w) => register_wakes(s, w),
        SlotOp::Wake => wake_wakes(s),
    }
}

/// Slot state after a sequence of operations, applied in order, each one
/// atomic.
pub open spec fn run_state(s: Option<WakerModel>, ops: Seq<SlotOp>) -> Option<WakerModel>
    decreases ops.len(),
{
    if ops.len() == 0 {
        s
    } else {
        step_state(run_state(s, ops.drop_last()), ops.last())
    }
}

/// All tasks woken while running a sequence of operations, in order.
pub open spec fn run_wakes(s: Option<WakerModel>, ops: Seq<SlotOp>) -> Seq<int>
    decreases ops.len(),
{
    if ops.len() == 0 {
        Seq::empty()
    } else {
        run_wakes(s, ops.drop_last()) + step_wakes(run_state(s, ops.drop_last()), ops.last())
    }
}

/// Running one further operation is one step after the prefix before it.
pub proof fn lemma_run_decomposes(s: Option<WakerModel>, ops: Seq<SlotOp>, i: int)
    requires
        0 <= i < ops.len(),
    ensures
        run_state(s, ops.take(i + 1)) == step_state(run_state(s, ops.take(i)), ops[i]),
        run_wakes(s, ops.take(i + 1)) == run_wakes(s, ops.take(i)) + step_wakes(
            run_state(s, ops.take(i)),
            ops[i],
        ),
{
    assert(ops.take(i + 1).drop_last() =~= ops.take(i));
    assert(ops.take(i + 1).last() == ops[i]);
}

/// Law: whatever `register` and `wake` calls a slot sees, in whatever order,
/// it never holds more than one waker.
pub proof fn lemma_at_most_one_stored(s: Option<WakerModel>, ops: Seq<SlotOp>)
    ensures
        stored_count(run_state(s, ops)) <= 1,
{
}

/// Law: registering into an empty slot stores the waker and wakes nobody.
pub proof fn lemma_register_empty_stores(s: Option<WakerModel>, w: WakerModel)
    requires
        s is None,
    ensures
        register_state(s, w) == Some(w),
        register_wakes(s, w) == Seq::<int>::empty(),
{
}

/// Law: registering a waker judged equivalent to the stored one keeps the
/// slot unchanged and wakes nobody — coalescing never costs a wake.
pub proof fn lemma_register_equivalent_keeps(s: Option<WakerModel>, w: WakerModel)
    requires
        register_keeps(s, w),
    ensures
        register_state(s, w) == s,
        register_wakes(s, w) == Seq::<int>::empty(),
{
}

/// Law: registering a waker judged non-equivalent to the stored one wakes
/// the displaced waker's task exactly once, and the new waker takes the
/// slot.
pub proof fn lemma_register_displaces(s: Option<WakerModel>, w: WakerModel)
    requires
        s is Some,
        !register_keeps(s, w),
    ensures
        register_state(s, w) == Some(w),
        register_wakes(s, w) == seq![s->Some_0.task],
{
}

/// Law: a register that names a different task always displaces — the
/// conservative equivalence judgement never equates wakers of two tasks, so
/// the coalescing path cannot swallow the wake owed to the old task.
pub proof fn lemma_other_task_always_displaced(s: Option<WakerModel>, w: WakerModel)
    requires
        s is Some,
        consistent_pair(s->Some_0, w),
        s->Some_0.task != w.task,
    ensures
        register_state(s, w) == Some(w),
        register_wakes(s, w) == seq![s->Some_0.task],
{
}

/// Law: `wake` on an empty slot performs no invocation and leaves the slot
/// empty.
pub proof fn lemma_wake_empty_no_invocation(s: Option<WakerModel>)
    requires
        s is None,
    ensures
        wake_state(s) is None,
        wake_wakes(s) == Seq::<int>::empty(),
{
}

/// Law: `wake` on an occupied slot wakes the stored task exactly once and
/// empties the slot, so an immediately following `wake` wakes nobody —
/// at-most-once delivery per registration.
pub proof fn lemma_wake_delivers_once(s: Option<WakerModel>)
    requires
        s is Some,
    ensures
        wake_state(s) is None,
        wake_wakes(s) == seq![s->Some_0.task],
        wake_wakes(wake_state(s)) == Seq::<int>::empty(),
{
}

/// Law: in any interleaving of `register` and `wake` calls, applied
/// atomically in program order, a `wake` that finds the slot occupied wakes
/// the task stored at that instant and is never silently dropped, a `wake`
/// that finds it empty wakes nobody, and at no instant does the slot hold
/// more than one waker.
pub proof fn lemma_interleaving(s: Option<WakerModel>, ops: Seq<SlotOp>, i: int)
    requires
        0 <= i < ops.len(),
    ensures
        stored_count(run_state(s, ops.take(i))) <= 1,
        ops[i] is Wake && run_state(s, ops.take(i)) is Some ==> run_wakes(s, ops.take(i + 1))
            == run_wakes(s, ops.take(i)) + seq![run_state(s, ops.take(i))->Some_0.task],
        ops[i] is Wake && run_state(s, ops.take(i)) is None ==> run_wakes(s, ops.take(i + 1))
            == run_wakes(s, ops.take(i)),
{
    lemma_run_decomposes(s, ops, i);
    if ops[i] is Wake && run_state(s, ops.take(i)) is None {
        assert(run_wakes(s, ops.take(i)) + wake_wakes(run_state(s, ops.take(i))) =~= run_wakes(
            s,
            ops.take(i),
        ));
    }
}

} // verus!
