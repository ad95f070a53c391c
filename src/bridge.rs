//! The interrupt-to-future bridge: the state that a peripheral operation
//! shares between the task awaiting it and the interrupt that ends it.
//!
//! The completion flag mirrors the hardware "done" status bit, and the
//! interrupt-enable flag mirrors the peripheral's interrupt-enable bit. The
//! owner of an instance keeps interrupts masked around every call.
use vstd::prelude::*;

verus! {

/// The task to make ready when the operation completes.
#[derive(Clone, Copy, PartialEq, Eq, Debug, Structural)]
pub struct WakeTarget {
    pub task: usize,
}

/// Abstract state of an operation cell.
pub ghost struct OperationModel {
    pub done: bool,
    pub irq_enabled: bool,
    pub waker: Option<WakeTarget>,
}

/// The cell of one peripheral operation; it holds a single wake-target, and
/// a new registration replaces the old one.
pub struct OperationState {
    done: bool,
    irq_enabled: bool,
    waker: Option<WakeTarget>,
}

impl View for OperationState {
    type V = OperationModel;

    closed spec fn view(&self) -> OperationModel {
        OperationModel { done: self.done, irq_enabled: self.irq_enabled, waker: self.waker }
    }
}

/// The owner issues the start command: the done flag is cleared and the
/// completion interrupt enabled.
pub open spec fn start_step(pre: OperationModel, post: OperationModel) -> bool {
    post == OperationModel { done: false, irq_enabled: true, waker: pre.waker }
}

/// The hardware finishes and raises its done flag.
pub open spec fn complete_step(pre: OperationModel, post: OperationModel) -> bool {
    post == OperationModel { done: true, ..pre }
}

/// The awaiting task registers `w`, then reads the done flag again.
pub open spec fn poll_step(pre: OperationModel, post: OperationModel, w: WakeTarget, ready: bool) -> bool {
    &&& post == OperationModel { waker: Some(w), ..pre }
    &&& ready == pre.done
}

/// The awaiting task is dropped before it resumes.
pub open spec fn cancel_step(pre: OperationModel, post: OperationModel) -> bool {
    post == OperationModel { waker: None, ..pre }
}

/// The completion interrupt: with the done flag up, disable the interrupt
/// and wake whatever is registered; otherwise do nothing.
pub open spec fn interrupt_step(pre: OperationModel, post: OperationModel, woken: Option<WakeTarget>) -> bool {
    if pre.done {
        &&& post == OperationModel { done: true, irq_enabled: false, waker: None }
        &&& woken == pre.waker
    } else {
        &&& post == pre
        &&& woken.is_none()
    }
}

impl OperationState {
    pub fn new() -> (r: Self)
        ensures
            r@ == (OperationModel { done: false, irq_enabled: false, waker: None }),
    {
        OperationState { done: false, irq_enabled: false, waker: None }
    }

    /// The hardware's done flag.
    pub fn is_done(&self) -> (r: bool)
        ensures
            r == self@.done,
    {
        self.done
    }

    /// The interrupt-enable flag.
    pub fn irq_enabled(&self) -> (r: bool)
        ensures
            r == self@.irq_enabled,
    {
        self.irq_enabled
    }

    /// The registered wake-target, if any.
    pub fn waker(&self) -> (r: Option<WakeTarget>)
        ensures
            r == self@.waker,
    {
        self.waker
    }

    /// Arm the hardware for a new operation.
    pub fn start(&mut self)
        ensures
            start_step(old(self)@, final(self)@),
    {
        self.done = false;
        self.irq_enabled = true;
    }

    /// Record that the hardware raised its done flag.
    pub fn complete(&mut self)
        ensures
            complete_step(old(self)@, final(self)@),
    {
        self.done = true;
    }

    /// The suspension point: register `waker` first, then re-check the done
    /// flag, so that a completion that came before the registration is seen
    /// here rather than lost. True means ready: do not suspend.
    pub fn poll(&mut self, waker: WakeTarget) -> (ready: bool)
        ensures
            poll_step(old(self)@, final(self)@, waker, ready),
    {
        self.waker = Some(waker);
        self.done
    }

    /// The awaiting task was dropped: forget its wake-target. The hardware
    /// operation goes on.
    pub fn cancel(&mut self)
        ensures
            cancel_step(old(self)@, final(self)@),
    {
        self.waker = None;
    }
}

/// The completion interrupt handler of a bridged peripheral.
pub struct InterruptHandler;

impl InterruptHandler {
    /// Returns the task to wake, if any. The handler never reads the result
    /// register: the resumed task does.
    pub fn on_interrupt(state: &mut OperationState) -> (woken: Option<WakeTarget>)
        ensures
            interrupt_step(old(state)@, final(state)@, woken),
    {
        if !state.done {
            return None;
        }
        state.irq_enabled = false;
        let woken = state.waker;
        state.waker = None;
        woken
    }
}

/// A completion that happens before the task registers its wake-target is
/// seen by the re-check: the poll that follows reports ready.
pub proof fn lemma_race_closure(
    s0: OperationModel,
    s1: OperationModel,
    s2: OperationModel,
    s3: OperationModel,
    w: WakeTarget,
    ready: bool,
)
    requires
        start_step(s0, s1),
        complete_step(s1, s2),
        poll_step(s2, s3, w, ready),
    ensures
        ready,
{
}

/// A completion that happens after the task registered and suspended
/// raises an interrupt that wakes exactly that task.
pub proof fn lemma_no_lost_wakeup(
    s0: OperationModel,
    s1: OperationModel,
    s2: OperationModel,
    s3: OperationModel,
    s4: OperationModel,
    w: WakeTarget,
    ready: bool,
    woken: Option<WakeTarget>,
)
    requires
        start_step(s0, s1),
        poll_step(s1, s2, w, ready),
        complete_step(s2, s3),
        interrupt_step(s3, s4, woken),
    ensures
        !ready,
        woken == Some(w),
        !s4.irq_enabled,
{
}

/// A task dropped while awaiting leaves no wake-target behind: the late
/// interrupt wakes nobody, and the next operation starts from the same
/// state as the first one on a fresh cell.
pub proof fn lemma_cancellation_safe(
    s0: OperationModel,
    s1: OperationModel,
    s2: OperationModel,
    s3: OperationModel,
    s4: OperationModel,
    s5: OperationModel,
    woken: Option<WakeTarget>,
)
    requires
        cancel_step(s0, s1),
        complete_step(s1, s2),
        interrupt_step(s2, s3, woken),
        start_step(s3, s4),
        start_step(OperationModel { done: false, irq_enabled: false, waker: None }, s5),
    ensures
        woken.is_none(),
        s4 == s5,
{
}

} // verus!
