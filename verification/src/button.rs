//! The press latch of the push-button.
//!
//! The edge interrupt latches a press in one flag; the task that waits for
//! the button takes it out again. The flag holds one press at most: an edge
//! that finds it set is dropped, which is what debounces the button.

use crate::collections::READY_CAPACITY;
use crate::executor::{wake_task, Executor, ExtWaker, Fatal, Poll, TaskWaker};
use vstd::prelude::*;

verus! {

/// The value that stands for "no task waits for the button".
pub const INVALID_TASK_ID: usize = 0xFFFF_FFFF;

/// The press flag and the task to wake when it is set.
pub struct Button {
    pressed: bool,
    wake_task: usize,
}

/// The tasks an edge wakes: the waiter, if the edge sets the flag and a
/// task waits.
pub open spec fn edge_wakes(pressed: bool, waiter: usize) -> Seq<usize> {
    if !pressed && waiter != INVALID_TASK_ID {
        seq![waiter]
    } else {
        Seq::empty()
    }
}

impl Button {
    /// Whether a press is latched and not yet taken.
    pub closed spec fn pressed(&self) -> bool {
        self.pressed
    }

    /// The task to wake on a press, or [`INVALID_TASK_ID`].
    pub closed spec fn waiter(&self) -> usize {
        self.wake_task
    }

    /// A button with no press latched and no task waiting.
    pub fn new() -> (button: Button)
        ensures
            !button.pressed(),
            button.waiter() == INVALID_TASK_ID,
    {
        Button { pressed: false, wake_task: INVALID_TASK_ID }
    }

    /// Whether a press is latched and not yet taken.
    pub fn is_pressed(&self) -> (pressed: bool)
        ensures
            pressed == self.pressed(),
    {
        self.pressed
    }

    /// The edge interrupt. Sets the flag; if it was clear, the press counts
    /// and the waiting task, if there is one, is woken. If it was set, the
    /// edge is dropped and nothing changes. The answer says whether the
    /// press counted.
    ///
    /// The ready queue must have room for the task that is woken.
    pub fn on_edge(&mut self, executor: &mut Executor) -> (counted: bool)
        requires
            old(executor).wf(),
            old(executor).ready().len() + edge_wakes(old(self).pressed(), old(self).waiter()).len()
                <= READY_CAPACITY,
        ensures
            final(executor).wf(),
            final(executor).task_count() == old(executor).task_count(),
            final(self).pressed(),
            final(self).waiter() == old(self).waiter(),
            counted == !old(self).pressed(),
            final(executor).ready() == old(executor).ready() + edge_wakes(
                old(self).pressed(),
                old(self).waiter(),
            ),
    {
        let was_pressed = self.pressed;
        self.pressed = true;
        if !was_pressed {
            let task_id: usize = self.wake_task;
            if task_id != INVALID_TASK_ID {
                proof {
                    assert(executor.ready() + seq![task_id] =~= executor.ready().push(task_id));
                }
                wake_task(executor, task_id);
            } else {
                proof {
                    assert(executor.ready() + Seq::<usize>::empty() =~= executor.ready());
                }
            }
            true
        } else {
            proof {
                assert(executor.ready() + Seq::<usize>::empty() =~= executor.ready());
            }
            false
        }
    }

    /// As [`Button::on_edge`], but a ready queue without room for the
    /// waiting task is reported as [`Fatal::TaskQueueFull`] and nothing is
    /// changed.
    pub fn try_on_edge(&mut self, executor: &mut Executor) -> (outcome: Result<bool, Fatal>)
        requires
            old(executor).wf(),
        ensures
            final(executor).wf(),
            final(executor).task_count() == old(executor).task_count(),
            final(self).waiter() == old(self).waiter(),
            outcome is Err <==> old(executor).ready().len() + edge_wakes(
                old(self).pressed(),
                old(self).waiter(),
            ).len() > READY_CAPACITY,
            outcome is Err ==> outcome->Err_0 == Fatal::TaskQueueFull,
            outcome is Err ==> final(self).pressed() == old(self).pressed(),
            outcome is Err ==> final(executor).ready() == old(executor).ready(),
            outcome is Ok ==> outcome->Ok_0 == !old(self).pressed(),
            outcome is Ok ==> final(self).pressed(),
            outcome is Ok ==> final(executor).ready() == old(executor).ready() + edge_wakes(
                old(self).pressed(),
                old(self).waiter(),
            ),
    {
        if !self.pressed && self.wake_task != INVALID_TASK_ID && executor.is_full() {
            Err(Fatal::TaskQueueFull)
        } else {
            Ok(self.on_edge(executor))
        }
    }
}

/// One poll of the wait for a press by the task that `waker` wakes.
///
/// If a press is latched it is taken and the wait is over. If none is, the
/// task is noted as the one to wake on the next press, and the wait goes on.
///
/// Where no press is latched, the waker must name a task of the executor.
pub fn button_wait(button: &mut Button, waker: &TaskWaker, executor: &Executor) -> (polled: Poll)
    requires
        !old(button).pressed() ==> waker.resolves_to(executor) is Some,
    ensures
        !final(button).pressed(),
        old(button).pressed() ==> polled == Poll::Ready,
        old(button).pressed() ==> final(button).waiter() == old(button).waiter(),
        !old(button).pressed() ==> polled == Poll::Pending && final(button).waiter()
            == waker.token(),
{
    if button.pressed {
        button.pressed = false;
        Poll::Ready
    } else {
        button.wake_task = waker.task_id(executor);
        Poll::Pending
    }
}

/// As [`button_wait`], but a waker that names no task, where no press is
/// latched, is reported as [`Fatal::UnknownWaker`] and nothing is changed.
pub fn try_button_wait(button: &mut Button, waker: &TaskWaker, executor: &Executor) -> (outcome:
    Result<Poll, Fatal>)
    ensures
        !final(button).pressed(),
        old(button).pressed() ==> outcome is Ok && outcome->Ok_0 == Poll::Ready,
        old(button).pressed() ==> final(button).waiter() == old(button).waiter(),
        !old(button).pressed() && waker.resolves_to(executor) is Some ==> outcome is Ok
            && outcome->Ok_0 == Poll::Pending,
        !old(button).pressed() && waker.resolves_to(executor) is Some ==> final(button).waiter()
            == waker.token(),
        !old(button).pressed() && waker.resolves_to(executor) is None ==> outcome is Err
            && outcome->Err_0 == Fatal::UnknownWaker,
        !old(button).pressed() && waker.resolves_to(executor) is None ==> final(button).waiter()
            == old(button).waiter(),
{
    if !button.pressed && waker.resolve(executor).is_none() {
        Err(Fatal::UnknownWaker)
    } else {
        Ok(button_wait(button, waker, executor))
    }
}

/// What can happen to the press flag: an edge arrives, or the waiting task
/// polls its wait.
pub enum LatchOp {
    /// The button line rose.
    Edge,
    /// The waiting task polled its wait.
    Take,
}

/// The flag after `ops` have happened to a flag that was `pressed`.
pub open spec fn latch_after(pressed: bool, ops: Seq<LatchOp>) -> bool
    decreases ops.len(),
{
    if ops.len() == 0 {
        pressed
    } else {
        match ops[0] {
            LatchOp::Edge => latch_after(true, ops.drop_first()),
            LatchOp::Take => latch_after(false, ops.drop_first()),
        }
    }
}

/// The number of edges among `ops` that count as a press: those that find
/// the flag clear.
pub open spec fn presses_counted(pressed: bool, ops: Seq<LatchOp>) -> nat
    decreases ops.len(),
{
    if ops.len() == 0 {
        0
    } else {
        match ops[0] {
            LatchOp::Edge => (if pressed {
                0nat
            } else {
                1nat
            }) + presses_counted(true, ops.drop_first()),
            LatchOp::Take => presses_counted(false, ops.drop_first()),
        }
    }
}

/// The number of polls among `ops` that take a press: those that find the
/// flag set.
pub open spec fn presses_taken(pressed: bool, ops: Seq<LatchOp>) -> nat
    decreases ops.len(),
{
    if ops.len() == 0 {
        0
    } else {
        match ops[0] {
            LatchOp::Edge => presses_taken(true, ops.drop_first()),
            LatchOp::Take => (if pressed {
                1nat
            } else {
                0nat
            }) + presses_taken(false, ops.drop_first()),
        }
    }
}

/// One for a set flag, nothing for a clear one.
pub open spec fn outstanding(pressed: bool) -> nat {
    if pressed {
        1
    } else {
        0
    }
}

/// An edge sets the flag, and an edge that finds it set changes nothing and
/// counts for nothing.
pub proof fn lemma_edge_latches_once(pressed: bool)
    ensures
        latch_after(pressed, seq![LatchOp::Edge]),
        latch_after(pressed, seq![LatchOp::Edge, LatchOp::Edge]) == latch_after(
            pressed,
            seq![LatchOp::Edge],
        ),
        presses_counted(pressed, seq![LatchOp::Edge, LatchOp::Edge]) == presses_counted(
            pressed,
            seq![LatchOp::Edge],
        ),
        presses_counted(false, seq![LatchOp::Edge, LatchOp::Edge]) == 1,
{
    let once = seq![LatchOp::Edge];
    let twice = seq![LatchOp::Edge, LatchOp::Edge];
    assert(once.drop_first() =~= Seq::<LatchOp>::empty());
    assert(twice.drop_first() =~= once);
    reveal_with_fuel(latch_after, 3);
    reveal_with_fuel(presses_counted, 3);
}

/// However edges and polls follow each other, every press that counted is
/// either taken or still latched, and at most one is latched: the presses
/// counted, with the one that was latched at the start, are the presses
/// taken, with the one that is latched at the end.
pub proof fn lemma_at_most_one_outstanding(pressed: bool, ops: Seq<LatchOp>)
    ensures
        presses_counted(pressed, ops) + outstanding(pressed) == presses_taken(pressed, ops)
            + outstanding(latch_after(pressed, ops)),
        presses_counted(pressed, ops) + outstanding(pressed) <= presses_taken(pressed, ops) + 1,
    decreases ops.len(),
{
    if ops.len() > 0 {
        match ops[0] {
            LatchOp::Edge => lemma_at_most_one_outstanding(true, ops.drop_first()),
            LatchOp::Take => lemma_at_most_one_outstanding(false, ops.drop_first()),
        }
    }
}

} // verus!
