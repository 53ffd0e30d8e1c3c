//! The ready queue, the wakers, and the executor's choice of what to do next.
//!
//! An [`Executor`] owns a bounded first-in-first-out queue of task ids and
//! knows how many tasks there are. Waking a task appends its id. The main
//! loop asks [`Executor::step`] what to do and carries it out: poll a task,
//! skip an id that names no task, or, with nothing queued, put the core to
//! sleep until an interrupt.

use crate::collections::{queue_dequeue, queue_enqueue, queue_items, queue_new, READY_CAPACITY};
use heapless::mpmc::MpMcQueue;
use vstd::prelude::*;

verus! {

/// A condition the scheduler cannot recover from. The operations that can
/// meet one come in two forms: one that demands it cannot occur, and a
/// `try_` form that reports it and changes nothing.
#[derive(Debug, Clone, Copy, PartialEq, Eq, Structural)]
pub enum Fatal {
    /// The ready queue has no room for a task that is to be woken.
    TaskQueueFull,
    /// The deadline heap has no room for another deadline.
    DeadlineDropped,
    /// A waker names no task of the executor.
    UnknownWaker,
}

/// What a task learns at a suspension point.
#[derive(Debug, Clone, Copy, PartialEq, Eq, Structural)]
pub enum Poll {
    /// What was waited for has happened.
    Ready,
    /// It has not: the task stays suspended until it is woken.
    Pending,
}

/// What the main loop is to do next.
#[derive(Debug, Clone, Copy, PartialEq, Eq, Structural)]
pub enum Step {
    /// Poll the task with this id.
    Run(usize),
    /// This id was queued but names no task: report it and go on.
    Skip(usize),
    /// Nothing is ready: wait for an interrupt.
    Sleep,
}

/// The step taken with `ready` queued and `task_count` tasks.
pub open spec fn next_step(ready: Seq<usize>, task_count: nat) -> Step {
    if ready.len() == 0 {
        Step::Sleep
    } else if ready[0] < task_count {
        Step::Run(ready[0])
    } else {
        Step::Skip(ready[0])
    }
}

/// The queue left by one step: the front id is gone, if there was one.
pub open spec fn after_step(ready: Seq<usize>) -> Seq<usize> {
    if ready.len() == 0 {
        ready
    } else {
        ready.drop_first()
    }
}

/// The numbers below `count`, in ascending order.
pub open spec fn first_ids(count: nat) -> Seq<usize> {
    Seq::new(count, |i: int| i as usize)
}

/// The queue after a start with `task_count` tasks: behind the ids that
/// were queued already, every task id in ascending order, as far as the
/// queue has room.
pub open spec fn boot_order(ready: Seq<usize>, task_count: nat) -> Seq<usize> {
    ready + first_ids(
        if ready.len() + task_count <= READY_CAPACITY {
            task_count
        } else {
            (READY_CAPACITY - ready.len()) as nat
        },
    )
}

/// The ready queue and the number of tasks.
pub struct Executor {
    ready: MpMcQueue<usize, 4>,
    queued: usize,
    num_tasks: usize,
}

impl Executor {
    /// The queued task ids, oldest first.
    pub closed spec fn ready(&self) -> Seq<usize> {
        queue_items(self.ready)
    }

    /// The number of tasks; the task ids are the numbers below it.
    pub closed spec fn task_count(&self) -> nat {
        self.num_tasks as nat
    }

    /// The executor's own count of the queued ids.
    pub closed spec fn counted(&self) -> nat {
        self.queued as nat
    }

    /// The count agrees with the queue, and the queue is within its capacity.
    pub open spec fn wf(&self) -> bool {
        &&& self.counted() == self.ready().len()
        &&& self.ready().len() <= READY_CAPACITY
    }

    /// An executor without tasks and with nothing queued.
    pub fn new() -> (executor: Executor)
        ensures
            executor.wf(),
            executor.task_count() == 0,
            executor.ready() == Seq::<usize>::empty(),
    {
        Executor { ready: queue_new(), queued: 0, num_tasks: 0 }
    }

    /// Takes on `num_tasks` tasks and queues each of them once, in
    /// ascending order. Ids that do not fit in the queue are left out.
    pub fn start(&mut self, num_tasks: usize)
        requires
            old(self).wf(),
        ensures
            final(self).wf(),
            final(self).task_count() == num_tasks,
            final(self).ready() == boot_order(old(self).ready(), num_tasks as nat),
    {
        self.num_tasks = num_tasks;
        let mut task_id: usize = 0;
        proof {
            assert(self.ready() + first_ids(0) =~= self.ready());
        }
        while task_id < num_tasks
            invariant
                task_id <= num_tasks,
                self.num_tasks == num_tasks,
                self.wf(),
                old(self).wf(),
                self.ready() == boot_order(old(self).ready(), task_id as nat),
            decreases num_tasks - task_id,
        {
            let outcome = queue_enqueue(&mut self.ready, task_id);
            if outcome.is_ok() {
                self.queued = self.queued + 1;
            }
            proof {
                assert(self.ready() =~= boot_order(old(self).ready(), (task_id + 1) as nat));
            }
            task_id = task_id + 1;
        }
    }

    /// The number of tasks.
    pub fn num_tasks(&self) -> (count: usize)
        ensures
            count == self.task_count(),
    {
        self.num_tasks
    }

    /// The number of task ids that can still be queued.
    pub fn free_slots(&self) -> (free: usize)
        requires
            self.wf(),
        ensures
            free == READY_CAPACITY - self.ready().len(),
    {
        READY_CAPACITY - self.queued
    }

    /// Whether the queue is full, so that a further wake cannot be taken.
    pub fn is_full(&self) -> (full: bool)
        requires
            self.wf(),
        ensures
            full == (self.ready().len() == READY_CAPACITY),
    {
        self.queued == READY_CAPACITY
    }

    /// Takes the id at the front of the queue and says what to do with it:
    /// run the task it names, or skip it if it names none. With an empty
    /// queue nothing changes and the answer is to sleep.
    pub fn step(&mut self) -> (step: Step)
        requires
            old(self).wf(),
        ensures
            final(self).wf(),
            final(self).task_count() == old(self).task_count(),
            step == next_step(old(self).ready(), old(self).task_count()),
            final(self).ready() == after_step(old(self).ready()),
    {
        match queue_dequeue(&mut self.ready) {
            Some(task_id) => {
                self.queued = self.queued - 1;
                if task_id >= self.num_tasks {
                    Step::Skip(task_id)
                } else {
                    Step::Run(task_id)
                }
            },
            None => Step::Sleep,
        }
    }
}

/// Queues `task_id` behind the ids already waiting. The id is not looked at:
/// the same id may be queued more than once, and so may one that names no
/// task.
pub fn wake_task(executor: &mut Executor, task_id: usize)
    requires
        old(executor).wf(),
        old(executor).ready().len() < READY_CAPACITY,
    ensures
        final(executor).wf(),
        final(executor).task_count() == old(executor).task_count(),
        final(executor).ready() == old(executor).ready().push(task_id),
{
    let _ = queue_enqueue(&mut executor.ready, task_id);
    executor.queued = executor.queued + 1;
}

/// As [`wake_task`], but a full queue is reported as
/// [`Fatal::TaskQueueFull`] and left as it is.
pub fn try_wake_task(executor: &mut Executor, task_id: usize) -> (outcome: Result<(), Fatal>)
    requires
        old(executor).wf(),
    ensures
        final(executor).wf(),
        final(executor).task_count() == old(executor).task_count(),
        outcome is Ok <==> old(executor).ready().len() < READY_CAPACITY,
        outcome is Err ==> outcome->Err_0 == Fatal::TaskQueueFull,
        final(executor).ready() == after_wake(old(executor).ready(), task_id),
{
    if executor.is_full() {
        Err(Fatal::TaskQueueFull)
    } else {
        wake_task(executor, task_id);
        Ok(())
    }
}

/// A capability to wake one task.
#[derive(Debug, Clone, Copy, PartialEq, Eq, Structural)]
pub struct TaskWaker {
    token: usize,
}

impl TaskWaker {
    /// The id this waker was made for.
    pub closed spec fn token(&self) -> usize {
        self.token
    }

    /// Whether this waker and `other` wake the same task.
    pub fn will_wake(&self, other: &TaskWaker) -> (same: bool)
        ensures
            same == (self.token() == other.token()),
    {
        self.token == other.token
    }

    /// The task this waker names among the tasks of `executor`: the id whose
    /// waker it matches, found by trying each id in turn, or `None` if it
    /// matches none.
    pub fn resolve(&self, executor: &Executor) -> (task_id: Option<usize>)
        ensures
            task_id == self.resolves_to(executor),
    {
        let num_tasks: usize = executor.num_tasks();
        let mut task_id: usize = 0;
        while task_id < num_tasks
            invariant
                task_id <= num_tasks,
                num_tasks == executor.task_count(),
                self.token() >= task_id,
            decreases num_tasks - task_id,
        {
            if get_waker(task_id).will_wake(self) {
                return Some(task_id);
            }
            task_id = task_id + 1;
        }
        None
    }

    /// Wakes the task this waker was made for.
    pub fn wake(&self, executor: &mut Executor)
        requires
            old(executor).wf(),
            old(executor).ready().len() < READY_CAPACITY,
        ensures
            final(executor).wf(),
            final(executor).task_count() == old(executor).task_count(),
            final(executor).ready() == old(executor).ready().push(self.token()),
    {
        wake_task(executor, self.token)
    }
}

/// The waker of task `task_id`. Two wakers made for the same id are
/// interchangeable.
pub fn get_waker(task_id: usize) -> (waker: TaskWaker)
    ensures
        waker.token() == task_id,
{
    TaskWaker { token: task_id }
}

/// Finding the task behind a waker.
pub trait ExtWaker {
    /// The task this waker names among the tasks of `executor`, if any.
    spec fn resolves_to(&self, executor: &Executor) -> Option<usize>;

    /// The id of the task this waker names. A waker that names no task of
    /// the executor is a programming error and not accepted.
    fn task_id(&self, executor: &Executor) -> (task_id: usize)
        requires
            self.resolves_to(executor) is Some,
        ensures
            self.resolves_to(executor) == Some(task_id),
    ;
}

impl ExtWaker for TaskWaker {
    open spec fn resolves_to(&self, executor: &Executor) -> Option<usize> {
        if self.token() < executor.task_count() {
            Some(self.token())
        } else {
            None
        }
    }

    fn task_id(&self, executor: &Executor) -> (task_id: usize) {
        match self.resolve(executor) {
            Some(task_id) => task_id,
            None => unreached(),
        }
    }
}

/// What can happen at the ready queue: the main loop takes a step, or
/// somebody wakes a task.
pub enum QueueOp {
    Step,
    Wake(usize),
}

/// The queue after a wake: the id is appended, unless the queue is full and
/// the wake is turned down.
pub open spec fn after_wake(ready: Seq<usize>, task_id: usize) -> Seq<usize> {
    if ready.len() < READY_CAPACITY {
        ready.push(task_id)
    } else {
        ready
    }
}

/// The task that a step has the main loop poll, if any.
pub open spec fn ran(step: Step) -> Seq<usize> {
    match step {
        Step::Run(task_id) => seq![task_id],
        _ => Seq::empty(),
    }
}

/// The tasks polled, in order, while `ops` happen one after the other to an
/// executor that starts with `ready` queued.
pub open spec fn runs_of(ready: Seq<usize>, task_count: nat, ops: Seq<QueueOp>) -> Seq<usize>
    decreases ops.len(),
{
    if ops.len() == 0 {
        Seq::empty()
    } else {
        match ops[0] {
            QueueOp::Step => ran(next_step(ready, task_count)) + runs_of(
                after_step(ready),
                task_count,
                ops.drop_first(),
            ),
            QueueOp::Wake(task_id) => runs_of(
                after_wake(ready, task_id),
                task_count,
                ops.drop_first(),
            ),
        }
    }
}

/// The queue left when `ops` have happened to an executor that started with
/// `ready` queued.
pub open spec fn queue_after(ready: Seq<usize>, ops: Seq<QueueOp>) -> Seq<usize>
    decreases ops.len(),
{
    if ops.len() == 0 {
        ready
    } else {
        match ops[0] {
            QueueOp::Step => queue_after(after_step(ready), ops.drop_first()),
            QueueOp::Wake(task_id) => queue_after(after_wake(ready, task_id), ops.drop_first()),
        }
    }
}

/// The number of steps among `ops`.
pub open spec fn steps_in(ops: Seq<QueueOp>) -> nat
    decreases ops.len(),
{
    if ops.len() == 0 {
        0
    } else if ops[0] == QueueOp::Step {
        1 + steps_in(ops.drop_first())
    } else {
        steps_in(ops.drop_first())
    }
}

/// `first` is polled, and later `second` is.
pub open spec fn polled_in_order(runs: Seq<usize>, first: usize, second: usize) -> bool {
    exists|a: int, b: int| 0 <= a < b < runs.len() && runs[a] == first && runs[b] == second
}

/// A queued task is polled: the task at place `i` of the queue is polled
/// once more than `i` steps have been taken, whatever is woken in between.
pub proof fn lemma_queued_task_is_polled(
    ready: Seq<usize>,
    task_count: nat,
    ops: Seq<QueueOp>,
    i: int,
)
    requires
        0 <= i < ready.len(),
        ready[i] < task_count,
        steps_in(ops) > i,
    ensures
        runs_of(ready, task_count, ops).contains(ready[i]),
    decreases ops.len(),
{
    let rest = ops.drop_first();
    let runs = runs_of(ready, task_count, ops);
    match ops[0] {
        QueueOp::Wake(task_id) => {
            let woken = after_wake(ready, task_id);
            assert(woken[i] == ready[i]);
            lemma_queued_task_is_polled(woken, task_count, rest, i);
        },
        QueueOp::Step => {
            let head = ran(next_step(ready, task_count));
            let tail = runs_of(after_step(ready), task_count, rest);
            if i == 0 {
                assert(runs[0] == ready[0]);
            } else {
                assert(after_step(ready)[i - 1] == ready[i]);
                lemma_queued_task_is_polled(after_step(ready), task_count, rest, i - 1);
                let at = choose|at: int| 0 <= at < tail.len() && tail[at] == ready[i];
                assert(runs[head.len() + at] == tail[at]);
            }
        },
    }
}

/// Tasks are polled in the order in which they were queued: of two tasks in
/// the queue, both are polled, and the one queued first is polled first,
/// once every id that was queued with them has been taken, whatever is woken
/// in between.
pub proof fn lemma_polled_in_queue_order(
    ready: Seq<usize>,
    task_count: nat,
    ops: Seq<QueueOp>,
    i: int,
    j: int,
)
    requires
        0 <= i < j < ready.len(),
        ready[i] < task_count,
        ready[j] < task_count,
        steps_in(ops) > j,
    ensures
        polled_in_order(runs_of(ready, task_count, ops), ready[i], ready[j]),
    decreases ops.len(),
{
    let rest = ops.drop_first();
    let runs = runs_of(ready, task_count, ops);
    match ops[0] {
        QueueOp::Wake(task_id) => {
            let woken = after_wake(ready, task_id);
            assert(woken[i] == ready[i] && woken[j] == ready[j]);
            lemma_polled_in_queue_order(woken, task_count, rest, i, j);
        },
        QueueOp::Step => {
            let head = ran(next_step(ready, task_count));
            let tail = runs_of(after_step(ready), task_count, rest);
            assert(after_step(ready)[j - 1] == ready[j]);
            if i == 0 {
                lemma_queued_task_is_polled(after_step(ready), task_count, rest, j - 1);
                let b = choose|b: int| 0 <= b < tail.len() && tail[b] == ready[j];
                assert(runs[0] == ready[0]);
                assert(runs[1 + b] == tail[b]);
            } else {
                assert(after_step(ready)[i - 1] == ready[i]);
                lemma_polled_in_queue_order(after_step(ready), task_count, rest, i - 1, j - 1);
                let (a, b) = choose|a: int, b: int|
                    0 <= a < b < tail.len() && tail[a] == ready[i] && tail[b] == ready[j];
                assert(runs[head.len() + a] == tail[a]);
                assert(runs[head.len() + b] == tail[b]);
            }
        },
    }
}

/// An idle executor stays idle: with nothing queued, steps alone poll no
/// task and leave the queue empty. Only a wake ends the sleep.
pub proof fn lemma_idle_until_woken(task_count: nat, ops: Seq<QueueOp>)
    requires
        forall|k: int| 0 <= k < ops.len() ==> ops[k] == QueueOp::Step,
    ensures
        runs_of(Seq::empty(), task_count, ops) == Seq::<usize>::empty(),
        queue_after(Seq::empty(), ops) == Seq::<usize>::empty(),
    decreases ops.len(),
{
    if ops.len() > 0 {
        let rest = ops.drop_first();
        assert forall|k: int| 0 <= k < rest.len() implies rest[k] == QueueOp::Step by {
            assert(rest[k] == ops[k + 1]);
        }
        lemma_idle_until_woken(task_count, rest);
        assert(ops[0] == QueueOp::Step);
        assert(Seq::<usize>::empty() + Seq::<usize>::empty() =~= Seq::<usize>::empty());
    }
}

} // verus!
