//! The millisecond ticker, and sleeping for a duration.
//!
//! The [`Ticker`] counts the milliseconds since start-up. A [`Timer`] is a
//! sleep until a fixed count: the first poll puts its deadline on the
//! deadline heap, every later poll looks whether the ticker has passed it.

use crate::collections::MAX_DEADLINES;
use crate::deadline::{
    lemma_insert_splits, registered_command, registered_entries, registered_wakes,
    schedule_wakeup, task_ids, wakes_fit, DeadlineQueue, Entry, TimerCommand,
};
use crate::executor::{Executor, ExtWaker, Fatal, Poll, TaskWaker};
use vstd::multiset::Multiset;
use vstd::prelude::*;

verus! {

/// Milliseconds since start-up, counted by the periodic tick interrupt.
pub struct Ticker {
    msec: u32,
}

impl View for Ticker {
    type V = u32;

    closed spec fn view(&self) -> u32 {
        self.msec
    }
}

/// The count that follows `now`: one more, and zero after the largest count
/// a `u32` holds.
pub open spec fn tick_after(now: u32) -> u32 {
    if now == u32::MAX {
        0
    } else {
        (now + 1) as u32
    }
}

impl Ticker {
    /// A ticker at zero.
    pub fn new() -> (ticker: Ticker)
        ensures
            ticker@ == 0,
    {
        Ticker { msec: 0 }
    }

    /// A ticker that stands at `msec`.
    pub fn from_millis(msec: u32) -> (ticker: Ticker)
        ensures
            ticker@ == msec,
    {
        Ticker { msec }
    }

    /// The tick interrupt: one millisecond has gone by.
    pub fn tick(&mut self)
        ensures
            final(self)@ == tick_after(old(self)@),
    {
        self.msec = self.msec.wrapping_add(1);
    }

    /// The current count.
    pub fn now(&self) -> (now: u32)
        ensures
            now == self@,
    {
        self.msec
    }

    /// The reload value that makes a down-counter clocked at `sysclk_hz`
    /// wrap once per millisecond.
    pub fn reload_value(sysclk_hz: u32) -> (reload: u32)
        requires
            sysclk_hz >= 1000,
        ensures
            reload == sysclk_hz / 1000 - 1,
    {
        sysclk_hz / 1000 - 1
    }
}

/// The two states of a sleep.
#[derive(Debug, Clone, Copy, PartialEq, Eq, Structural)]
pub enum TimerState {
    /// Not polled yet: no deadline is registered.
    Init,
    /// The deadline is registered.
    Wait,
}

/// A sleep that ends once the ticker has passed a fixed time.
pub struct Timer {
    end_time: u32,
    state: TimerState,
}

/// What stands in the way of registering `entry` at time `now`, with
/// `entries` on the heap and `queued` ids in the ready queue: a heap
/// without room first, then a ready queue without room for the tasks that
/// the registration wakes.
pub open spec fn register_fault(
    entries: Multiset<Entry>,
    queued: nat,
    entry: Entry,
    now: u32,
) -> Option<Fatal> {
    if entries.len() >= MAX_DEADLINES {
        Some(Fatal::DeadlineDropped)
    } else if !wakes_fit(entries, queued, entry, now) {
        Some(Fatal::TaskQueueFull)
    } else {
        None
    }
}

/// What stands in the way of polling `sleep` at time `now` with a waker
/// that resolves to `task`: a waker that names no task first, then, on the
/// first poll, what stands in the way of registering.
pub open spec fn poll_fault(
    sleep: Timer,
    task: Option<usize>,
    entries: Multiset<Entry>,
    queued: nat,
    now: u32,
) -> Option<Fatal> {
    match task {
        None => Some(Fatal::UnknownWaker),
        Some(task_id) => match sleep.state() {
            TimerState::Init => register_fault(entries, queued, sleep.entry(task_id), now),
            TimerState::Wait => None,
        },
    }
}

/// What a poll of `sleep` by task `task_id` at time `now` returns. The first
/// poll says that the sleep goes on, and gives the timer command of the
/// registration. A later poll says whether the ticker has passed the
/// deadline.
pub open spec fn poll_result(sleep: Timer, task_id: usize, entries: Multiset<Entry>, now: u32) -> (
    Poll,
    Option<TimerCommand>,
) {
    match sleep.state() {
        TimerState::Init => (Poll::Pending, registered_command(entries, sleep.entry(task_id), now)),
        TimerState::Wait => (
            if now > sleep.end_time() {
                Poll::Ready
            } else {
                Poll::Pending
            },
            None,
        ),
    }
}

/// The heap after a poll of `sleep`: only the first poll changes it.
pub open spec fn poll_entries(
    sleep: Timer,
    task_id: usize,
    entries: Multiset<Entry>,
    now: u32,
) -> Multiset<Entry> {
    match sleep.state() {
        TimerState::Init => registered_entries(entries, sleep.entry(task_id), now),
        TimerState::Wait => entries,
    }
}

/// The tasks woken by a poll of `sleep`: only the first poll wakes any.
pub open spec fn poll_wakes(sleep: Timer, task_id: usize, entries: Multiset<Entry>, now: u32) -> Seq<
    usize,
> {
    match sleep.state() {
        TimerState::Init => registered_wakes(entries, sleep.entry(task_id), now),
        TimerState::Wait => Seq::empty(),
    }
}

impl Timer {
    /// The time the sleep lasts until.
    pub closed spec fn end_time(&self) -> u32 {
        self.end_time
    }

    /// The state of the sleep.
    pub closed spec fn state(&self) -> TimerState {
        self.state
    }

    /// The entry this sleep leaves on the heap for the task `task_id`.
    pub open spec fn entry(&self, task_id: usize) -> Entry {
        (self.end_time(), task_id)
    }

    /// A sleep of `duration` milliseconds from now.
    pub fn new(ticker: &Ticker, duration: u32) -> (timer: Timer)
        requires
            ticker@ + duration <= u32::MAX,
        ensures
            timer.end_time() == ticker@ + duration,
            timer.state() == TimerState::Init,
    {
        let end_time: u32 = ticker.now() + duration;
        Timer { end_time, state: TimerState::Init }
    }

    /// The time the sleep lasts until.
    pub fn deadline(&self) -> (deadline: u32)
        ensures
            deadline == self.end_time(),
    {
        self.end_time
    }

    /// Whether the deadline is registered.
    pub fn is_waiting(&self) -> (waiting: bool)
        ensures
            waiting == (self.state() == TimerState::Wait),
    {
        match self.state {
            TimerState::Init => false,
            TimerState::Wait => true,
        }
    }

    /// Puts the deadline of this sleep on the heap for `task_id`. If it is
    /// earlier than every deadline held, the tasks that are due are woken
    /// and the answer says how to program the timer; otherwise the timer is
    /// still set right and the answer is `None`.
    ///
    /// The heap must have room for the entry, and the ready queue for every
    /// task that is woken.
    pub fn register(
        &self,
        task_id: usize,
        deadlines: &mut DeadlineQueue,
        executor: &mut Executor,
        ticker: &Ticker,
    ) -> (command: Option<TimerCommand>)
        requires
            old(deadlines).wf(),
            old(executor).wf(),
            register_fault(
                old(deadlines)@,
                old(executor).ready().len(),
                self.entry(task_id),
                ticker@,
            ) is None,
        ensures
            final(deadlines).wf(),
            final(executor).wf(),
            final(executor).task_count() == old(executor).task_count(),
            final(deadlines)@ == registered_entries(old(deadlines)@, self.entry(task_id), ticker@),
            final(executor).ready() == old(executor).ready() + registered_wakes(
                old(deadlines)@,
                self.entry(task_id),
                ticker@,
            ),
            command == registered_command(old(deadlines)@, self.entry(task_id), ticker@),
    {
        let is_earliest = match deadlines.next() {
            Some(next) => self.end_time < next.0,
            None => true,
        };
        deadlines.push((self.end_time, task_id));
        if is_earliest {
            Some(schedule_wakeup(deadlines, executor, ticker.now()))
        } else {
            proof {
                assert(executor.ready() + task_ids(Seq::<Entry>::empty()) =~= executor.ready());
            }
            None
        }
    }

    /// As [`Timer::register`], but a heap without room is reported as
    /// [`Fatal::DeadlineDropped`], and a ready queue without room for the
    /// tasks to be woken as [`Fatal::TaskQueueFull`]; in both cases nothing
    /// is changed.
    pub fn try_register(
        &self,
        task_id: usize,
        deadlines: &mut DeadlineQueue,
        executor: &mut Executor,
        ticker: &Ticker,
    ) -> (outcome: Result<Option<TimerCommand>, Fatal>)
        requires
            old(deadlines).wf(),
            old(executor).wf(),
        ensures
            final(deadlines).wf(),
            final(executor).wf(),
            final(executor).task_count() == old(executor).task_count(),
            outcome is Err <==> register_fault(
                old(deadlines)@,
                old(executor).ready().len(),
                self.entry(task_id),
                ticker@,
            ) is Some,
            outcome is Err ==> Some(outcome->Err_0) == register_fault(
                old(deadlines)@,
                old(executor).ready().len(),
                self.entry(task_id),
                ticker@,
            ),
            outcome is Err ==> final(deadlines)@ == old(deadlines)@,
            outcome is Err ==> final(executor).ready() == old(executor).ready(),
            outcome is Ok ==> outcome->Ok_0 == registered_command(
                old(deadlines)@,
                self.entry(task_id),
                ticker@,
            ),
            outcome is Ok ==> final(deadlines)@ == registered_entries(
                old(deadlines)@,
                self.entry(task_id),
                ticker@,
            ),
            outcome is Ok ==> final(executor).ready() == old(executor).ready() + registered_wakes(
                old(deadlines)@,
                self.entry(task_id),
                ticker@,
            ),
    {
        if deadlines.is_full() {
            return Err(Fatal::DeadlineDropped);
        }
        let now: u32 = ticker.now();
        let is_earliest = match deadlines.next() {
            Some(next) => self.end_time < next.0,
            None => true,
        };
        if is_earliest {
            let due: usize = deadlines.due_count(now);
            let woken: usize = if self.end_time <= now {
                due + 1
            } else {
                due
            };
            proof {
                lemma_insert_splits(deadlines@, (self.end_time, task_id), now);
            }
            if woken > executor.free_slots() {
                return Err(Fatal::TaskQueueFull);
            }
        }
        Ok(self.register(task_id, deadlines, executor, ticker))
    }

    /// One poll of the sleep by the task that `waker` wakes.
    ///
    /// The first poll registers the deadline for that task, as
    /// [`Timer::register`] does, and the sleep goes on. Every later poll
    /// only looks at the time: the sleep is over once the ticker has passed
    /// the deadline, and goes on otherwise, so that a wake that comes early
    /// does not end it.
    ///
    /// The waker must name a task of the executor, and on the first poll
    /// the heap and the ready queue must have the room that registering
    /// needs.
    pub fn poll(
        &mut self,
        waker: &TaskWaker,
        deadlines: &mut DeadlineQueue,
        executor: &mut Executor,
        ticker: &Ticker,
    ) -> (polled: (Poll, Option<TimerCommand>))
        requires
            old(deadlines).wf(),
            old(executor).wf(),
            poll_fault(
                *old(self),
                waker.resolves_to(old(executor)),
                old(deadlines)@,
                old(executor).ready().len(),
                ticker@,
            ) is None,
        ensures
            final(deadlines).wf(),
            final(executor).wf(),
            final(executor).task_count() == old(executor).task_count(),
            final(self).end_time() == old(self).end_time(),
            final(self).state() == TimerState::Wait,
            polled == poll_result(*old(self), waker.token(), old(deadlines)@, ticker@),
            final(deadlines)@ == poll_entries(*old(self), waker.token(), old(deadlines)@, ticker@),
            final(executor).ready() == old(executor).ready() + poll_wakes(
                *old(self),
                waker.token(),
                old(deadlines)@,
                ticker@,
            ),
    {
        let task_id: usize = waker.task_id(executor);
        match self.state {
            TimerState::Init => {
                let command = self.register(task_id, deadlines, executor, ticker);
                self.state = TimerState::Wait;
                (Poll::Pending, command)
            },
            TimerState::Wait => {
                proof {
                    assert(executor.ready() + Seq::<usize>::empty() =~= executor.ready());
                }
                if ticker.now() > self.end_time {
                    (Poll::Ready, None)
                } else {
                    (Poll::Pending, None)
                }
            },
        }
    }

    /// As [`Timer::poll`], but a waker that names no task is reported as
    /// [`Fatal::UnknownWaker`], and on the first poll a heap or a ready
    /// queue without the room needed as [`Timer::try_register`] reports it;
    /// in each of these cases nothing is changed.
    pub fn try_poll(
        &mut self,
        waker: &TaskWaker,
        deadlines: &mut DeadlineQueue,
        executor: &mut Executor,
        ticker: &Ticker,
    ) -> (outcome: Result<(Poll, Option<TimerCommand>), Fatal>)
        requires
            old(deadlines).wf(),
            old(executor).wf(),
        ensures
            final(deadlines).wf(),
            final(executor).wf(),
            final(executor).task_count() == old(executor).task_count(),
            final(self).end_time() == old(self).end_time(),
            outcome is Err <==> poll_fault(
                *old(self),
                waker.resolves_to(old(executor)),
                old(deadlines)@,
                old(executor).ready().len(),
                ticker@,
            ) is Some,
            outcome is Err ==> Some(outcome->Err_0) == poll_fault(
                *old(self),
                waker.resolves_to(old(executor)),
                old(deadlines)@,
                old(executor).ready().len(),
                ticker@,
            ),
            outcome is Err ==> final(self).state() == old(self).state(),
            outcome is Err ==> final(deadlines)@ == old(deadlines)@,
            outcome is Err ==> final(executor).ready() == old(executor).ready(),
            outcome is Ok ==> final(self).state() == TimerState::Wait,
            outcome is Ok ==> outcome->Ok_0 == poll_result(
                *old(self),
                waker.token(),
                old(deadlines)@,
                ticker@,
            ),
            outcome is Ok ==> final(deadlines)@ == poll_entries(
                *old(self),
                waker.token(),
                old(deadlines)@,
                ticker@,
            ),
            outcome is Ok ==> final(executor).ready() == old(executor).ready() + poll_wakes(
                *old(self),
                waker.token(),
                old(deadlines)@,
                ticker@,
            ),
    {
        let task_id: usize = match waker.resolve(executor) {
            Some(task_id) => task_id,
            None => {
                return Err(Fatal::UnknownWaker);
            },
        };
        match self.state {
            TimerState::Init => {
                match self.try_register(task_id, deadlines, executor, ticker) {
                    Ok(command) => {
                        self.state = TimerState::Wait;
                        Ok((Poll::Pending, command))
                    },
                    Err(fatal) => Err(fatal),
                }
            },
            TimerState::Wait => {
                proof {
                    assert(executor.ready() + Seq::<usize>::empty() =~= executor.ready());
                }
                if ticker.now() > self.end_time {
                    Ok((Poll::Ready, None))
                } else {
                    Ok((Poll::Pending, None))
                }
            },
        }
    }
}

/// The count after `ticks` ticks from `now`.
pub open spec fn ticks_after(now: u32, ticks: nat) -> u32
    decreases ticks,
{
    if ticks == 0 {
        now
    } else {
        tick_after(ticks_after(now, (ticks - 1) as nat))
    }
}

/// Time does not run backwards: as long as the count fits in a `u32`, any
/// number of ticks moves it on by that number, and so never below where it
/// was.
pub proof fn lemma_ticks_monotonic(now: u32, ticks: nat)
    requires
        now + ticks <= u32::MAX,
    ensures
        ticks_after(now, ticks) == now + ticks,
        ticks_after(now, ticks) >= now,
    decreases ticks,
{
    if ticks > 0 {
        lemma_ticks_monotonic(now, (ticks - 1) as nat);
    }
}

} // verus!
