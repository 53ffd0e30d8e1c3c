//! The deadline heap and the re-arming of the deadline timer.
//!
//! A sleeping task leaves a `(deadline, task id)` entry in a bounded
//! min-heap. One hardware timer is kept programmed for the earliest
//! deadline; when it fires, or when a new earliest deadline is registered,
//! [`schedule_wakeup`] wakes every task whose deadline has come and says how
//! the timer is to be programmed from then on.
//!
//! Entries are ordered as pairs: by deadline, and among equal deadlines by
//! task id. That is the order in which due tasks are woken.

use crate::collections::{
    entry_le, heap_entries, heap_is_empty, heap_len, heap_new, heap_peek, heap_pop, heap_push,
    heap_snapshot, is_least, MAX_DEADLINES, READY_CAPACITY,
};
use crate::executor::{wake_task, Executor, Fatal};
use heapless::binary_heap::{BinaryHeap, Min};
use vstd::multiset::Multiset;
use vstd::prelude::*;

verus! {

/// A pending wake: the deadline in milliseconds since start-up, and the id
/// of the task to wake.
pub type Entry = (u32, usize);

/// How the deadline timer is to be programmed.
#[derive(Debug, Clone, Copy, PartialEq, Eq, Structural)]
pub enum TimerCommand {
    /// Clear any pending event, enable the interrupt, and fire after this
    /// many milliseconds.
    Arm(u32),
    /// Disable the interrupt: nothing is pending.
    Disable,
}

/// Whether the deadline of `entry` has come at time `now`.
pub open spec fn is_due(entry: Entry, now: u32) -> bool {
    entry.0 <= now
}

/// The entries whose deadline has come at time `now`.
pub open spec fn due_entries(entries: Multiset<Entry>, now: u32) -> Multiset<Entry> {
    entries.filter(|entry: Entry| is_due(entry, now))
}

/// The entries whose deadline is still ahead at time `now`.
pub open spec fn pending_entries(entries: Multiset<Entry>, now: u32) -> Multiset<Entry> {
    entries.filter(|entry: Entry| !is_due(entry, now))
}

/// The least entry of `entries`, if there is any entry.
pub open spec fn earliest(entries: Multiset<Entry>) -> Entry {
    choose|entry: Entry| is_least(entries, entry)
}

/// The due entries in the order in which they are woken: the least first.
pub open spec fn wake_sequence(entries: Multiset<Entry>, now: u32) -> Seq<Entry>
    decreases entries.len(),
{
    let first = earliest(entries);
    if entries.count(first) > 0 && is_due(first, now) {
        seq![first] + wake_sequence(entries.remove(first), now)
    } else {
        Seq::empty()
    }
}

/// The task ids of a sequence of entries.
pub open spec fn task_ids(entries: Seq<Entry>) -> Seq<usize> {
    Seq::new(entries.len(), |i: int| entries[i].1)
}

/// The command that keeps the timer set for the earliest of `entries`, seen
/// from time `now`.
pub open spec fn rearm(entries: Multiset<Entry>, now: u32) -> TimerCommand {
    if entries.len() == 0 {
        TimerCommand::Disable
    } else {
        TimerCommand::Arm((earliest(entries).0 - now) as u32)
    }
}

/// Whether a new entry with this deadline would come before every entry
/// held.
pub open spec fn becomes_earliest(entries: Multiset<Entry>, deadline: u32) -> bool {
    entries.len() == 0 || deadline < earliest(entries).0
}

/// Two least entries of one multiset are the same entry.
pub proof fn lemma_least_unique(entries: Multiset<Entry>, a: Entry, b: Entry)
    requires
        is_least(entries, a),
        is_least(entries, b),
    ensures
        a == b,
{
}

/// A least entry is the one that [`earliest`] names.
pub proof fn lemma_earliest_is(entries: Multiset<Entry>, entry: Entry)
    requires
        is_least(entries, entry),
    ensures
        earliest(entries) == entry,
{
    lemma_least_unique(entries, entry, earliest(entries));
}

/// Every multiset with an entry has a least one.
pub proof fn lemma_least_exists(entries: Multiset<Entry>)
    requires
        entries.len() > 0,
    ensures
        is_least(entries, earliest(entries)),
    decreases entries.len(),
{
    let some = entries.choose();
    let rest = entries.remove(some);
    if rest.len() == 0 {
        assert forall|other: Entry| #[trigger] entries.count(other) > 0 implies other
            == some by {
            if other != some {
                assert(rest.count(other) > 0);
            }
        }
        assert(is_least(entries, some));
    } else {
        lemma_least_exists(rest);
        let least_of_rest = earliest(rest);
        let least = if entry_le(some, least_of_rest) {
            some
        } else {
            least_of_rest
        };
        assert forall|other: Entry| #[trigger]
            entries.count(other) > 0 implies entry_le(least, other) by {
            if other != some {
                assert(rest.count(other) > 0);
            }
        }
        assert(is_least(entries, least));
    }
}

/// Taking a due entry out leaves the pending entries as they are and takes
/// it out of the due ones.
proof fn lemma_remove_due(entries: Multiset<Entry>, entry: Entry, now: u32)
    requires
        entries.count(entry) > 0,
        is_due(entry, now),
    ensures
        pending_entries(entries.remove(entry), now) == pending_entries(entries, now),
        due_entries(entries.remove(entry), now) == due_entries(entries, now).remove(entry),
        due_entries(entries, now).count(entry) > 0,
{
    assert(pending_entries(entries.remove(entry), now) =~= pending_entries(entries, now));
    assert(due_entries(entries.remove(entry), now) =~= due_entries(entries, now).remove(entry));
}

/// Where the least entry is not due, none is.
proof fn lemma_none_due(entries: Multiset<Entry>, least: Entry, now: u32)
    requires
        is_least(entries, least),
        !is_due(least, now),
    ensures
        pending_entries(entries, now) == entries,
        due_entries(entries, now).len() == 0,
        wake_sequence(entries, now) == Seq::<Entry>::empty(),
{
    lemma_earliest_is(entries, least);
    assert(pending_entries(entries, now) =~= entries);
    assert(due_entries(entries, now) =~= Multiset::<Entry>::empty());
}

/// An added entry is due or pending, and the others stay what they were.
pub proof fn lemma_insert_splits(entries: Multiset<Entry>, entry: Entry, now: u32)
    ensures
        is_due(entry, now) ==> due_entries(entries.insert(entry), now) == due_entries(
            entries,
            now,
        ).insert(entry) && pending_entries(entries.insert(entry), now) == pending_entries(
            entries,
            now,
        ),
        !is_due(entry, now) ==> due_entries(entries.insert(entry), now) == due_entries(entries, now)
            && pending_entries(entries.insert(entry), now) == pending_entries(entries, now).insert(
            entry,
        ),
{
    if is_due(entry, now) {
        assert(due_entries(entries.insert(entry), now) =~= due_entries(entries, now).insert(entry));
        assert(pending_entries(entries.insert(entry), now) =~= pending_entries(entries, now));
    } else {
        assert(due_entries(entries.insert(entry), now) =~= due_entries(entries, now));
        assert(pending_entries(entries.insert(entry), now) =~= pending_entries(entries, now).insert(
            entry,
        ));
    }
}

/// Where the least entry is due, its task is the first to be woken, and the
/// wakes of the other entries follow.
proof fn lemma_first_due(entries: Multiset<Entry>, first: Entry, now: u32)
    requires
        is_least(entries, first),
        is_due(first, now),
    ensures
        wake_sequence(entries, now) == seq![first] + wake_sequence(entries.remove(first), now),
        task_ids(wake_sequence(entries, now)) == seq![first.1] + task_ids(
            wake_sequence(entries.remove(first), now),
        ),
        pending_entries(entries.remove(first), now) == pending_entries(entries, now),
        due_entries(entries.remove(first), now).len() + 1 == due_entries(entries, now).len(),
{
    let later = wake_sequence(entries.remove(first), now);
    lemma_earliest_is(entries, first);
    lemma_remove_due(entries, first, now);
    assert(task_ids(seq![first] + later) =~= seq![first.1] + task_ids(later));
}

/// The pending deadlines.
pub struct DeadlineQueue {
    heap: BinaryHeap<Entry, Min, 8>,
}

impl View for DeadlineQueue {
    type V = Multiset<Entry>;

    closed spec fn view(&self) -> Multiset<Entry> {
        heap_entries(self.heap)
    }
}

impl DeadlineQueue {
    /// The heap is within its capacity.
    pub open spec fn wf(&self) -> bool {
        self@.len() <= MAX_DEADLINES
    }

    /// A queue without deadlines.
    pub fn new() -> (deadlines: DeadlineQueue)
        ensures
            deadlines.wf(),
            deadlines@ == Multiset::<Entry>::empty(),
    {
        DeadlineQueue { heap: heap_new() }
    }

    /// The number of pending deadlines.
    pub fn len(&self) -> (len: usize)
        ensures
            len == self@.len(),
    {
        heap_len(&self.heap)
    }

    /// Whether no further deadline can be taken.
    pub fn is_full(&self) -> (full: bool)
        ensures
            full == (self@.len() >= MAX_DEADLINES),
    {
        heap_len(&self.heap) >= MAX_DEADLINES
    }

    /// The earliest pending entry, if there is one.
    pub fn next(&self) -> (next: Option<Entry>)
        ensures
            self@.len() == 0 ==> next is None,
            self@.len() > 0 ==> next == Some(earliest(self@)),
    {
        let top = heap_peek(&self.heap);
        proof {
            if top is Some {
                lemma_earliest_is(self@, top->0);
            }
        }
        top
    }

    /// Adds an entry, without a look at the timer.
    pub(crate) fn push(&mut self, entry: Entry)
        requires
            old(self)@.len() < MAX_DEADLINES,
        ensures
            final(self)@ == old(self)@.insert(entry),
            final(self).wf(),
    {
        let _ = heap_push(&mut self.heap, entry);
    }

    /// The number of entries whose deadline has come at time `now`.
    pub fn due_count(&self, now: u32) -> (count: usize)
        requires
            self.wf(),
        ensures
            count == due_entries(self@, now).len(),
            count <= self@.len(),
    {
        let entries = heap_snapshot(&self.heap);
        proof {
            entries@.to_multiset_ensures();
            let nothing = entries@.take(0);
            nothing.to_multiset_ensures();
            assert(due_entries(nothing.to_multiset(), now) =~= Multiset::<Entry>::empty());
        }
        let mut count: usize = 0;
        let mut i: usize = 0;
        while i < entries.len()
            invariant
                i <= entries.len(),
                entries@.len() <= MAX_DEADLINES,
                count <= i,
                count == due_entries(entries@.take(i as int).to_multiset(), now).len(),
            decreases entries.len() - i,
        {
            proof {
                let seen = entries@.take(i as int);
                assert(entries@.take(i + 1) =~= seen.push(entries@[i as int]));
                vstd::seq_lib::to_multiset_build(seen, entries@[i as int]);
                lemma_insert_splits(seen.to_multiset(), entries@[i as int], now);
            }
            if entries[i].0 <= now {
                count = count + 1;
            }
            i = i + 1;
        }
        proof {
            assert(entries@.take(entries.len() as int) =~= entries@);
        }
        count
    }
}

/// Wakes every task whose deadline has come at time `now`, the earliest
/// first, and takes its entry off the heap. The answer says how to program
/// the timer: for the earliest deadline left, or off if none is left.
///
/// The ready queue must have room for every task that is due.
pub fn schedule_wakeup(
    deadlines: &mut DeadlineQueue,
    executor: &mut Executor,
    now: u32,
) -> (command: TimerCommand)
    requires
        old(deadlines).wf(),
        old(executor).wf(),
        old(executor).ready().len() + due_entries(old(deadlines)@, now).len() <= READY_CAPACITY,
    ensures
        final(deadlines).wf(),
        final(executor).wf(),
        final(executor).task_count() == old(executor).task_count(),
        final(deadlines)@ == pending_entries(old(deadlines)@, now),
        final(executor).ready() == old(executor).ready() + task_ids(
            wake_sequence(old(deadlines)@, now),
        ),
        command == rearm(final(deadlines)@, now),
{
    let ghost start = deadlines@;
    let ghost ready_at_start = executor.ready();
    let mut command = TimerCommand::Disable;
    loop
        invariant
            deadlines.wf(),
            executor.wf(),
            executor.task_count() == old(executor).task_count(),
            executor.ready().len() + due_entries(deadlines@, now).len() <= READY_CAPACITY,
            pending_entries(deadlines@, now) == pending_entries(start, now),
            ready_at_start + task_ids(wake_sequence(start, now)) == executor.ready() + task_ids(
                wake_sequence(deadlines@, now),
            ),
        ensures
            deadlines@ == pending_entries(start, now),
            executor.ready() == ready_at_start + task_ids(wake_sequence(start, now)),
            deadlines@.len() > 0 ==> command == rearm(deadlines@, now),
        decreases deadlines@.len(),
    {
        match heap_peek(&deadlines.heap) {
            Some((deadline, task_id)) => {
                let ghost first = (deadline, task_id);
                if deadline > now {
                    proof {
                        lemma_none_due(deadlines@, first, now);
                    }
                    command = TimerCommand::Arm(deadline - now);
                    break ;
                } else {
                    proof {
                        let later = task_ids(wake_sequence(deadlines@.remove(first), now));
                        lemma_first_due(deadlines@, first, now);
                        assert(executor.ready().push(task_id) + later =~= executor.ready() + (
                        seq![task_id] + later));
                    }
                    wake_task(executor, task_id);
                    let _ = heap_pop(&mut deadlines.heap);
                }
            },
            None => {
                proof {
                    assert(deadlines@ =~= Multiset::<Entry>::empty());
                    assert(pending_entries(deadlines@, now) =~= deadlines@);
                    assert(executor.ready() + task_ids(wake_sequence(deadlines@, now))
                        =~= executor.ready());
                }
                break ;
            },
        }
    }
    if heap_is_empty(&deadlines.heap) {
        command = TimerCommand::Disable;
    }
    command
}

/// As [`schedule_wakeup`], but where the ready queue has no room for every
/// task that is due, that is reported as [`Fatal::TaskQueueFull`] and
/// nothing is changed.
pub fn try_schedule_wakeup(
    deadlines: &mut DeadlineQueue,
    executor: &mut Executor,
    now: u32,
) -> (outcome: Result<TimerCommand, Fatal>)
    requires
        old(deadlines).wf(),
        old(executor).wf(),
    ensures
        final(deadlines).wf(),
        final(executor).wf(),
        final(executor).task_count() == old(executor).task_count(),
        outcome is Err <==> old(executor).ready().len() + due_entries(old(deadlines)@, now).len()
            > READY_CAPACITY,
        outcome is Err ==> outcome->Err_0 == Fatal::TaskQueueFull,
        outcome is Err ==> final(deadlines)@ == old(deadlines)@,
        outcome is Err ==> final(executor).ready() == old(executor).ready(),
        outcome is Ok ==> outcome->Ok_0 == rearm(final(deadlines)@, now),
        outcome is Ok ==> final(deadlines)@ == pending_entries(old(deadlines)@, now),
        outcome is Ok ==> final(executor).ready() == old(executor).ready() + task_ids(
            wake_sequence(old(deadlines)@, now),
        ),
{
    if deadlines.due_count(now) > executor.free_slots() {
        Err(Fatal::TaskQueueFull)
    } else {
        Ok(schedule_wakeup(deadlines, executor, now))
    }
}

/// The heap after an entry is registered at time `now`: the entry is added,
/// and if it leads the heap, every entry that is due is taken off again.
pub open spec fn registered_entries(
    entries: Multiset<Entry>,
    entry: Entry,
    now: u32,
) -> Multiset<Entry> {
    if becomes_earliest(entries, entry.0) {
        pending_entries(entries.insert(entry), now)
    } else {
        entries.insert(entry)
    }
}

/// The entries taken off the heap when an entry is registered at time `now`:
/// none unless the entry leads the heap, and then those that are due, the
/// earliest first.
pub open spec fn registered_woken(entries: Multiset<Entry>, entry: Entry, now: u32) -> Seq<Entry> {
    if becomes_earliest(entries, entry.0) {
        wake_sequence(entries.insert(entry), now)
    } else {
        Seq::empty()
    }
}

/// The tasks woken when an entry is registered at time `now`, in the order
/// in which they are woken.
pub open spec fn registered_wakes(entries: Multiset<Entry>, entry: Entry, now: u32) -> Seq<usize> {
    task_ids(registered_woken(entries, entry, now))
}

/// The timer command that registering an entry at time `now` gives: none
/// unless the entry leads the heap, since the timer is then still set right.
pub open spec fn registered_command(
    entries: Multiset<Entry>,
    entry: Entry,
    now: u32,
) -> Option<TimerCommand> {
    if becomes_earliest(entries, entry.0) {
        Some(rearm(registered_entries(entries, entry, now), now))
    } else {
        None
    }
}

/// Whether the ready queue, holding `queued` ids, has room for the tasks
/// that registering `entry` at time `now` wakes.
pub open spec fn wakes_fit(entries: Multiset<Entry>, queued: nat, entry: Entry, now: u32) -> bool {
    becomes_earliest(entries, entry.0) ==> queued + due_entries(entries.insert(entry), now).len()
        <= READY_CAPACITY
}

/// Tasks are woken in the order of their deadlines, none before its
/// deadline, and none that is due is left out: the wake sequence holds
/// exactly the due entries, each as often as the heap does, in ascending
/// order.
pub proof fn lemma_wakes_in_deadline_order(entries: Multiset<Entry>, now: u32)
    ensures
        wake_sequence(entries, now).to_multiset() == due_entries(entries, now),
        forall|i: int|
            0 <= i < wake_sequence(entries, now).len() ==> is_due(
                #[trigger] wake_sequence(entries, now)[i],
                now,
            ),
        forall|i: int, j: int|
            0 <= i <= j < wake_sequence(entries, now).len() ==> entry_le(
                #[trigger] wake_sequence(entries, now)[i],
                #[trigger] wake_sequence(entries, now)[j],
            ),
    decreases entries.len(),
{
    let woken = wake_sequence(entries, now);
    let first = earliest(entries);
    if entries.len() == 0 {
        assert(entries.count(first) == 0);
        woken.to_multiset_ensures();
        assert(woken.to_multiset() =~= due_entries(entries, now));
    } else {
        lemma_least_exists(entries);
        if is_due(first, now) {
            let rest = entries.remove(first);
            let later = wake_sequence(rest, now);
            lemma_wakes_in_deadline_order(rest, now);
            lemma_remove_due(entries, first, now);
            assert(woken =~= later.insert(0, first));
            vstd::seq_lib::to_multiset_insert(later, 0, first);
            assert(woken.to_multiset() =~= due_entries(entries, now));
            later.to_multiset_ensures();
            assert forall|i: int, j: int| 0 <= i <= j < woken.len() implies entry_le(
                #[trigger] woken[i],
                #[trigger] woken[j],
            ) by {
                if i == 0 {
                    if j > 0 {
                        let other = later[j - 1];
                        assert(later.contains(other));
                        assert(later.to_multiset().count(other) > 0);
                        assert(due_entries(rest, now).count(other) > 0);
                        assert(rest.count(other) > 0);
                    }
                } else {
                    assert(woken[i] == later[i - 1]);
                    assert(woken[j] == later[j - 1]);
                }
            }
            assert forall|i: int| 0 <= i < woken.len() implies is_due(#[trigger] woken[i], now) by {
                if i > 0 {
                    assert(woken[i] == later[i - 1]);
                }
            }
        } else {
            lemma_none_due(entries, first, now);
            woken.to_multiset_ensures();
            assert(woken.to_multiset() =~= due_entries(entries, now));
        }
    }
}

/// What one drain leaves on the heap is due later than all it woke: a task
/// woken by the next drain has a later deadline than each task woken by
/// this one.
pub proof fn lemma_pending_after_woken(
    entries: Multiset<Entry>,
    now: u32,
    i: int,
    pending: Entry,
)
    requires
        0 <= i < wake_sequence(entries, now).len(),
        pending_entries(entries, now).count(pending) > 0,
    ensures
        wake_sequence(entries, now)[i].0 <= now < pending.0,
{
    lemma_wakes_in_deadline_order(entries, now);
}

/// An empty heap is quiet: a drain of it wakes nobody, leaves it empty, and
/// switches the timer off, so that nothing ends the sleep of the core but
/// an interrupt from elsewhere.
pub proof fn lemma_empty_heap_is_quiet(now: u32)
    ensures
        wake_sequence(Multiset::empty(), now) == Seq::<Entry>::empty(),
        pending_entries(Multiset::empty(), now) == Multiset::<Entry>::empty(),
        rearm(pending_entries(Multiset::empty(), now), now) == TimerCommand::Disable,
{
    let nothing = Multiset::<Entry>::empty();
    assert(nothing.count(earliest(nothing)) == 0);
    assert(pending_entries(nothing, now) =~= nothing);
}

/// What can happen to the deadline heap as time goes by.
pub enum TimeOp {
    /// The ticker moves on to this count; a count behind the ticker leaves
    /// it where it is.
    Advance(u32),
    /// The task with this id registers a deadline this many milliseconds
    /// ahead.
    Sleep(usize, u32),
    /// The deadline timer fires and the heap is drained.
    Fire,
}

/// One wake: the time at which it happens, and the entry that is due.
pub struct Wake {
    pub at: u32,
    pub entry: Entry,
}

/// The wakes of `entries` at time `at`, in the same order.
pub open spec fn wakes_at(entries: Seq<Entry>, at: u32) -> Seq<Wake> {
    Seq::new(entries.len(), |i: int| Wake { at, entry: entries[i] })
}

/// The wakes, in order, while `ops` happen one after the other to a heap
/// that starts with `entries` at time `now`. A deadline that the heap has
/// no room for, or that lies beyond the largest count, is not registered.
/// The ready queue is taken to have room for every wake.
pub open spec fn wakes_of(entries: Multiset<Entry>, now: u32, ops: Seq<TimeOp>) -> Seq<Wake>
    decreases ops.len(),
{
    if ops.len() == 0 {
        Seq::empty()
    } else {
        match ops[0] {
            TimeOp::Advance(to) => wakes_of(
                entries,
                if to > now {
                    to
                } else {
                    now
                },
                ops.drop_first(),
            ),
            TimeOp::Fire => wakes_at(wake_sequence(entries, now), now) + wakes_of(
                pending_entries(entries, now),
                now,
                ops.drop_first(),
            ),
            TimeOp::Sleep(task_id, duration) => if now + duration > u32::MAX || entries.len()
                >= MAX_DEADLINES {
                wakes_of(entries, now, ops.drop_first())
            } else {
                wakes_at(registered_woken(entries, ((now + duration) as u32, task_id), now), now)
                    + wakes_of(
                    registered_entries(entries, ((now + duration) as u32, task_id), now),
                    now,
                    ops.drop_first(),
                )
            },
        }
    }
}

/// The wakes of one drain, with what they leave behind: they are in the
/// order of their deadlines, between `bound` and `now`, and what stays on
/// the heap is due after `now`.
proof fn lemma_drain_between(entries: Multiset<Entry>, now: u32, bound: u32)
    requires
        forall|entry: Entry| #[trigger] entries.count(entry) > 0 ==> bound <= entry.0,
    ensures
        forall|i: int|
            0 <= i < wake_sequence(entries, now).len() ==> bound <= (#[trigger] wake_sequence(
                entries,
                now,
            )[i]).0 <= now,
        forall|i: int, j: int|
            0 <= i <= j < wake_sequence(entries, now).len() ==> (#[trigger] wake_sequence(
                entries,
                now,
            )[i]).0 <= (#[trigger] wake_sequence(entries, now)[j]).0,
        forall|entry: Entry| #[trigger]
            pending_entries(entries, now).count(entry) > 0 ==> now < entry.0,
{
    let woken = wake_sequence(entries, now);
    lemma_wakes_in_deadline_order(entries, now);
    woken.to_multiset_ensures();
    assert forall|i: int| 0 <= i < woken.len() implies bound <= (#[trigger] woken[i]).0 <= now by {
        assert(woken.contains(woken[i]));
        assert(woken.to_multiset().count(woken[i]) > 0);
        assert(entries.count(woken[i]) > 0);
    }
    assert forall|i: int, j: int| 0 <= i <= j < woken.len() implies (#[trigger] woken[i]).0 <= (
    #[trigger] woken[j]).0 by {
        assert(entry_le(woken[i], woken[j]));
    }
}

/// Every wake happens at or after its deadline.
pub open spec fn none_early(wakes: Seq<Wake>) -> bool {
    forall|i: int| 0 <= i < wakes.len() ==> (#[trigger] wakes[i]).entry.0 <= wakes[i].at
}

/// No wake has an earlier deadline than a wake before it.
pub open spec fn in_deadline_order(wakes: Seq<Wake>) -> bool {
    forall|i: int, j: int|
        0 <= i <= j < wakes.len() ==> (#[trigger] wakes[i]).entry.0 <= (#[trigger] wakes[j]).entry.0
}

/// Wakes happen in the order of the deadlines, and never early: however
/// sleeps, ticks and firings of the timer follow each other, each wake
/// happens at or after its deadline, and no wake has an earlier deadline
/// than a wake before it.
pub proof fn lemma_wakes_follow_deadlines(
    entries: Multiset<Entry>,
    now: u32,
    ops: Seq<TimeOp>,
)
    ensures
        none_early(wakes_of(entries, now, ops)),
        in_deadline_order(wakes_of(entries, now, ops)),
{
    lemma_wakes_bounded(entries, now, ops, 0);
}

/// The wakes are in the order of their deadlines, none is early, and none
/// has a deadline before `bound`, a time that no deadline on the heap lies
/// before.
proof fn lemma_wakes_bounded(
    entries: Multiset<Entry>,
    now: u32,
    ops: Seq<TimeOp>,
    bound: u32,
)
    requires
        bound <= now,
        forall|entry: Entry| #[trigger] entries.count(entry) > 0 ==> bound <= entry.0,
    ensures
        forall|i: int|
            0 <= i < wakes_of(entries, now, ops).len() ==> bound <= (#[trigger] wakes_of(
                entries,
                now,
                ops,
            )[i]).entry.0 <= wakes_of(entries, now, ops)[i].at,
        forall|i: int, j: int|
            0 <= i <= j < wakes_of(entries, now, ops).len() ==> (#[trigger] wakes_of(
                entries,
                now,
                ops,
            )[i]).entry.0 <= (#[trigger] wakes_of(entries, now, ops)[j]).entry.0,
    decreases ops.len(),
{
    if ops.len() > 0 {
        let rest = ops.drop_first();
        let all = wakes_of(entries, now, ops);
        match ops[0] {
            TimeOp::Advance(to) => {
                let later: u32 = if to > now {
                    to
                } else {
                    now
                };
                lemma_wakes_bounded(entries, later, rest, bound);
                assert(all == wakes_of(entries, later, rest));
            },
            TimeOp::Fire => {
                lemma_drain_between(entries, now, bound);
                lemma_wakes_bounded(pending_entries(entries, now), now, rest, now);
                lemma_wakes_joined(
                    wake_sequence(entries, now),
                    wakes_of(pending_entries(entries, now), now, rest),
                    now,
                    bound,
                );
                assert(all == wakes_at(wake_sequence(entries, now), now) + wakes_of(
                    pending_entries(entries, now),
                    now,
                    rest,
                ));
            },
            TimeOp::Sleep(task_id, duration) => {
                if now + duration > u32::MAX || entries.len() >= MAX_DEADLINES {
                    lemma_wakes_bounded(entries, now, rest, bound);
                    assert(all == wakes_of(entries, now, rest));
                } else {
                    let entry = ((now + duration) as u32, task_id);
                    let added = entries.insert(entry);
                    if becomes_earliest(entries, entry.0) {
                        lemma_drain_between(added, now, bound);
                        lemma_wakes_bounded(pending_entries(added, now), now, rest, now);
                        lemma_wakes_joined(
                            wake_sequence(added, now),
                            wakes_of(pending_entries(added, now), now, rest),
                            now,
                            bound,
                        );
                        assert(all == wakes_at(wake_sequence(added, now), now) + wakes_of(
                            pending_entries(added, now),
                            now,
                            rest,
                        ));
                    } else {
                        lemma_wakes_bounded(added, now, rest, bound);
                        assert(all =~= wakes_of(added, now, rest));
                    }
                }
            },
        }
    }
}

/// Wakes of one drain at time `now`, followed by wakes whose deadlines are
/// not before `now`, are in order as a whole.
proof fn lemma_wakes_joined(woken: Seq<Entry>, later: Seq<Wake>, now: u32, bound: u32)
    requires
        bound <= now,
        forall|i: int| 0 <= i < woken.len() ==> bound <= (#[trigger] woken[i]).0 <= now,
        forall|i: int, j: int|
            0 <= i <= j < woken.len() ==> (#[trigger] woken[i]).0 <= (#[trigger] woken[j]).0,
        forall|i: int| 0 <= i < later.len() ==> now <= (#[trigger] later[i]).entry.0 <= later[i].at,
        forall|i: int, j: int|
            0 <= i <= j < later.len() ==> (#[trigger] later[i]).entry.0 <= (
            #[trigger] later[j]).entry.0,
    ensures
        forall|i: int|
            0 <= i < (wakes_at(woken, now) + later).len() ==> bound <= (#[trigger] (wakes_at(
                woken,
                now,
            ) + later)[i]).entry.0 <= (wakes_at(woken, now) + later)[i].at,
        forall|i: int, j: int|
            0 <= i <= j < (wakes_at(woken, now) + later).len() ==> (#[trigger] (wakes_at(
                woken,
                now,
            ) + later)[i]).entry.0 <= (#[trigger] (wakes_at(woken, now) + later)[j]).entry.0,
{
    let first = wakes_at(woken, now);
    let all = first + later;
    assert forall|i: int| 0 <= i < all.len() implies bound <= (#[trigger] all[i]).entry.0
        <= all[i].at by {
        if i < first.len() {
            assert(all[i].entry == woken[i]);
        } else {
            assert(all[i] == later[i - first.len()]);
        }
    }
    assert forall|i: int, j: int| 0 <= i <= j < all.len() implies (#[trigger] all[i]).entry.0 <= (
    #[trigger] all[j]).entry.0 by {
        if j < first.len() {
            assert(all[i].entry == woken[i] && all[j].entry == woken[j]);
        } else if i < first.len() {
            assert(all[i].entry == woken[i]);
            assert(all[j] == later[j - first.len()]);
        } else {
            assert(all[i] == later[i - first.len()]);
            assert(all[j] == later[j - first.len()]);
        }
    }
}

} // verus!
