use led_rotate::executor::{get_waker, try_wake_task, Executor, Fatal, Poll, Step};
use led_rotate::deadline::{schedule_wakeup, try_schedule_wakeup, DeadlineQueue, TimerCommand};
use led_rotate::time::{Ticker, Timer};

fn started(num_tasks: usize) -> Executor {
    let mut executor = Executor::new();
    executor.start(num_tasks);
    executor
}

fn idle_executor(num_tasks: usize) -> Executor {
    let mut executor = started(num_tasks);
    while executor.step() != Step::Sleep {}
    executor
}

fn drain(executor: &mut Executor) -> Vec<Step> {
    let mut steps = Vec::new();
    loop {
        let step = executor.step();
        if step == Step::Sleep {
            return steps;
        }
        steps.push(step);
    }
}

#[test]
fn ticker_starts_at_zero_and_counts_ticks() {
    let mut ticker = Ticker::new();
    assert_eq!(ticker.now(), 0);
    ticker.tick();
    assert_eq!(ticker.now(), 1);
    for _ in 0..999 {
        ticker.tick();
    }
    assert_eq!(ticker.now(), 1000);
}

#[test]
fn ticker_never_runs_backwards() {
    let mut ticker = Ticker::from_millis(41);
    let mut before = ticker.now();
    for _ in 0..500 {
        ticker.tick();
        assert!(ticker.now() >= before);
        assert_eq!(ticker.now(), before + 1);
        before = ticker.now();
    }
}

#[test]
fn ticker_wraps_after_the_largest_count() {
    let mut ticker = Ticker::from_millis(u32::MAX);
    ticker.tick();
    assert_eq!(ticker.now(), 0);
}

#[test]
fn reload_value_is_one_less_than_the_ticks_per_millisecond() {
    assert_eq!(Ticker::reload_value(8_000_000), 7_999);
    assert_eq!(Ticker::reload_value(72_000_000), 71_999);
    assert_eq!(Ticker::reload_value(1_000), 0);
    assert_eq!(Ticker::reload_value(1_999), 0);
}

#[test]
fn new_queue_is_empty() {
    let deadlines = DeadlineQueue::new();
    assert_eq!(deadlines.len(), 0);
    assert!(!deadlines.is_full());
    assert_eq!(deadlines.next(), None);
    assert_eq!(deadlines.due_count(u32::MAX), 0);
}

#[test]
fn drain_of_an_empty_heap_disables_the_timer() {
    let mut deadlines = DeadlineQueue::new();
    let mut executor = idle_executor(2);
    assert_eq!(schedule_wakeup(&mut deadlines, &mut executor, 5), TimerCommand::Disable);
    assert_eq!(executor.step(), Step::Sleep);
}

#[test]
fn first_registration_arms_the_timer_for_the_whole_duration() {
    let mut deadlines = DeadlineQueue::new();
    let mut executor = idle_executor(2);
    let ticker = Ticker::from_millis(100);
    let timer = Timer::new(&ticker, 250);
    assert_eq!(timer.deadline(), 350);
    let command = timer.register(1, &mut deadlines, &mut executor, &ticker);
    assert_eq!(command, Some(TimerCommand::Arm(250)));
    assert_eq!(deadlines.len(), 1);
    assert_eq!(deadlines.next(), Some((350, 1)));
    assert_eq!(executor.step(), Step::Sleep);
}

#[test]
fn later_deadline_leaves_the_timer_alone() {
    let mut deadlines = DeadlineQueue::new();
    let mut executor = idle_executor(3);
    let ticker = Ticker::from_millis(10);
    let short = Timer::new(&ticker, 20);
    let long = Timer::new(&ticker, 50);
    assert_eq!(
        short.register(0, &mut deadlines, &mut executor, &ticker),
        Some(TimerCommand::Arm(20))
    );
    assert_eq!(long.register(1, &mut deadlines, &mut executor, &ticker), None);
    assert_eq!(deadlines.len(), 2);
    assert_eq!(deadlines.next(), Some((30, 0)));
}

#[test]
fn equal_deadline_leaves_the_timer_alone() {
    let mut deadlines = DeadlineQueue::new();
    let mut executor = idle_executor(3);
    let ticker = Ticker::from_millis(10);
    let first = Timer::new(&ticker, 20);
    let second = Timer::new(&ticker, 20);
    assert_eq!(
        first.register(2, &mut deadlines, &mut executor, &ticker),
        Some(TimerCommand::Arm(20))
    );
    assert_eq!(second.register(1, &mut deadlines, &mut executor, &ticker), None);
    assert_eq!(deadlines.next(), Some((30, 1)));
}

#[test]
fn earlier_deadline_rearms_the_timer() {
    let mut deadlines = DeadlineQueue::new();
    let mut executor = idle_executor(3);
    let ticker = Ticker::from_millis(10);
    let long = Timer::new(&ticker, 50);
    let short = Timer::new(&ticker, 20);
    assert_eq!(
        long.register(1, &mut deadlines, &mut executor, &ticker),
        Some(TimerCommand::Arm(50))
    );
    assert_eq!(
        short.register(0, &mut deadlines, &mut executor, &ticker),
        Some(TimerCommand::Arm(20))
    );
    assert_eq!(deadlines.next(), Some((30, 0)));
}

#[test]
fn registration_of_a_deadline_that_has_come_wakes_at_once() {
    let mut deadlines = DeadlineQueue::new();
    let mut executor = idle_executor(3);
    let ticker = Ticker::from_millis(10);
    let long = Timer::new(&ticker, 50);
    let none = Timer::new(&ticker, 0);
    assert_eq!(
        long.register(1, &mut deadlines, &mut executor, &ticker),
        Some(TimerCommand::Arm(50))
    );
    assert_eq!(
        none.register(2, &mut deadlines, &mut executor, &ticker),
        Some(TimerCommand::Arm(50))
    );
    assert_eq!(deadlines.len(), 1);
    assert_eq!(drain(&mut executor), vec![Step::Run(2)]);
}

#[test]
fn only_deadline_that_has_come_at_registration_disables_the_timer() {
    let mut deadlines = DeadlineQueue::new();
    let mut executor = idle_executor(3);
    let ticker = Ticker::from_millis(10);
    let none = Timer::new(&ticker, 0);
    assert_eq!(
        none.register(2, &mut deadlines, &mut executor, &ticker),
        Some(TimerCommand::Disable)
    );
    assert_eq!(deadlines.len(), 0);
    assert_eq!(drain(&mut executor), vec![Step::Run(2)]);
}

fn queue_with(entries: &[(u32, usize)]) -> (DeadlineQueue, Executor) {
    let mut deadlines = DeadlineQueue::new();
    let mut executor = idle_executor(8);
    let ticker = Ticker::new();
    for &(deadline, task_id) in entries {
        assert!(deadline > 0);
        let timer = Timer::new(&ticker, deadline);
        timer.register(task_id, &mut deadlines, &mut executor, &ticker);
    }
    assert_eq!(executor.step(), Step::Sleep);
    (deadlines, executor)
}

#[test]
fn due_tasks_are_woken_in_deadline_order() {
    let (mut deadlines, mut executor) = queue_with(&[(30, 3), (10, 1), (40, 4), (20, 2)]);
    assert_eq!(deadlines.due_count(30), 3);
    let command = schedule_wakeup(&mut deadlines, &mut executor, 30);
    assert_eq!(command, TimerCommand::Arm(10));
    assert_eq!(drain(&mut executor), vec![Step::Run(1), Step::Run(2), Step::Run(3)]);
    assert_eq!(deadlines.len(), 1);
    assert_eq!(deadlines.next(), Some((40, 4)));
}

#[test]
fn no_task_is_woken_before_its_deadline() {
    let (mut deadlines, mut executor) = queue_with(&[(30, 3), (10, 1)]);
    assert_eq!(deadlines.due_count(9), 0);
    assert_eq!(schedule_wakeup(&mut deadlines, &mut executor, 9), TimerCommand::Arm(1));
    assert_eq!(drain(&mut executor), vec![]);
    assert_eq!(deadlines.len(), 2);
    assert_eq!(schedule_wakeup(&mut deadlines, &mut executor, 10), TimerCommand::Arm(20));
    assert_eq!(drain(&mut executor), vec![Step::Run(1)]);
    assert_eq!(schedule_wakeup(&mut deadlines, &mut executor, 29), TimerCommand::Arm(1));
    assert_eq!(drain(&mut executor), vec![]);
    assert_eq!(schedule_wakeup(&mut deadlines, &mut executor, 31), TimerCommand::Disable);
    assert_eq!(drain(&mut executor), vec![Step::Run(3)]);
    assert_eq!(deadlines.len(), 0);
}

#[test]
fn late_drain_wakes_all_that_is_overdue() {
    let (mut deadlines, mut executor) = queue_with(&[(30, 3), (10, 1), (20, 2)]);
    assert_eq!(schedule_wakeup(&mut deadlines, &mut executor, 1_000), TimerCommand::Disable);
    assert_eq!(drain(&mut executor), vec![Step::Run(1), Step::Run(2), Step::Run(3)]);
}

#[test]
fn equal_deadlines_are_woken_by_ascending_task_id() {
    let (mut deadlines, mut executor) = queue_with(&[(10, 5), (10, 2), (10, 7), (10, 2)]);
    assert_eq!(deadlines.next(), Some((10, 2)));
    assert_eq!(schedule_wakeup(&mut deadlines, &mut executor, 10), TimerCommand::Disable);
    assert_eq!(
        drain(&mut executor),
        vec![Step::Run(2), Step::Run(2), Step::Run(5), Step::Run(7)]
    );
}

#[test]
fn woken_tasks_queue_behind_those_already_ready() {
    let (mut deadlines, mut executor) = queue_with(&[(10, 1), (20, 2)]);
    assert_eq!(try_wake_task(&mut executor, 6), Ok(()));
    assert_eq!(schedule_wakeup(&mut deadlines, &mut executor, 20), TimerCommand::Disable);
    assert_eq!(drain(&mut executor), vec![Step::Run(6), Step::Run(1), Step::Run(2)]);
}

#[test]
fn ninth_deadline_is_fatal_and_drops_nothing() {
    let mut deadlines = DeadlineQueue::new();
    let mut executor = idle_executor(8);
    let ticker = Ticker::new();
    for task_id in 0..8 {
        let timer = Timer::new(&ticker, 100 + task_id as u32);
        assert!(timer.try_register(task_id, &mut deadlines, &mut executor, &ticker).is_ok());
    }
    assert!(deadlines.is_full());
    assert_eq!(deadlines.len(), 8);
    let ninth = Timer::new(&ticker, 50);
    assert_eq!(
        ninth.try_register(0, &mut deadlines, &mut executor, &ticker),
        Err(Fatal::DeadlineDropped)
    );
    assert_eq!(deadlines.len(), 8);
    assert_eq!(deadlines.next(), Some((100, 0)));
    assert_eq!(executor.step(), Step::Sleep);
}

#[test]
fn ninth_deadline_is_fatal_on_the_first_poll_too() {
    let mut deadlines = DeadlineQueue::new();
    let mut executor = idle_executor(8);
    let ticker = Ticker::new();
    for task_id in 0..8 {
        let mut timer = Timer::new(&ticker, 100);
        let polled = timer.try_poll(&get_waker(task_id), &mut deadlines, &mut executor, &ticker);
        assert!(polled.is_ok());
    }
    let mut ninth = Timer::new(&ticker, 100);
    assert_eq!(
        ninth.try_poll(&get_waker(0), &mut deadlines, &mut executor, &ticker),
        Err(Fatal::DeadlineDropped)
    );
    assert!(!ninth.is_waiting());
    assert_eq!(deadlines.len(), 8);
}

#[test]
fn heap_takes_deadlines_again_after_a_drain() {
    let (mut deadlines, mut executor) =
        queue_with(&[(1, 0), (2, 1), (3, 2), (4, 3), (5, 4), (6, 5), (7, 6), (8, 7)]);
    assert!(deadlines.is_full());
    assert_eq!(schedule_wakeup(&mut deadlines, &mut executor, 2), TimerCommand::Arm(1));
    assert_eq!(deadlines.len(), 6);
    assert!(!deadlines.is_full());
}

#[test]
fn drain_that_overflows_the_ready_queue_is_fatal_and_changes_nothing() {
    let (mut deadlines, mut executor) = queue_with(&[(10, 1), (20, 2), (30, 3), (40, 4), (50, 5)]);
    assert_eq!(
        try_schedule_wakeup(&mut deadlines, &mut executor, 50),
        Err(Fatal::TaskQueueFull)
    );
    assert_eq!(deadlines.len(), 5);
    assert_eq!(executor.free_slots(), 4);
    assert_eq!(
        try_schedule_wakeup(&mut deadlines, &mut executor, 40),
        Ok(TimerCommand::Arm(10))
    );
    assert_eq!(
        drain(&mut executor),
        vec![Step::Run(1), Step::Run(2), Step::Run(3), Step::Run(4)]
    );
    assert_eq!(deadlines.next(), Some((50, 5)));
}

#[test]
fn drain_counts_the_ids_already_queued_against_the_room() {
    let (mut deadlines, mut executor) = queue_with(&[(10, 1), (20, 2)]);
    for id in 0..3 {
        assert_eq!(try_wake_task(&mut executor, id), Ok(()));
    }
    assert_eq!(
        try_schedule_wakeup(&mut deadlines, &mut executor, 20),
        Err(Fatal::TaskQueueFull)
    );
    assert_eq!(
        try_schedule_wakeup(&mut deadlines, &mut executor, 10),
        Ok(TimerCommand::Arm(10))
    );
    assert!(executor.is_full());
}

#[test]
fn registration_that_overflows_the_ready_queue_is_fatal_and_changes_nothing() {
    let mut deadlines = DeadlineQueue::new();
    let mut executor = started(4);
    let ticker = Ticker::from_millis(10);
    assert!(executor.is_full());
    let none = Timer::new(&ticker, 0);
    assert_eq!(
        none.try_register(0, &mut deadlines, &mut executor, &ticker),
        Err(Fatal::TaskQueueFull)
    );
    assert_eq!(deadlines.len(), 0);
    let some = Timer::new(&ticker, 1);
    assert_eq!(
        some.try_register(0, &mut deadlines, &mut executor, &ticker),
        Ok(Some(TimerCommand::Arm(1)))
    );
    assert_eq!(deadlines.len(), 1);
}

#[test]
fn sleep_registers_on_the_first_poll_and_ends_after_the_deadline() {
    let mut deadlines = DeadlineQueue::new();
    let mut executor = idle_executor(2);
    let mut ticker = Ticker::from_millis(5);
    let waker = get_waker(1);
    let mut timer = Timer::new(&ticker, 3);
    assert!(!timer.is_waiting());
    assert_eq!(
        timer.poll(&waker, &mut deadlines, &mut executor, &ticker),
        (Poll::Pending, Some(TimerCommand::Arm(3)))
    );
    assert!(timer.is_waiting());
    assert_eq!(deadlines.next(), Some((8, 1)));

    // A wake that comes early does not end the sleep.
    assert_eq!(timer.poll(&waker, &mut deadlines, &mut executor, &ticker), (Poll::Pending, None));
    assert_eq!(deadlines.len(), 1);

    for _ in 0..3 {
        ticker.tick();
    }
    assert_eq!(ticker.now(), 8);
    assert_eq!(schedule_wakeup(&mut deadlines, &mut executor, ticker.now()), TimerCommand::Disable);
    assert_eq!(executor.step(), Step::Run(1));

    // At the deadline itself the sleep still goes on; one tick later it is over.
    assert_eq!(timer.poll(&waker, &mut deadlines, &mut executor, &ticker), (Poll::Pending, None));
    ticker.tick();
    assert_eq!(timer.poll(&waker, &mut deadlines, &mut executor, &ticker), (Poll::Ready, None));
    assert_eq!(timer.try_poll(&waker, &mut deadlines, &mut executor, &ticker), Ok((Poll::Ready, None)));
    assert_eq!(deadlines.len(), 0);
    assert_eq!(executor.step(), Step::Sleep);
}

#[test]
fn sleep_polled_with_an_unknown_waker_is_fatal() {
    let mut deadlines = DeadlineQueue::new();
    let mut executor = idle_executor(2);
    let ticker = Ticker::new();
    let mut timer = Timer::new(&ticker, 3);
    assert_eq!(
        timer.try_poll(&get_waker(2), &mut deadlines, &mut executor, &ticker),
        Err(Fatal::UnknownWaker)
    );
    assert!(!timer.is_waiting());
    assert_eq!(deadlines.len(), 0);
    assert_eq!(
        timer.try_poll(&get_waker(1), &mut deadlines, &mut executor, &ticker),
        Ok((Poll::Pending, Some(TimerCommand::Arm(3))))
    );
    assert_eq!(
        timer.try_poll(&get_waker(2), &mut deadlines, &mut executor, &ticker),
        Err(Fatal::UnknownWaker)
    );
    assert!(timer.is_waiting());
}

#[test]
fn two_sleeping_tasks_wake_in_the_order_of_their_deadlines() {
    let mut deadlines = DeadlineQueue::new();
    let mut executor = idle_executor(2);
    let mut ticker = Ticker::new();
    let mut slow = Timer::new(&ticker, 7);
    let mut fast = Timer::new(&ticker, 2);
    assert_eq!(
        slow.poll(&get_waker(0), &mut deadlines, &mut executor, &ticker),
        (Poll::Pending, Some(TimerCommand::Arm(7)))
    );
    assert_eq!(
        fast.poll(&get_waker(1), &mut deadlines, &mut executor, &ticker),
        (Poll::Pending, Some(TimerCommand::Arm(2)))
    );
    let mut woken = Vec::new();
    for _ in 0..10 {
        ticker.tick();
        schedule_wakeup(&mut deadlines, &mut executor, ticker.now());
        for step in drain(&mut executor) {
            woken.push((ticker.now(), step));
        }
    }
    assert_eq!(woken, vec![(2, Step::Run(1)), (7, Step::Run(0))]);
}
