use led_rotate::button::{button_wait, try_button_wait, Button, INVALID_TASK_ID};
use led_rotate::executor::{get_waker, try_wake_task, Executor, Fatal, Poll, Step};

fn started(num_tasks: usize) -> Executor {
    let mut executor = Executor::new();
    executor.start(num_tasks);
    executor
}

fn idle_executor(num_tasks: usize) -> Executor {
    let mut executor = started(num_tasks);
    while executor.step() != Step::Sleep {}
    executor
}

#[test]
fn new_button_has_no_press() {
    let button = Button::new();
    assert!(!button.is_pressed());
}

#[test]
fn edge_sets_the_flag() {
    let mut button = Button::new();
    let mut executor = idle_executor(2);
    assert!(button.on_edge(&mut executor));
    assert!(button.is_pressed());
}

#[test]
fn edge_with_nobody_waiting_wakes_nobody() {
    let mut button = Button::new();
    let mut executor = idle_executor(2);
    assert!(button.on_edge(&mut executor));
    assert_eq!(executor.step(), Step::Sleep);
}

#[test]
fn second_edge_before_the_press_is_taken_is_dropped() {
    let mut button = Button::new();
    let mut executor = idle_executor(2);
    let waker = get_waker(1);
    assert_eq!(button_wait(&mut button, &waker, &executor), Poll::Pending);
    assert!(button.on_edge(&mut executor));
    assert!(!button.on_edge(&mut executor));
    assert!(!button.on_edge(&mut executor));
    assert!(button.is_pressed());
    // One press, one wake.
    assert_eq!(executor.step(), Step::Run(1));
    assert_eq!(executor.step(), Step::Sleep);
    // One press to take.
    assert_eq!(button_wait(&mut button, &waker, &executor), Poll::Ready);
    assert_eq!(button_wait(&mut button, &waker, &executor), Poll::Pending);
}

#[test]
fn press_release_and_bounce_before_the_task_runs_is_one_press() {
    let mut button = Button::new();
    let mut executor = idle_executor(1);
    let waker = get_waker(0);
    assert_eq!(button_wait(&mut button, &waker, &executor), Poll::Pending);
    let counted: Vec<bool> = (0..3).map(|_| button.on_edge(&mut executor)).collect();
    assert_eq!(counted, vec![true, false, false]);
    let mut presses = 0;
    while executor.step() == Step::Run(0) {
        if button_wait(&mut button, &waker, &executor) == Poll::Ready {
            presses += 1;
        }
    }
    assert_eq!(presses, 1);
    assert!(!button.is_pressed());
}

#[test]
fn edge_after_the_press_is_taken_counts_again() {
    let mut button = Button::new();
    let mut executor = idle_executor(1);
    let waker = get_waker(0);
    assert!(button.on_edge(&mut executor));
    assert_eq!(button_wait(&mut button, &waker, &executor), Poll::Ready);
    assert!(!button.is_pressed());
    assert!(button.on_edge(&mut executor));
    assert!(button.is_pressed());
    assert_eq!(button_wait(&mut button, &waker, &executor), Poll::Ready);
}

#[test]
fn wait_without_a_press_notes_the_task_to_wake() {
    let mut button = Button::new();
    let mut executor = idle_executor(3);
    assert_eq!(button_wait(&mut button, &get_waker(2), &executor), Poll::Pending);
    assert!(button.on_edge(&mut executor));
    assert_eq!(executor.step(), Step::Run(2));
    assert_eq!(executor.step(), Step::Sleep);
}

#[test]
fn last_task_to_wait_is_the_one_woken() {
    let mut button = Button::new();
    let mut executor = idle_executor(3);
    assert_eq!(button_wait(&mut button, &get_waker(2), &executor), Poll::Pending);
    assert_eq!(button_wait(&mut button, &get_waker(0), &executor), Poll::Pending);
    assert!(button.on_edge(&mut executor));
    assert_eq!(executor.step(), Step::Run(0));
    assert_eq!(executor.step(), Step::Sleep);
}

#[test]
fn taking_a_press_keeps_the_task_to_wake() {
    let mut button = Button::new();
    let mut executor = idle_executor(3);
    assert_eq!(button_wait(&mut button, &get_waker(1), &executor), Poll::Pending);
    assert!(button.on_edge(&mut executor));
    assert_eq!(executor.step(), Step::Run(1));
    // Taken with a waker that names no task: the waker is not looked at.
    assert_eq!(button_wait(&mut button, &get_waker(9), &executor), Poll::Ready);
    assert!(button.on_edge(&mut executor));
    assert_eq!(executor.step(), Step::Run(1));
}

#[test]
fn wait_with_an_unknown_waker_is_fatal_unless_a_press_is_latched() {
    let mut button = Button::new();
    let mut executor = idle_executor(2);
    let stranger = get_waker(2);
    assert_eq!(try_button_wait(&mut button, &stranger, &executor), Err(Fatal::UnknownWaker));
    assert!(button.on_edge(&mut executor));
    assert_eq!(executor.step(), Step::Sleep);
    assert_eq!(try_button_wait(&mut button, &stranger, &executor), Ok(Poll::Ready));
    assert_eq!(try_button_wait(&mut button, &get_waker(1), &executor), Ok(Poll::Pending));
}

#[test]
fn edge_that_cannot_wake_the_waiter_is_fatal_and_changes_nothing() {
    let mut button = Button::new();
    let mut executor = idle_executor(2);
    assert_eq!(button_wait(&mut button, &get_waker(1), &executor), Poll::Pending);
    for id in 0..4 {
        assert_eq!(try_wake_task(&mut executor, id), Ok(()));
    }
    assert_eq!(button.try_on_edge(&mut executor), Err(Fatal::TaskQueueFull));
    assert!(!button.is_pressed());
    assert_eq!(executor.step(), Step::Run(0));
    assert_eq!(button.try_on_edge(&mut executor), Ok(true));
    assert!(button.is_pressed());
    // A dropped edge needs no room.
    assert!(executor.is_full());
    assert_eq!(button.try_on_edge(&mut executor), Ok(false));
}

#[test]
fn edge_with_nobody_waiting_needs_no_room() {
    let mut button = Button::new();
    let mut executor = started(4);
    assert!(executor.is_full());
    assert_eq!(button.try_on_edge(&mut executor), Ok(true));
    assert!(button.is_pressed());
}

#[test]
fn invalid_task_id_is_the_largest_32_bit_number() {
    assert_eq!(INVALID_TASK_ID, 0xFFFF_FFFF);
}
