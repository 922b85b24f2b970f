use vetkd_notes::one_time::{NotesVault, ONE_TIME_KEY_EXPIRATION};
use vetkd_notes::task::{
    execute_task, global_timer, reschedule, schedule_task, Task, TaskAction, TaskTimer,
    TaskTimerEntry,
};
use vetkd_notes::timestamp::NANOS_PER_SEC;
use vetkd_notes::users::ANONYMOUS_USER_DATA_EXPIRATION;

const NOW: u64 = 1_000 * NANOS_PER_SEC;

fn email() -> Task {
    Task::SendEmail { email: "a@b.c".to_string(), subject: "s".to_string(), body: "b".to_string() }
}

#[test]
fn schedule_now_then_drain_runs_once() {
    let mut vault = NotesVault::new(60);
    let mut timer = TaskTimer::new();
    let wake = schedule_task(&mut timer, NOW, 0, email());
    assert_eq!(wake, Some(NOW));
    let outcome = global_timer(&mut vault, &mut timer, NOW);
    assert_eq!(outcome.actions, vec![TaskAction::Send(email())]);
    assert_eq!(outcome.wake_at, None);
    assert!(timer.get_timers().is_empty());
}

#[test]
fn drain_rearms_at_next_earliest() {
    let mut vault = NotesVault::new(60);
    let mut timer = TaskTimer::new();
    schedule_task(&mut timer, NOW, 30, Task::SendText { phone_number: "1".to_string(), body: "x".to_string() });
    schedule_task(&mut timer, NOW, 10, email());
    schedule_task(&mut timer, NOW, 0, email());
    let outcome = global_timer(&mut vault, &mut timer, NOW);
    assert_eq!(outcome.actions.len(), 1);
    assert_eq!(outcome.wake_at, Some(NOW + 10 * NANOS_PER_SEC));
    assert_eq!(timer.get_timers().len(), 2);
}

#[test]
fn drain_runs_everything_due_in_order() {
    let mut timer = TaskTimer::new();
    schedule_task(&mut timer, NOW, 5, Task::SendText { phone_number: "2".to_string(), body: "late".to_string() });
    schedule_task(&mut timer, NOW, 1, Task::SendText { phone_number: "1".to_string(), body: "early".to_string() });
    schedule_task(&mut timer, NOW, 100, email());
    let due = timer.drain(NOW + 50 * NANOS_PER_SEC);
    assert_eq!(due.len(), 2);
    assert_eq!(due[0].time, NOW + NANOS_PER_SEC);
    assert_eq!(due[1].time, NOW + 5 * NANOS_PER_SEC);
    assert_eq!(reschedule(&timer), Some(NOW + 100 * NANOS_PER_SEC));
}

#[test]
fn drain_before_due_runs_nothing() {
    let mut timer = TaskTimer::new();
    schedule_task(&mut timer, NOW, 5, email());
    let due = timer.drain(NOW);
    assert!(due.is_empty());
    assert_eq!(timer.next_wakeup(), Some(NOW + 5 * NANOS_PER_SEC));
}

#[test]
fn equal_times_keep_insertion_order() {
    let mut timer = TaskTimer::new();
    timer.push_timer(TaskTimerEntry { task: Task::CleanUpKeys, time: 5 });
    timer.push_timer(TaskTimerEntry { task: Task::CleanUpAnonymousUsers, time: 5 });
    timer.push_timer(TaskTimerEntry { task: Task::Initialize, time: 1 });
    let first = timer.pop_timer().unwrap();
    assert_eq!(first.task, Task::Initialize);
    assert_eq!(timer.peek_timer().unwrap().task, Task::CleanUpKeys);
    timer.pop_timer();
    assert_eq!(timer.pop_timer().unwrap().task, Task::CleanUpAnonymousUsers);
    assert!(timer.pop_timer().is_none());
}

#[test]
fn initialize_schedules_both_cleanups() {
    let mut vault = NotesVault::new(60);
    let mut timer = TaskTimer::new();
    let action = execute_task(&mut vault, &mut timer, Task::Initialize, NOW);
    assert_eq!(action, TaskAction::FetchKeys);
    let timers = timer.get_timers();
    assert_eq!(timers.len(), 2);
    assert!(timers.iter().any(|t| t.task == Task::CleanUpKeys
        && t.time == NOW + ONE_TIME_KEY_EXPIRATION * NANOS_PER_SEC));
    assert!(timers.iter().any(|t| t.task == Task::CleanUpAnonymousUsers
        && t.time == NOW + ANONYMOUS_USER_DATA_EXPIRATION * NANOS_PER_SEC));
}

#[test]
fn cleanup_reschedules_itself() {
    let mut vault = NotesVault::new(60);
    let mut timer = TaskTimer::new();
    schedule_task(&mut timer, NOW, 0, Task::CleanUpKeys);
    let outcome = global_timer(&mut vault, &mut timer, NOW);
    assert_eq!(outcome.actions, vec![TaskAction::Done]);
    assert_eq!(timer.get_timers().len(), 1);
    assert_eq!(timer.get_timers()[0].task, Task::CleanUpKeys);
    assert_eq!(outcome.wake_at, Some(NOW + ONE_TIME_KEY_EXPIRATION * NANOS_PER_SEC));
}
