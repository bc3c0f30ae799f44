use task_reminder::instant::{Timestamp, MAX_SECS};
use task_reminder::scheduler::{advance, Directive, Notification, Phase};
use task_reminder::store::AppState;
use task_reminder::task::Task;

const NOW: i64 = 1_800_000_000;
const MINUTE: i64 = 60;

fn secs(s: i64) -> Timestamp {
    Timestamp::new(s, 0).expect("instant on the calendar")
}

fn task(start: i64, end: i64, frequency: Option<i64>) -> Task {
    Task::new("Call".to_string(), "the bank".to_string(), secs(start), secs(end), frequency.is_some(), frequency)
        .expect("ends after it starts")
}

fn slept(d: Directive) -> (u64, u32) {
    match d {
        Directive::Sleep(w) => (w.secs(), w.subsec_nanos()),
        other => panic!("no sleep: {:?}", other),
    }
}

#[test]
fn plain_task_runs_through_both_reminders() {
    let t = task(NOW + 10 * MINUTE, NOW + 20 * MINUTE, None);
    let mut store = AppState::new();
    store.add_task(t.clone());

    let s = advance(&t, Phase::Created, &secs(NOW));
    assert_eq!(s.next, Phase::AwaitingStartReminder);
    assert_eq!(s.notice, None);
    assert_eq!(slept(s.directive), (5 * 60, 0));

    let s = advance(&t, s.next, &secs(NOW + 5 * MINUTE));
    assert_eq!(s.next, Phase::AwaitingEndReminder);
    assert_eq!(s.notice, Some(Notification::StartsSoon));
    assert_eq!(slept(s.directive), (13 * 60, 0));

    let s = advance(&t, s.next, &secs(NOW + 18 * MINUTE));
    assert_eq!(s.next, Phase::Completed);
    assert_eq!(s.notice, Some(Notification::EndsSoon));
    assert!(matches!(s.directive, Directive::Proceed));

    let s = advance(&t, s.next, &secs(NOW + 18 * MINUTE));
    assert_eq!(s.next, Phase::Terminal);
    assert_eq!(s.notice, Some(Notification::Complete));
    assert!(matches!(s.directive, Directive::Stop));

    assert!(store.add_successor(&t).is_none());
    assert_eq!(store.list_tasks().len(), 1);
}

#[test]
fn late_wake_up_shortens_the_second_sleep() {
    let t = task(NOW + 10 * MINUTE, NOW + 20 * MINUTE, None);
    let woke = Timestamp::new(NOW + 5 * MINUTE + 2, 500_000_000).expect("instant");
    let s = advance(&t, Phase::AwaitingStartReminder, &woke);
    assert_eq!(s.next, Phase::AwaitingEndReminder);
    assert_eq!(slept(s.directive), (13 * 60 - 3, 500_000_000));
}

#[test]
fn passed_start_reminder_is_skipped_without_a_notice() {
    let t = task(NOW + 4 * MINUTE, NOW + 20 * MINUTE, None);
    let s = advance(&t, Phase::Created, &secs(NOW));
    assert_eq!(s.next, Phase::AwaitingEndReminder);
    assert_eq!(s.notice, None);
    assert_eq!(slept(s.directive), (18 * 60, 0));
}

#[test]
fn start_reminder_due_exactly_now_is_skipped() {
    let t = task(NOW + 5 * MINUTE, NOW + 20 * MINUTE, None);
    let s = advance(&t, Phase::Created, &secs(NOW));
    assert_eq!(s.next, Phase::AwaitingEndReminder);
    assert_eq!(s.notice, None);
    let t = task(NOW + 5 * MINUTE + 1, NOW + 20 * MINUTE, None);
    let s = advance(&t, Phase::Created, &secs(NOW));
    assert_eq!(s.next, Phase::AwaitingStartReminder);
    assert_eq!(slept(s.directive), (1, 0));
}

#[test]
fn both_reminders_passed_goes_straight_to_completion() {
    let t = task(NOW - 30 * MINUTE, NOW + 2 * MINUTE, None);
    let s = advance(&t, Phase::Created, &secs(NOW));
    assert_eq!(s.next, Phase::Completed);
    assert_eq!(s.notice, None);
    assert!(matches!(s.directive, Directive::Proceed));
    let s = advance(&t, s.next, &secs(NOW));
    assert_eq!(s.notice, Some(Notification::Complete));
    assert_eq!(s.next, Phase::Terminal);
}

#[test]
fn end_reminder_passed_after_the_first_one() {
    let t = task(NOW + 10 * MINUTE, NOW + 11 * MINUTE, None);
    let s = advance(&t, Phase::AwaitingStartReminder, &secs(NOW + 9 * MINUTE));
    assert_eq!(s.next, Phase::Completed);
    assert_eq!(s.notice, Some(Notification::StartsSoon));
    assert!(matches!(s.directive, Directive::Proceed));
}

#[test]
fn recurring_task_hands_over_at_the_next_start() {
    let t = task(NOW + MINUTE, NOW + 3 * MINUTE, Some(60));
    let mut store = AppState::new();
    let first = store.add_task(t.clone());

    let s = advance(&t, Phase::Created, &secs(NOW));
    assert_eq!(s.next, Phase::AwaitingEndReminder);
    assert_eq!(slept(s.directive), (60, 0));
    let s = advance(&t, s.next, &secs(NOW + MINUTE));
    assert_eq!(s.notice, Some(Notification::EndsSoon));
    let s = advance(&t, s.next, &secs(NOW + MINUTE));
    assert_eq!(s.next, Phase::RecurrenceHandoff);
    assert_eq!(s.notice, Some(Notification::Complete));
    assert_eq!(slept(s.directive), (60 * 60, 0));
    let s = advance(&t, s.next, &secs(NOW + 61 * MINUTE));
    assert_eq!(s.next, Phase::Terminal);
    assert_eq!(s.notice, None);
    assert!(matches!(s.directive, Directive::Launch));

    let second = store.add_successor(&t).expect("recurs");
    let listed = store.list_tasks();
    assert_eq!(listed.len(), 2);
    assert_eq!(listed[0].id(), first);
    assert_eq!(listed[1].id(), second);
    assert_eq!(listed[1].start_time().secs(), NOW + 61 * MINUTE);
}

#[test]
fn handover_does_not_wait_for_a_start_that_has_passed() {
    let t = task(NOW - 600 * MINUTE, NOW - 599 * MINUTE, Some(1));
    let s = advance(&t, Phase::Completed, &secs(NOW));
    assert_eq!(s.next, Phase::RecurrenceHandoff);
    assert_eq!(slept(s.directive), (0, 0));
    let exactly = task(NOW - MINUTE, NOW, Some(1));
    let s = advance(&exactly, Phase::Completed, &secs(NOW));
    assert_eq!(slept(s.directive), (0, 0));
}

#[test]
fn chain_is_abandoned_where_the_calendar_ends() {
    let t = task(MAX_SECS - 200, MAX_SECS - 100, Some(5));
    let s = advance(&t, Phase::Completed, &secs(NOW));
    assert_eq!(s.next, Phase::Terminal);
    assert_eq!(s.notice, Some(Notification::Complete));
    assert!(matches!(s.directive, Directive::Abandon));
    let s = advance(&t, Phase::RecurrenceHandoff, &secs(NOW));
    assert!(matches!(s.directive, Directive::Stop));
}

#[test]
fn recurring_task_without_a_frequency_just_stops() {
    let t = Task::new("a".to_string(), "b".to_string(), secs(NOW), secs(NOW + 1), true, None).expect("valid");
    let s = advance(&t, Phase::Completed, &secs(NOW));
    assert_eq!(s.next, Phase::Terminal);
    assert!(matches!(s.directive, Directive::Stop));
}

#[test]
fn terminal_phase_stays_terminal() {
    let t = task(NOW + MINUTE, NOW + 3 * MINUTE, Some(60));
    let s = advance(&t, Phase::Terminal, &secs(NOW));
    assert_eq!(s.next, Phase::Terminal);
    assert_eq!(s.notice, None);
    assert!(matches!(s.directive, Directive::Stop));
}
