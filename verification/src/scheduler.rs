//! The reminder schedule of one task occurrence, as a state machine.
//!
//! The caller owns the clock and the sleeping: it reads the time, asks
//! [`advance`] what to do in the current phase, emits the notice, carries out
//! the directive and comes back in the next phase.
//!
//! Known limitation: a schedule works on its own copy of the task and cannot
//! be cancelled. Removing the task from the store stops neither the notices
//! of the running occurrence nor the launch of the next one.

use crate::instant::{Timestamp, Wait, NANOS_PER_MINUTE};
use crate::task::{Task, TaskView};
use vstd::prelude::*;

verus! {

/// Minutes before the start at which the first reminder is due.
pub const START_LEAD_MINUTES: i64 = 5;

/// Minutes before the end at which the second reminder is due.
pub const END_LEAD_MINUTES: i64 = 2;

/// Where an occurrence stands in its schedule.
#[derive(Clone, Copy, Debug, PartialEq, Eq)]
pub enum Phase {
    Created,
    AwaitingStartReminder,
    AwaitingEndReminder,
    Completed,
    RecurrenceHandoff,
    Terminal,
}

/// What is told to the user.
#[derive(Clone, Copy, Debug, PartialEq, Eq)]
pub enum Notification {
    /// The task starts in five minutes.
    StartsSoon,
    /// The task ends in two minutes.
    EndsSoon,
    /// The task is complete.
    Complete,
}

/// What the caller does after the notice, before it asks again.
#[derive(Clone, Copy, Debug)]
pub enum Directive {
    /// Sleep for this long.
    Sleep(Wait),
    /// Ask again at once.
    Proceed,
    /// Add the next occurrence to the store and start its own schedule.
    Launch,
    /// Nothing is left to do.
    Stop,
    /// The task recurs, but the calendar ends before its next occurrence:
    /// report it and let the chain end here.
    Abandon,
}

/// A directive as plain values; a sleep is given in nanoseconds.
pub enum Move {
    Sleep(int),
    Proceed,
    Launch,
    Stop,
    Abandon,
}

impl View for Directive {
    type V = Move;

    open spec fn view(&self) -> Move {
        match *self {
            Directive::Sleep(w) => Move::Sleep(w@),
            Directive::Proceed => Move::Proceed,
            Directive::Launch => Move::Launch,
            Directive::Stop => Move::Stop,
            Directive::Abandon => Move::Abandon,
        }
    }
}

/// One step of the schedule.
#[derive(Clone, Copy, Debug)]
pub struct Step {
    /// The phase in which to ask next.
    pub next: Phase,
    /// What to tell the user now, if anything.
    pub notice: Option<Notification>,
    /// What to do after that.
    pub directive: Directive,
}

/// The instant of the first reminder.
pub open spec fn start_reminder(t: TaskView) -> int {
    t.start - START_LEAD_MINUTES * NANOS_PER_MINUTE
}

/// The instant of the second reminder.
pub open spec fn end_reminder(t: TaskView) -> int {
    t.end - END_LEAD_MINUTES * NANOS_PER_MINUTE
}

/// The step towards the second reminder: sleep until it if it is still
/// ahead, else go on to completion without it.
pub open spec fn towards_end(
    t: TaskView,
    now: int,
    notice: Option<Notification>,
) -> (Phase, Option<Notification>, Move) {
    if end_reminder(t) > now {
        (Phase::AwaitingEndReminder, notice, Move::Sleep(end_reminder(t) - now))
    } else {
        (Phase::Completed, notice, Move::Proceed)
    }
}

/// The step that completes an occurrence: a task that recurs hands over to
/// its next occurrence once that one's start is reached.
pub open spec fn complete(t: TaskView, now: int) -> (Phase, Option<Notification>, Move) {
    if t.recurrence().is_none() {
        (Phase::Terminal, Some(Notification::Complete), Move::Stop)
    } else {
        match t.successor() {
            Some(next) => (
                Phase::RecurrenceHandoff,
                Some(Notification::Complete),
                Move::Sleep(
                    if next.start > now {
                        next.start - now
                    } else {
                        0
                    },
                ),
            ),
            None => (Phase::Terminal, Some(Notification::Complete), Move::Abandon),
        }
    }
}

/// What the schedule of `t` asks for in `phase` at the time `now`: the next
/// phase, the notice to emit and the directive to follow.
pub open spec fn step(t: TaskView, phase: Phase, now: int) -> (Phase, Option<Notification>, Move) {
    match phase {
        Phase::Created => if start_reminder(t) > now {
            (Phase::AwaitingStartReminder, None, Move::Sleep(start_reminder(t) - now))
        } else {
            towards_end(t, now, None)
        },
        Phase::AwaitingStartReminder => towards_end(t, now, Some(Notification::StartsSoon)),
        Phase::AwaitingEndReminder => (
            Phase::Completed,
            Some(Notification::EndsSoon),
            Move::Proceed,
        ),
        Phase::Completed => complete(t, now),
        Phase::RecurrenceHandoff => if t.successor().is_some() {
            (Phase::Terminal, None, Move::Launch)
        } else {
            (Phase::Terminal, None, Move::Stop)
        },
        Phase::Terminal => (Phase::Terminal, None, Move::Stop),
    }
}

/// The wait at `now` until `lead_minutes` before `at`, if that instant is
/// still ahead.
fn wait_before(now: &Timestamp, at: &Timestamp, lead_minutes: i64) -> (r: Option<Wait>)
    requires
        0 <= lead_minutes <= 60,
    ensures
        r.is_some() == (at@ - lead_minutes * NANOS_PER_MINUTE > now@),
        r matches Some(w) ==> w@ == at@ - lead_minutes * NANOS_PER_MINUTE - now@,
{
    proof {
        use_type_invariant(now);
        use_type_invariant(at);
    }
    match at.plus_minutes(-lead_minutes) {
        // The reminder would lie before the calendar begins, so it has passed.
        None => None,
        Some(due) => if due.is_after(now) {
            now.until(&due)
        } else {
            None
        },
    }
}

/// The step towards the second reminder, with the notice of the step before.
fn head_for_end(task: &Task, now: &Timestamp, notice: Option<Notification>) -> (r: Step)
    ensures
        (r.next, r.notice, r.directive@) == towards_end(task@, now@, notice),
{
    match wait_before(now, &task.end_time(), END_LEAD_MINUTES) {
        Some(w) => Step { next: Phase::AwaitingEndReminder, notice, directive: Directive::Sleep(w) },
        None => Step { next: Phase::Completed, notice, directive: Directive::Proceed },
    }
}

/// The step that completes the occurrence.
fn finish(task: &Task, now: &Timestamp) -> (r: Step)
    ensures
        (r.next, r.notice, r.directive@) == complete(task@, now@),
{
    let notice = Some(Notification::Complete);
    if !task.is_recurring() || task.frequency_minutes().is_none() {
        return Step { next: Phase::Terminal, notice, directive: Directive::Stop };
    }
    match task.next_occurrence() {
        Some(next) => {
            let w = match now.until(&next.start_time()) {
                Some(w) => w,
                None => Wait::zero(),
            };
            Step { next: Phase::RecurrenceHandoff, notice, directive: Directive::Sleep(w) }
        },
        None => Step { next: Phase::Terminal, notice, directive: Directive::Abandon },
    }
}

/// One step of the schedule of `task`, taken in `phase` at the time `now`.
pub fn advance(task: &Task, phase: Phase, now: &Timestamp) -> (r: Step)
    ensures
        (r.next, r.notice, r.directive@) == step(task@, phase, now@),
{
    match phase {
        Phase::Created => match wait_before(now, &task.start_time(), START_LEAD_MINUTES) {
            Some(w) => Step {
                next: Phase::AwaitingStartReminder,
                notice: None,
                directive: Directive::Sleep(w),
            },
            None => head_for_end(task, now, None),
        },
        Phase::AwaitingStartReminder => head_for_end(task, now, Some(Notification::StartsSoon)),
        Phase::AwaitingEndReminder => Step {
            next: Phase::Completed,
            notice: Some(Notification::EndsSoon),
            directive: Directive::Proceed,
        },
        Phase::Completed => finish(task, now),
        Phase::RecurrenceHandoff => match task.next_occurrence() {
            Some(_) => Step { next: Phase::Terminal, notice: None, directive: Directive::Launch },
            None => Step { next: Phase::Terminal, notice: None, directive: Directive::Stop },
        },
        Phase::Terminal => Step { next: Phase::Terminal, notice: None, directive: Directive::Stop },
    }
}

/// The position of a phase in the schedule.
pub open spec fn rank(p: Phase) -> int {
    match p {
        Phase::Created => 0,
        Phase::AwaitingStartReminder => 1,
        Phase::AwaitingEndReminder => 2,
        Phase::Completed => 3,
        Phase::RecurrenceHandoff => 4,
        Phase::Terminal => 5,
    }
}

/// The phase reached from `phase` when the schedule is asked once at each of
/// `times`, in their order.
pub open spec fn phase_after(t: TaskView, phase: Phase, times: Seq<int>) -> Phase
    decreases times.len(),
{
    if times.len() == 0 {
        phase
    } else {
        phase_after(t, step(t, phase, times[0]).0, times.drop_first())
    }
}

/// Whatever the clock shows, a schedule never goes back, and it has ended
/// once it was asked five times.
pub proof fn lemma_schedule_ends(t: TaskView, phase: Phase, times: Seq<int>)
    ensures
        rank(phase_after(t, phase, times)) >= rank(phase),
        rank(phase) + times.len() >= 5 ==> phase_after(t, phase, times) == Phase::Terminal,
    decreases times.len(),
{
    if times.len() > 0 {
        lemma_schedule_ends(t, step(t, phase, times[0]).0, times.drop_first());
    }
}

/// A schedule only moves forward, and it ends or hands over only out of the
/// completed phase, whose step always announces the completion.
pub proof fn lemma_completion_is_never_skipped(t: TaskView, phase: Phase, now: int)
    ensures
        phase != Phase::Terminal ==> rank(step(t, phase, now).0) > rank(phase),
        rank(phase) < 3 ==> rank(step(t, phase, now).0) <= 3,
        step(t, Phase::Completed, now).1 == Some(Notification::Complete),
        step(t, phase, now).1 == Some(Notification::Complete) ==> phase == Phase::Completed,
{
}

/// No step asks for a sleep of negative length, and a reminder is announced
/// only after a sleep that ended at its instant: one whose instant has
/// passed, or is now, is skipped without a notice.
pub proof fn lemma_passed_reminders_are_skipped(t: TaskView, phase: Phase, now: int)
    ensures
        step(t, phase, now).2 matches Move::Sleep(d) ==> d >= 0,
        start_reminder(t) <= now ==> step(t, Phase::Created, now).0
            != Phase::AwaitingStartReminder,
        end_reminder(t) <= now ==> step(t, phase, now).0 != Phase::AwaitingEndReminder,
        step(t, phase, now).1 == Some(Notification::StartsSoon) ==> phase
            == Phase::AwaitingStartReminder,
        step(t, phase, now).1 == Some(Notification::EndsSoon) ==> phase
            == Phase::AwaitingEndReminder,
{
}

/// A completed task that does not recur ends its schedule: nothing is
/// launched after it.
pub proof fn lemma_non_recurring_task_ends(t: TaskView, now: int)
    requires
        !t.is_recurring,
    ensures
        step(t, Phase::Completed, now) == (
            Phase::Terminal,
            Some(Notification::Complete),
            Move::Stop,
        ),
        forall|p: Phase, at: int| step(t, p, at).2 != Move::Launch,
{
}

} // verus!
