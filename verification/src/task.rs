//! Tasks: the unit of schedulable work, how one is created, and how a
//! completed recurring task gives rise to its next occurrence.

use crate::instant::{representable, shifted, Timestamp};
use vstd::prelude::*;

verus! {

/// What a task is, as plain mathematical values. Instants are nanoseconds
/// since the epoch.
pub struct TaskView {
    pub id: u32,
    pub title: Seq<char>,
    pub details: Seq<char>,
    pub start: int,
    pub end: int,
    pub is_recurring: bool,
    pub frequency_minutes: Option<i64>,
}

impl TaskView {
    /// A task ends strictly after it starts, and both instants are on the calendar.
    pub open spec fn wf(self) -> bool {
        &&& self.end > self.start
        &&& representable(self.start)
        &&& representable(self.end)
    }

    /// The same task under another identifier.
    pub open spec fn with_id(self, id: u32) -> TaskView {
        TaskView { id, ..self }
    }

    /// The number of minutes after which the task recurs, if it recurs at all.
    pub open spec fn recurrence(self) -> Option<int> {
        if self.is_recurring && self.frequency_minutes.is_some() {
            Some(self.frequency_minutes.unwrap() as int)
        } else {
            None
        }
    }

    /// The next occurrence of a completed task: both instants moved on by the
    /// frequency, no identifier yet, all else kept. There is none if the task
    /// does not recur, or if the calendar ends before the moved instants.
    pub open spec fn successor(self) -> Option<TaskView> {
        match self.recurrence() {
            Some(f) => match (shifted(self.start, f), shifted(self.end, f)) {
                (Some(start), Some(end)) => Some(
                    TaskView {
                        id: 0,
                        start,
                        end,
                        is_recurring: true,
                        ..self
                    },
                ),
                _ => None,
            },
            None => None,
        }
    }
}

/// Why a task was not created.
#[derive(Clone, Copy, Debug, PartialEq, Eq)]
pub enum TaskError {
    /// The start is not strictly later than the current time.
    StartNotInFuture,
    /// The end is not strictly later than the start.
    EndNotAfterStart,
}

/// A task with its reminder times. The identifier is 0 until a store assigns one.
#[derive(Debug)]
pub struct Task {
    id: u32,
    title: String,
    details: String,
    start_time: Timestamp,
    end_time: Timestamp,
    is_recurring: bool,
    frequency_minutes: Option<i64>,
}

impl View for Task {
    type V = TaskView;

    closed spec fn view(&self) -> TaskView {
        TaskView {
            id: self.id,
            title: self.title@,
            details: self.details@,
            start: self.start_time@,
            end: self.end_time@,
            is_recurring: self.is_recurring,
            frequency_minutes: self.frequency_minutes,
        }
    }
}

impl Clone for Task {
    fn clone(&self) -> (r: Self)
        ensures
            r == *self,
            r@ == self@,
    {
        proof {
            use_type_invariant(self);
        }
        Task {
            id: self.id,
            title: self.title.clone(),
            details: self.details.clone(),
            start_time: self.start_time,
            end_time: self.end_time,
            is_recurring: self.is_recurring,
            frequency_minutes: self.frequency_minutes,
        }
    }
}

impl Task {
    #[verifier::type_invariant]
    pub(crate) open spec fn inv(self) -> bool {
        self@.wf()
    }

    /// A task without an identifier, if it ends strictly after it starts.
    pub fn new(
        title: String,
        details: String,
        start_time: Timestamp,
        end_time: Timestamp,
        is_recurring: bool,
        frequency_minutes: Option<i64>,
    ) -> (r: Result<Task, TaskError>)
        ensures
            r.is_ok() <==> end_time@ > start_time@,
            r matches Err(e) ==> e == TaskError::EndNotAfterStart,
            r matches Ok(t) ==> t@ == (TaskView {
                id: 0,
                title: title@,
                details: details@,
                start: start_time@,
                end: end_time@,
                is_recurring,
                frequency_minutes,
            }) && t@.wf(),
    {
        proof {
            use_type_invariant(&start_time);
            use_type_invariant(&end_time);
        }
        if end_time.is_after(&start_time) {
            Ok(Task { id: 0, title, details, start_time, end_time, is_recurring, frequency_minutes })
        } else {
            Err(TaskError::EndNotAfterStart)
        }
    }

    /// A task submitted at the time `now`: it must start strictly after `now`
    /// and end strictly after its start. The start is judged first.
    pub fn new_upcoming(
        now: &Timestamp,
        title: String,
        details: String,
        start_time: Timestamp,
        end_time: Timestamp,
        is_recurring: bool,
        frequency_minutes: Option<i64>,
    ) -> (r: Result<Task, TaskError>)
        ensures
            r.is_ok() <==> start_time@ > now@ && end_time@ > start_time@,
            r == Err::<Task, TaskError>(TaskError::StartNotInFuture) <==> start_time@ <= now@,
            r == Err::<Task, TaskError>(TaskError::EndNotAfterStart) <==> start_time@ > now@
                && end_time@ <= start_time@,
            r matches Ok(t) ==> t@ == (TaskView {
                id: 0,
                title: title@,
                details: details@,
                start: start_time@,
                end: end_time@,
                is_recurring,
                frequency_minutes,
            }) && t@.wf(),
    {
        if !start_time.is_after(now) {
            return Err(TaskError::StartNotInFuture);
        }
        Task::new(title, details, start_time, end_time, is_recurring, frequency_minutes)
    }

    /// The identifier: 0 until a store has assigned one.
    pub fn id(&self) -> (r: u32)
        ensures
            r == self@.id,
    {
        self.id
    }

    /// The title, as it was given.
    pub fn title(&self) -> (r: &String)
        ensures
            r@ == self@.title,
    {
        &self.title
    }

    /// The details, as they were given.
    pub fn details(&self) -> (r: &String)
        ensures
            r@ == self@.details,
    {
        &self.details
    }

    /// The instant at which the occurrence starts.
    pub fn start_time(&self) -> (r: Timestamp)
        ensures
            r@ == self@.start,
    {
        self.start_time
    }

    /// The end, which is strictly later than the start.
    pub fn end_time(&self) -> (r: Timestamp)
        ensures
            r@ == self@.end,
            self@.end > self@.start,
    {
        proof {
            use_type_invariant(self);
        }
        self.end_time
    }

    /// Whether the task was marked as recurring.
    pub fn is_recurring(&self) -> (r: bool)
        ensures
            r == self@.is_recurring,
    {
        self.is_recurring
    }

    /// The minutes between the starts of two occurrences, if given.
    pub fn frequency_minutes(&self) -> (r: Option<i64>)
        ensures
            r == self@.frequency_minutes,
    {
        self.frequency_minutes
    }

    /// The same task under the identifier `id`.
    pub(crate) fn assigned(self, id: u32) -> (r: Task)
        ensures
            r@ == self@.with_id(id),
            r@.wf(),
    {
        proof {
            use_type_invariant(&self);
        }
        Task {
            id,
            title: self.title,
            details: self.details,
            start_time: self.start_time,
            end_time: self.end_time,
            is_recurring: self.is_recurring,
            frequency_minutes: self.frequency_minutes,
        }
    }

    /// The occurrence that follows once this one is complete, if there is one.
    pub fn next_occurrence(&self) -> (r: Option<Task>)
        ensures
            r.is_some() == self@.successor().is_some(),
            r matches Some(t) ==> Some(t@) == self@.successor() && t@.wf(),
    {
        proof {
            use_type_invariant(self);
        }
        if !self.is_recurring {
            return None;
        }
        match self.frequency_minutes {
            None => None,
            Some(f) => match (self.start_time.plus_minutes(f), self.end_time.plus_minutes(f)) {
                (Some(start_time), Some(end_time)) => Some(
                    Task {
                        id: 0,
                        title: self.title.clone(),
                        details: self.details.clone(),
                        start_time,
                        end_time,
                        is_recurring: true,
                        frequency_minutes: Some(f),
                    },
                ),
                _ => None,
            },
        }
    }
}

/// A recurring task's next occurrence starts and ends exactly its frequency
/// later, keeps its text and frequency, has no identifier yet and is again a
/// well-formed recurring task.
pub proof fn lemma_successor_shifts(t: TaskView)
    requires
        t.wf(),
        t.successor().is_some(),
    ensures
        t.recurrence().is_some(),
        t.successor().unwrap().start == t.start + t.recurrence().unwrap() * 60_000_000_000,
        t.successor().unwrap().end == t.end + t.recurrence().unwrap() * 60_000_000_000,
        t.successor().unwrap().title == t.title,
        t.successor().unwrap().details == t.details,
        t.successor().unwrap().recurrence() == t.recurrence(),
        t.successor().unwrap().id == 0,
        t.successor().unwrap().wf(),
{
}

/// A task that does not recur has no next occurrence.
pub proof fn lemma_no_successor_without_recurrence(t: TaskView)
    requires
        !t.is_recurring,
    ensures
        t.successor().is_none(),
{
}

/// Whenever both moved instants are on the calendar, a recurring task has a
/// next occurrence.
pub proof fn lemma_successor_owed(t: TaskView, f: int)
    requires
        t.recurrence() == Some(f),
        representable(t.start + f * 60_000_000_000),
        representable(t.end + f * 60_000_000_000),
    ensures
        t.successor().is_some(),
{
}

} // verus!
