//! A reminder engine for timed tasks: a task store that hands out identifiers,
//! the decisions of the reminder schedule of one task, and the recurrence that
//! derives the next occurrence of a completed task.

pub mod instant;
pub mod task;
pub mod store;
pub mod scheduler;
pub mod calendar;
