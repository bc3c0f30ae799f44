//! The bridge to an external calendar: what a task looks like as a calendar
//! entry, and which entries of the calendar become tasks of the store.

use crate::instant::Timestamp;
use crate::store::{AppState, StoreView};
use crate::task::{Task, TaskView};
use vstd::prelude::*;

verus! {

/// The decimal text of a number, as `i64::to_string` writes it.
pub uninterp spec fn decimal_text(n: int) -> Seq<char>;

/// The part of a recurrence rule that stands before the number of minutes.
pub open spec fn rule_prefix() -> Seq<char> {
    "RRULE:FREQ=MINUTELY;INTERVAL="@
}

/// The name of the time zone in which every entry made of a task is given.
pub open spec fn zone_name() -> Seq<char> {
    "UTC"@
}

/// One entry of the calendar, as far as tasks are concerned.
#[derive(Debug)]
pub struct CalendarEntry {
    pub summary: Option<String>,
    pub description: Option<String>,
    pub start: Option<Timestamp>,
    pub end: Option<Timestamp>,
    /// The name of the time zone of start and end, if the entry names one.
    pub time_zone: Option<String>,
    /// The rule by which the entry repeats, if it does.
    pub recurrence: Option<String>,
}

/// A calendar entry as plain values.
pub struct EntryView {
    pub summary: Option<Seq<char>>,
    pub description: Option<Seq<char>>,
    pub start: Option<int>,
    pub end: Option<int>,
    pub time_zone: Option<Seq<char>>,
    pub recurrence: Option<Seq<char>>,
}

impl View for CalendarEntry {
    type V = EntryView;

    open spec fn view(&self) -> EntryView {
        EntryView {
            summary: match self.summary {
                Some(s) => Some(s@),
                None => None,
            },
            description: match self.description {
                Some(s) => Some(s@),
                None => None,
            },
            start: match self.start {
                Some(t) => Some(t@),
                None => None,
            },
            end: match self.end {
                Some(t) => Some(t@),
                None => None,
            },
            time_zone: match self.time_zone {
                Some(s) => Some(s@),
                None => None,
            },
            recurrence: match self.recurrence {
                Some(s) => Some(s@),
                None => None,
            },
        }
    }
}

/// The entry that mirrors the task `t`, with its instants in UTC: a task that
/// recurs every `f` minutes repeats by the rule `FREQ=MINUTELY;INTERVAL=f`.
pub open spec fn entry_of(t: TaskView) -> EntryView {
    EntryView {
        summary: Some(t.title),
        description: Some(t.details),
        start: Some(t.start),
        end: Some(t.end),
        time_zone: Some(zone_name()),
        recurrence: match t.recurrence() {
            Some(f) => Some(rule_prefix() + decimal_text(f)),
            None => None,
        },
    }
}

/// The task that an entry of the calendar becomes: one that does not recur,
/// with the entry's summary as its title. An entry without a summary, a start
/// or an end, or one that does not end after it starts, becomes none. The
/// entry's time zone and rule play no part: its instants are instants already.
pub open spec fn task_of(e: EntryView) -> Option<TaskView> {
    if e.summary.is_some() && e.start.is_some() && e.end.is_some() && e.end.unwrap()
        > e.start.unwrap() {
        Some(
            TaskView {
                id: 0,
                title: e.summary.unwrap(),
                details: match e.description {
                    Some(d) => d,
                    None => Seq::empty(),
                },
                start: e.start.unwrap(),
                end: e.end.unwrap(),
                is_recurring: false,
                frequency_minutes: None,
            },
        )
    } else {
        None
    }
}

/// The store after the entries were taken in, in their order: each one that
/// becomes a task is added while the counter has room.
pub open spec fn imported(s: StoreView, entries: Seq<EntryView>) -> StoreView
    decreases entries.len(),
{
    if entries.len() == 0 {
        s
    } else {
        let before = imported(s, entries.drop_last());
        match task_of(entries.last()) {
            Some(t) => if before.has_room() {
                before.add(t)
            } else {
                before
            },
            None => before,
        }
    }
}

/// The entries of a vector, each as plain values.
pub open spec fn entry_views(entries: Seq<CalendarEntry>) -> Seq<EntryView> {
    entries.map_values(|e: CalendarEntry| e@)
}

/// Trusted wrapper of `i64::to_string`. Assumed of it: the text depends on
/// the number alone; [`decimal_text`] is the name of that text.
#[verifier::external_body]
fn decimal(n: i64) -> (r: String)
    ensures
        r@ == decimal_text(n as int),
{
    n.to_string()
}

/// Trusted wrapper of `String::push_str`. Assumed of it: `text` afterwards
/// is what it was, followed by `tail`.
#[verifier::external_body]
fn append(text: &mut String, tail: &str)
    ensures
        final(text)@ == old(text)@ + tail@,
{
    text.push_str(tail)
}

/// The rule by which an entry repeats every `minutes` minutes.
pub fn recurrence_rule(minutes: i64) -> (r: String)
    ensures
        r@ == rule_prefix() + decimal_text(minutes as int),
{
    let mut rule = String::new();
    append(&mut rule, "RRULE:FREQ=MINUTELY;INTERVAL=");
    let digits = decimal(minutes);
    append(&mut rule, digits.as_str());
    assert(rule@ =~= rule_prefix() + decimal_text(minutes as int));
    rule
}

/// The calendar entry that mirrors `task`.
pub fn entry_for(task: &Task) -> (r: CalendarEntry)
    ensures
        r@ == entry_of(task@),
{
    let recurrence = if task.is_recurring() {
        match task.frequency_minutes() {
            Some(f) => Some(recurrence_rule(f)),
            None => None,
        }
    } else {
        None
    };
    CalendarEntry {
        summary: Some(task.title().clone()),
        description: Some(task.details().clone()),
        start: Some(task.start_time()),
        end: Some(task.end_time()),
        time_zone: Some("UTC".to_owned()),
        recurrence,
    }
}

/// The task that `entry` becomes, if it becomes one.
pub fn task_from(entry: &CalendarEntry) -> (r: Option<Task>)
    ensures
        r.is_some() == task_of(entry@).is_some(),
        r matches Some(t) ==> Some(t@) == task_of(entry@),
{
    let title = match &entry.summary {
        Some(s) => s.clone(),
        None => {
            return None;
        },
    };
    let details = match &entry.description {
        Some(d) => d.clone(),
        None => String::new(),
    };
    match (entry.start, entry.end) {
        (Some(start), Some(end)) => match Task::new(title, details, start, end, false, None) {
            Ok(task) => Some(task),
            Err(_) => None,
        },
        _ => None,
    }
}

/// Takes the entries of the calendar into the store and returns how many
/// tasks were added.
pub fn import_entries(store: &mut AppState, entries: &Vec<CalendarEntry>) -> (added: usize)
    ensures
        final(store)@ == imported(old(store)@, entry_views(entries@)),
        final(store)@.next_id == old(store)@.next_id + added,
        final(store)@.wf(),
{
    let ghost all = entry_views(entries@);
    let mut added: usize = 0;
    let mut i: usize = 0;
    proof {
        use_type_invariant(&*store);
        assert(all.take(0) =~= Seq::<EntryView>::empty());
    }
    while i < entries.len()
        invariant
            i <= entries.len(),
            added <= i,
            all == entry_views(entries@),
            store@ == imported(old(store)@, all.take(i as int)),
            store@.next_id == old(store)@.next_id + added,
            store@.wf(),
        decreases entries.len() - i,
    {
        proof {
            assert(all.take(i + 1).drop_last() =~= all.take(i as int));
            assert(all.take(i + 1).last() == entries@[i as int]@);
        }
        match task_from(&entries[i]) {
            Some(task) => {
                if store.has_room() {
                    store.add_task(task);
                    added = added + 1;
                }
            },
            None => {},
        }
        i = i + 1;
    }
    assert(all.take(i as int) =~= all);
    added
}

/// An entry without a summary, a start or an end adds nothing to the store,
/// and every task that an entry becomes ends after it starts.
pub proof fn lemma_incomplete_entry_is_skipped(s: StoreView, e: EntryView)
    ensures
        (e.summary.is_none() || e.start.is_none() || e.end.is_none()) ==> imported(s, seq![e])
            == s,
        task_of(e) matches Some(t) ==> t.end > t.start && !t.is_recurring && t.successor().is_none(),
{
    assert(seq![e].drop_last() =~= Seq::<EntryView>::empty());
    assert(seq![e].last() == e);
    reveal_with_fuel(imported, 2);
}

} // verus!
