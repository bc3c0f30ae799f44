//! Instants on a single UTC clock and the waits between them.
//!
//! An instant is modelled as an `int`: the nanoseconds since 1970-01-01T00:00:00Z.
//! The calendar arithmetic itself is done by `chrono`; its results are stated here
//! over that model.

use vstd::prelude::*;

verus! {

/// Nanoseconds in a second.
pub const NANOS_PER_SEC: u32 = 1_000_000_000;

/// Nanoseconds in a minute.
pub const NANOS_PER_MINUTE: u64 = 60_000_000_000;

/// Seconds from the epoch to the first second of the calendar's first day
/// (1 January of the year -262143), the earliest instant `chrono` can hold.
pub const MIN_SECS: i64 = -8_334_601_228_800;

/// Seconds from the epoch to the last second of the calendar's last day
/// (31 December of the year 262142), the last second `chrono` can hold.
pub const MAX_SECS: i64 = 8_210_266_876_799;

/// Whether `nanos`, counted from the epoch, lies inside the calendar.
pub open spec fn representable(nanos: int) -> bool {
    MIN_SECS * NANOS_PER_SEC <= nanos < (MAX_SECS + 1) * NANOS_PER_SEC
}

/// The instant `minutes` minutes after `nanos`, where the calendar has one.
pub open spec fn shifted(nanos: int, minutes: int) -> Option<int> {
    let moved = nanos + minutes * NANOS_PER_MINUTE;
    if representable(moved) {
        Some(moved)
    } else {
        None
    }
}

/// The nanoseconds to wait at `from` until `to`: none once `to` has passed.
pub open spec fn gap(from: int, to: int) -> Option<int> {
    if to >= from {
        Some(to - from)
    } else {
        None
    }
}

/// An instant of the calendar, to the nanosecond.
#[derive(Clone, Copy, Debug)]
pub struct Timestamp {
    secs: i64,
    nanos: u32,
}

/// A span of time that can be slept through.
#[derive(Clone, Copy, Debug)]
pub struct Wait {
    secs: u64,
    nanos: u32,
}

impl View for Timestamp {
    type V = int;

    /// Nanoseconds since the epoch.
    closed spec fn view(&self) -> int {
        self.secs * NANOS_PER_SEC + self.nanos
    }
}

impl View for Wait {
    type V = int;

    /// The length in nanoseconds.
    closed spec fn view(&self) -> int {
        self.secs * NANOS_PER_SEC + self.nanos
    }
}

impl Timestamp {
    /// Whether the part below a second is less than a second.
    pub closed spec fn normal(self) -> bool {
        self.nanos < NANOS_PER_SEC
    }

    #[verifier::type_invariant]
    pub(crate) open spec fn inv(self) -> bool {
        representable(self@) && self.normal()
    }

    /// The instant `secs` whole seconds and `nanos` nanoseconds after the epoch,
    /// if `nanos` is less than a second and the calendar reaches that far.
    pub fn new(secs: i64, nanos: u32) -> (r: Option<Timestamp>)
        ensures
            r.is_some() <==> nanos < NANOS_PER_SEC && MIN_SECS <= secs <= MAX_SECS,
            r matches Some(t) ==> t@ == secs * NANOS_PER_SEC + nanos,
    {
        if nanos < NANOS_PER_SEC && MIN_SECS <= secs && secs <= MAX_SECS {
            Some(Timestamp { secs, nanos })
        } else {
            None
        }
    }

    /// Whole seconds since the epoch, rounded towards the past.
    pub fn secs(&self) -> (r: i64)
        ensures
            r == self@ / (NANOS_PER_SEC as int),
    {
        proof {
            use_type_invariant(self);
        }
        self.secs
    }

    /// Nanoseconds since the last whole second.
    pub fn subsec_nanos(&self) -> (r: u32)
        ensures
            r == self@ % (NANOS_PER_SEC as int),
    {
        proof {
            use_type_invariant(self);
        }
        self.nanos
    }

    /// Whether this instant is strictly later than `other`.
    pub fn is_after(&self, other: &Timestamp) -> (r: bool)
        ensures
            r == (self@ > other@),
    {
        proof {
            use_type_invariant(self);
            use_type_invariant(other);
        }
        self.secs > other.secs || (self.secs == other.secs && self.nanos > other.nanos)
    }

    /// Trusted wrapper of `chrono::DateTime::checked_add_signed`. This instant
    /// goes in through `DateTime::from_timestamp`, the span through
    /// `TimeDelta::try_minutes`, and the sum comes back through `timestamp` and
    /// `timestamp_subsec_nanos`.
    ///
    /// Assumed of `chrono`: the sum is exact and keeps the part below a second;
    /// it is refused exactly when it lies outside the calendar. (A span that
    /// `try_minutes` refuses is longer than the whole calendar, so its sum
    /// lies outside as well.)
    #[verifier::external_body]
    fn checked_add_minutes(&self, minutes: i64) -> (r: Option<Timestamp>)
        ensures
            r.is_some() == shifted(self@, minutes as int).is_some(),
            r matches Some(t) ==> Some(t@) == shifted(self@, minutes as int),
    {
        let at = chrono::DateTime::from_timestamp(self.secs, self.nanos)?;
        let span = chrono::TimeDelta::try_minutes(minutes)?;
        let moved = at.checked_add_signed(span)?;
        Some(Timestamp { secs: moved.timestamp(), nanos: moved.timestamp_subsec_nanos() })
    }

    /// Trusted wrapper of `chrono::DateTime::signed_duration_since` followed by
    /// `chrono::TimeDelta::to_std`. Both instants go in through
    /// `DateTime::from_timestamp`; the wait comes back through
    /// `Duration::as_secs` and `Duration::subsec_nanos`.
    ///
    /// Assumed of `chrono`: the difference of two instants of the calendar is
    /// exact, and `to_std` refuses it exactly when it is negative.
    #[verifier::external_body]
    fn checked_gap(&self, later: &Timestamp) -> (r: Option<Wait>)
        ensures
            r.is_some() == gap(self@, later@).is_some(),
            r matches Some(w) ==> Some(w@) == gap(self@, later@),
    {
        let from = chrono::DateTime::from_timestamp(self.secs, self.nanos)?;
        let to = chrono::DateTime::from_timestamp(later.secs, later.nanos)?;
        let span = to.signed_duration_since(from).to_std().ok()?;
        Some(Wait { secs: span.as_secs(), nanos: span.subsec_nanos() })
    }

    /// The instant `minutes` minutes later (earlier, if negative), or `None`
    /// where the calendar ends before it.
    pub fn plus_minutes(&self, minutes: i64) -> (r: Option<Timestamp>)
        ensures
            r.is_some() == shifted(self@, minutes as int).is_some(),
            r matches Some(t) ==> Some(t@) == shifted(self@, minutes as int),
    {
        self.checked_add_minutes(minutes)
    }

    /// The wait from this instant until `later`: zero if they are equal, `None`
    /// if `later` has already passed.
    pub fn until(&self, later: &Timestamp) -> (r: Option<Wait>)
        ensures
            r.is_some() == gap(self@, later@).is_some(),
            r matches Some(w) ==> Some(w@) == gap(self@, later@),
    {
        self.checked_gap(later)
    }
}

impl Wait {
    /// Whether the part below a second is less than a second.
    pub closed spec fn normal(self) -> bool {
        self.nanos < NANOS_PER_SEC
    }

    #[verifier::type_invariant]
    pub(crate) open spec fn inv(self) -> bool {
        self@ >= 0 && self.normal()
    }

    /// A wait of no length.
    pub fn zero() -> (r: Wait)
        ensures
            r@ == 0,
    {
        Wait { secs: 0, nanos: 0 }
    }

    /// Whole seconds of the wait.
    pub fn secs(&self) -> (r: u64)
        ensures
            r == self@ / (NANOS_PER_SEC as int),
    {
        proof {
            use_type_invariant(self);
        }
        self.secs
    }

    /// Nanoseconds beyond the whole seconds.
    pub fn subsec_nanos(&self) -> (r: u32)
        ensures
            r == self@ % (NANOS_PER_SEC as int),
    {
        proof {
            use_type_invariant(self);
        }
        self.nanos
    }
}

} // verus!
