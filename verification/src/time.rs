//! UTC instants as plain integers.

use vstd::prelude::*;

verus! {

/// A UTC instant: whole seconds since the Unix epoch and the nanoseconds
/// past that second (beyond 999,999,999 only inside a leap second).
#[derive(Debug, Clone, Copy, PartialEq, Eq, Hash, Structural)]
pub struct UtcTime {
    /// Seconds since 1970-01-01T00:00:00Z.
    pub secs: i64,
    /// Nanoseconds past `secs`.
    pub nanos: u32,
}

/// `a` is not later than `b`.
pub open spec fn utc_le(a: UtcTime, b: UtcTime) -> bool {
    a.secs < b.secs || (a.secs == b.secs && a.nanos <= b.nanos)
}

/// `a` is strictly earlier than `b`.
pub open spec fn utc_lt(a: UtcTime, b: UtcTime) -> bool {
    a.secs < b.secs || (a.secs == b.secs && a.nanos < b.nanos)
}

impl UtcTime {
    /// `self` is not later than `other`.
    pub fn le(&self, other: &UtcTime) -> (r: bool)
        ensures
            r == utc_le(*self, *other),
    {
        self.secs < other.secs || (self.secs == other.secs && self.nanos <= other.nanos)
    }

    /// `self` is strictly earlier than `other`.
    pub fn lt(&self, other: &UtcTime) -> (r: bool)
        ensures
            r == utc_lt(*self, *other),
    {
        self.secs < other.secs || (self.secs == other.secs && self.nanos < other.nanos)
    }
}

/// `t` moved `secs` whole seconds later, saturating at the largest
/// representable second.
pub open spec fn later_by(t: UtcTime, secs: u64) -> UtcTime {
    UtcTime {
        secs: if t.secs + secs > i64::MAX {
            i64::MAX
        } else {
            (t.secs + secs) as i64
        },
        nanos: t.nanos,
    }
}

/// `t` moved `secs` whole seconds later (see [`later_by`]).
pub fn add_seconds(t: UtcTime, secs: u64) -> (r: UtcTime)
    ensures
        r.nanos == t.nanos,
        r.secs == if t.secs + secs > i64::MAX { i64::MAX as int } else { t.secs + secs },
        r == later_by(t, secs),
{
    let sum: i128 = t.secs as i128 + secs as i128;
    if sum > i64::MAX as i128 {
        UtcTime { secs: i64::MAX, nanos: t.nanos }
    } else {
        UtcTime { secs: sum as i64, nanos: t.nanos }
    }
}

/// `chrono::Utc::now`: the system clock, read through
/// `SystemTime::now().duration_since(UNIX_EPOCH)`, so never before the
/// epoch (the crate panics on a clock set before it) and with sub-second
/// nanoseconds below one second. Nothing else is promised of the value.
#[verifier::external_body]
pub(crate) fn utc_now() -> (t: UtcTime)
    ensures
        t.secs >= 0,
        t.nanos < 1_000_000_000,
{
    let now = chrono::Utc::now();
    UtcTime { secs: now.timestamp(), nanos: now.timestamp_subsec_nanos() }
}

/// What chrono's `Display` for `DateTime<Utc>` writes of the instant
/// `secs`, `nanos` (`None` where chrono cannot represent it); a function
/// of the instant alone.
pub uninterp spec fn utc_display_of(secs: i64, nanos: u32) -> Option<Seq<char>>;

/// `chrono::DateTime::<Utc>::from_timestamp` and its `Display`: the
/// instant as chrono writes it (`2024-01-01 00:00:00 UTC`), named
/// [`utc_display_of`]; `None` where `from_timestamp` refuses the instant.
#[verifier::external_body]
pub(crate) fn utc_display(t: UtcTime) -> (r: Option<String>)
    ensures
        match r {
            Some(s) => utc_display_of(t.secs, t.nanos) == Some(s@),
            None => utc_display_of(t.secs, t.nanos) is None,
        },
{
    match chrono::DateTime::from_timestamp(t.secs, t.nanos) {
        Some(d) => Some(d.to_string()),
        None => None,
    }
}

} // verus!
