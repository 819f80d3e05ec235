//! Instants on the UTC time line.
use vstd::prelude::*;

verus! {

/// The first second that a timestamp can hold: the start of the year -262143.
pub const FIRST_SECOND: i64 = -8_334_601_228_800;

/// The last second that a timestamp can hold: the end of the year 262142.
pub const LAST_SECOND: i64 = 8_210_266_876_799;

/// An instant in UTC: whole seconds since the Unix epoch and the nanoseconds
/// after that second. More than 999 999 999 nanoseconds stand for a leap second.
#[derive(Clone, Copy, Debug, PartialEq, Eq, Structural)]
pub struct Timestamp {
    secs: i64,
    nanos: u32,
}

/// Whether `secs` and `nanos` make up an instant.
pub open spec fn is_instant(secs: int, nanos: int) -> bool {
    &&& FIRST_SECOND <= secs <= LAST_SECOND
    &&& 0 <= nanos < 2_000_000_000
    &&& nanos >= 1_000_000_000 ==> secs % 60 == 59
}

/// The whole seconds in a number of nanoseconds, rounded towards zero.
pub open spec fn toward_zero(nanos: int) -> int {
    if nanos >= 0 {
        nanos / 1_000_000_000
    } else {
        -((-nanos) / 1_000_000_000)
    }
}

/// An instant written out as RFC 3339 has it.
pub uninterp spec fn rfc3339_text(secs: int, nanos: int) -> Seq<char>;

impl Timestamp {
    #[verifier::type_invariant]
    spec fn wf(self) -> bool {
        is_instant(self.secs as int, self.nanos as int)
    }

    /// Whole seconds since the Unix epoch.
    pub closed spec fn seconds(self) -> int {
        self.secs as int
    }

    /// Nanoseconds after that second.
    pub closed spec fn subsec_nanos(self) -> int {
        self.nanos as int
    }

    /// Milliseconds since the Unix epoch, rounded down.
    pub open spec fn millis(self) -> int {
        self.seconds() * 1000 + self.subsec_nanos() / 1_000_000
    }

    /// Whether this instant comes before `other`.
    pub open spec fn before(self, other: Timestamp) -> bool {
        self.seconds() < other.seconds() || (self.seconds() == other.seconds()
            && self.subsec_nanos() < other.subsec_nanos())
    }

    /// The leap second to count between `earlier` and this instant. One is known
    /// of only where one of the two lies in it, and it is counted where the other
    /// lies beyond it in the course of the day.
    pub open spec fn leap_seconds_after(self, earlier: Timestamp) -> int {
        let time_of_day = self.seconds() % 86_400;
        let earlier_time_of_day = earlier.seconds() % 86_400;
        if time_of_day > earlier_time_of_day && earlier.subsec_nanos() >= 1_000_000_000 {
            1
        } else if time_of_day < earlier_time_of_day && self.subsec_nanos() >= 1_000_000_000 {
            -1
        } else {
            0
        }
    }

    /// How many nanoseconds after `earlier` this instant comes.
    pub open spec fn nanos_after(self, earlier: Timestamp) -> int {
        (self.seconds() - earlier.seconds() + self.leap_seconds_after(earlier)) * 1_000_000_000
            + self.subsec_nanos() - earlier.subsec_nanos()
    }

    /// The instant `secs` seconds and `nanos` nanoseconds after the epoch.
    pub fn from_unix(secs: i64, nanos: u32) -> (r: Option<Timestamp>)
        ensures
            r is Some <==> is_instant(secs as int, nanos as int),
            r matches Some(t) ==> t.seconds() == secs && t.subsec_nanos() == nanos,
    {
        if secs < FIRST_SECOND || secs > LAST_SECOND || nanos >= 2_000_000_000 {
            return None;
        }
        let leap: bool = if secs >= 0 {
            secs % 60 == 59
        } else {
            (secs + 8_334_601_228_800) % 60 == 59
        };
        if nanos >= 1_000_000_000 && !leap {
            return None;
        }
        Some(Timestamp { secs, nanos })
    }

    /// Milliseconds since the Unix epoch, rounded down.
    pub fn timestamp_millis(&self) -> (r: i64)
        ensures
            r == self.millis(),
    {
        proof {
            use_type_invariant(self);
        }
        self.secs * 1000 + (self.nanos / 1_000_000) as i64
    }

    /// Whether this instant comes before `other`.
    pub fn is_before(&self, other: &Timestamp) -> (r: bool)
        ensures
            r == self.before(*other),
    {
        self.secs < other.secs || (self.secs == other.secs && self.nanos < other.nanos)
    }

    /// Whether this instant comes before the Unix epoch.
    pub fn is_before_epoch(&self) -> (r: bool)
        ensures
            r == (self.seconds() < 0),
    {
        self.secs < 0
    }

    /// `chrono::DateTime::<Utc>::from_timestamp_millis`: the instant `millis`
    /// milliseconds after the epoch, where the calendar reaches that far.
    #[verifier::external_body]
    pub(crate) fn from_timestamp_millis(millis: i64) -> (r: Option<Timestamp>)
        ensures
            r is Some <==> FIRST_SECOND * 1000 <= millis <= LAST_SECOND * 1000 + 999,
            r matches Some(t) ==> t.seconds() == millis as int / 1000 && t.subsec_nanos() == (
            millis as int % 1000) * 1_000_000,
    {
        chrono::DateTime::<chrono::Utc>::from_timestamp_millis(millis).map(
            |t| Timestamp { secs: t.timestamp(), nanos: t.timestamp_subsec_nanos() },
        )
    }

    /// `chrono::DateTime::<Utc>::to_rfc3339`: the text depends on the instant
    /// alone.
    #[verifier::external_body]
    pub(crate) fn to_rfc3339(&self) -> (r: String)
        ensures
            r@ == rfc3339_text(self.seconds(), self.subsec_nanos()),
    {
        let t = chrono::DateTime::<chrono::Utc>::from_timestamp(self.secs, self.nanos);
        t.unwrap_or_default().to_rfc3339()
    }

    /// `chrono::TimeDelta::num_seconds` of the time from `earlier` to this
    /// instant: whole seconds, rounded towards zero.
    #[verifier::external_body]
    pub(crate) fn seconds_since(&self, earlier: &Timestamp) -> (r: i64)
        ensures
            r == toward_zero(self.nanos_after(*earlier)),
    {
        let a = chrono::DateTime::<chrono::Utc>::from_timestamp(self.secs, self.nanos);
        let b = chrono::DateTime::<chrono::Utc>::from_timestamp(earlier.secs, earlier.nanos);
        (a.unwrap_or_default() - b.unwrap_or_default()).num_seconds()
    }

    /// `chrono::Utc::now`: the current instant. Nothing is known of which.
    #[verifier::external_body]
    pub(crate) fn now() -> (r: Timestamp)
    {
        let t = chrono::Utc::now();
        Timestamp { secs: t.timestamp(), nanos: t.timestamp_subsec_nanos() }
    }
}

/// A reading of both clocks at the same moment: the wall clock, and the
/// monotonic clock in nanoseconds.
#[derive(Clone, Copy, Debug)]
pub struct ClockReading {
    pub wall: Timestamp,
    pub monotonic_ns: u64,
}

impl ClockReading {
    /// How long ago the monotonic clock read `started_at`, in nanoseconds.
    pub open spec fn elapsed_ns(self, started_at: u64) -> int {
        if self.monotonic_ns > started_at {
            self.monotonic_ns - started_at
        } else {
            0
        }
    }

    /// What the wall clock read, in milliseconds since the epoch, when the
    /// monotonic clock read `started_at`.
    pub open spec fn wall_ms_at(self, started_at: u64) -> int {
        self.wall.seconds() * 1000 + (self.wall.subsec_nanos() - self.elapsed_ns(started_at))
            / 1_000_000
    }

    /// What the wall clock read, in milliseconds since the epoch, when the
    /// monotonic clock read `started_at`.
    pub fn wall_millis_at(&self, started_at: u64) -> (r: i64)
        ensures
            r == self.wall_ms_at(started_at),
    {
        proof {
            use_type_invariant(&self.wall);
        }
        let elapsed: u64 = if self.monotonic_ns > started_at {
            self.monotonic_ns - started_at
        } else {
            0
        };
        let nanos: u64 = self.wall.nanos as u64;
        let whole: i64 = self.wall.secs * 1000;
        if nanos >= elapsed {
            whole + ((nanos - elapsed) / 1_000_000) as i64
        } else {
            let gap: u64 = elapsed - nanos;
            let full: i64 = (gap / 1_000_000) as i64;
            if gap % 1_000_000 == 0 {
                whole - full
            } else {
                whole - full - 1
            }
        }
    }
}

/// Reading back the milliseconds of an instant made from milliseconds gives
/// the same number.
pub proof fn law_millis_round_trip(millis: int, t: Timestamp)
    requires
        t.seconds() == millis / 1000,
        t.subsec_nanos() == (millis % 1000) * 1_000_000,
    ensures
        t.millis() == millis,
{
}

} // verus!
