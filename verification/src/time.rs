//! Points in time, and the clock.

use vstd::prelude::*;

verus! {

/// The first second, counted from the Unix epoch, that a timestamp can hold.
pub const FIRST_SECOND: i64 = -8_334_601_228_800;

/// The last second, counted from the Unix epoch, that a timestamp can hold.
pub const LAST_SECOND: i64 = 8_210_266_876_799;

pub const NANOS_PER_SECOND: u32 = 1_000_000_000;

/// The seconds of a day.
pub const SECONDS_PER_DAY: i64 = 86_400;

/// Whether `secs` and `nanos` name a point in time. A leap second follows the last second of
/// a minute: its nanoseconds are counted on from those of that second.
pub open spec fn valid_time(secs: int, nanos: int) -> bool {
    &&& FIRST_SECOND <= secs <= LAST_SECOND
    &&& 0 <= nanos
    &&& nanos < NANOS_PER_SECOND || (secs % 60 == 59 && nanos < 2 * NANOS_PER_SECOND)
}

/// Whether `nanos` lies in a leap second.
pub open spec fn in_leap_second(nanos: int) -> bool {
    nanos >= NANOS_PER_SECOND
}

/// The nanoseconds from one point in time to another. A leap second that one of the two lies
/// in is counted as a second of its own if the other has the later time of day.
pub open spec fn nanos_between(
    later_secs: int,
    later_nanos: int,
    earlier_secs: int,
    earlier_nanos: int,
) -> int {
    let later_daytime = later_secs % (SECONDS_PER_DAY as int);
    let earlier_daytime = earlier_secs % (SECONDS_PER_DAY as int);
    let leap: int = if later_daytime > earlier_daytime && in_leap_second(earlier_nanos) {
        1
    } else if later_daytime < earlier_daytime && in_leap_second(later_nanos) {
        -1
    } else {
        0
    };
    (later_secs - earlier_secs + leap) * NANOS_PER_SECOND + (later_nanos - earlier_nanos)
}

/// `nanos` nanoseconds as whole seconds, rounded toward zero.
pub open spec fn whole_seconds(nanos: int) -> int {
    if nanos >= 0 {
        nanos / (NANOS_PER_SECOND as int)
    } else {
        -((-nanos) / (NANOS_PER_SECOND as int))
    }
}

/// A point in time: seconds since the Unix epoch, and nanoseconds into that second or the leap
/// second after it.
#[derive(Clone, Copy, Debug, PartialEq, Eq, Structural)]
pub struct Timestamp {
    pub(crate) secs: i64,
    pub(crate) nanos: u32,
}

impl Timestamp {
    /// Seconds since the Unix epoch.
    pub closed spec fn seconds(self) -> int {
        self.secs as int
    }

    /// Nanoseconds into the second.
    pub closed spec fn subsec(self) -> int {
        self.nanos as int
    }

    /// Nanoseconds from `earlier` to `self`; negative when `earlier` is the later of the two.
    pub open spec fn elapsed_since(self, earlier: Timestamp) -> int {
        nanos_between(self.seconds(), self.subsec(), earlier.seconds(), earlier.subsec())
    }

    /// Whether `self` comes before `other` or is the same point in time.
    pub open spec fn no_later_than(self, other: Timestamp) -> bool {
        self.seconds() < other.seconds() || (self.seconds() == other.seconds() && self.subsec()
            <= other.subsec())
    }

    #[verifier::type_invariant]
    spec fn in_range(self) -> bool {
        valid_time(self.secs as int, self.nanos as int)
    }

    /// The point in time `nanos` nanoseconds into second `secs`, if there is one.
    pub fn new(secs: i64, nanos: u32) -> (result: Option<Timestamp>)
        ensures
            result is Some <==> valid_time(secs as int, nanos as int),
            result matches Some(t) ==> t.seconds() == secs && t.subsec() == nanos,
    {
        if secs < FIRST_SECOND || secs > LAST_SECOND {
            return None;
        }
        let ends_minute = (secs - FIRST_SECOND) % 60 == 59;
        if nanos < NANOS_PER_SECOND || (ends_minute && nanos < 2 * NANOS_PER_SECOND) {
            Some(Timestamp { secs, nanos })
        } else {
            None
        }
    }

    pub fn secs(&self) -> (result: i64)
        ensures
            result == self.seconds(),
    {
        self.secs
    }

    pub fn nanos(&self) -> (result: u32)
        ensures
            result == self.subsec(),
    {
        self.nanos
    }

    /// The current time.
    pub fn now() -> (result: Timestamp)
        ensures
            clock_time(result),
    {
        let (secs, nanos) = clock_reading();
        Timestamp { secs, nanos }
    }

    /// Whole seconds from `earlier` to `self`, rounded toward zero; negative when
    /// `earlier` is the later of the two.
    pub fn seconds_since(&self, earlier: Timestamp) -> (result: i64)
        ensures
            result == whole_seconds(self.elapsed_since(earlier)),
    {
        proof {
            use_type_invariant(self);
            use_type_invariant(&earlier);
        }
        whole_seconds_between(self.secs, self.nanos, earlier.secs, earlier.nanos)
    }

    /// Whether `self` comes before `other` or is the same point in time.
    pub fn at_or_before(&self, other: &Timestamp) -> (result: bool)
        ensures
            result == self.no_later_than(*other),
    {
        self.secs < other.secs || (self.secs == other.secs && self.nanos <= other.nanos)
    }
}

/// Whether the clock can show `time`: not before the epoch, and never in a leap second.
pub open spec fn clock_time(time: Timestamp) -> bool {
    0 <= time.seconds() <= LAST_SECOND && 0 <= time.subsec() < NANOS_PER_SECOND
}

/// Calls `chrono::Utc::now`: the current time as seconds since the Unix epoch and
/// nanoseconds into the second. Claims only that it is a point in time not before the
/// epoch, and in no leap second; which one depends on the machine's clock. That the machine's
/// clock is not set before the epoch is taken for granted.
#[verifier::external_body]
fn clock_reading() -> (reading: (i64, u32))
    ensures
        0 <= reading.0 <= LAST_SECOND,
        reading.1 < NANOS_PER_SECOND,
{
    let now = chrono::Utc::now();
    (now.timestamp(), now.timestamp_subsec_nanos())
}

/// Calls `chrono::DateTime::signed_duration_since` on the two points in time and
/// `chrono::TimeDelta::num_seconds` on the difference. Claims that the result is the
/// difference in whole seconds, rounded toward zero, with leap seconds counted as
/// `nanos_between` says.
#[verifier::external_body]
fn whole_seconds_between(
    later_secs: i64,
    later_nanos: u32,
    earlier_secs: i64,
    earlier_nanos: u32,
) -> (result: i64)
    requires
        valid_time(later_secs as int, later_nanos as int),
        valid_time(earlier_secs as int, earlier_nanos as int),
    ensures
        result == whole_seconds(
            nanos_between(
                later_secs as int,
                later_nanos as int,
                earlier_secs as int,
                earlier_nanos as int,
            ),
        ),
{
    let later = chrono::DateTime::from_timestamp(later_secs, later_nanos).unwrap();
    let earlier = chrono::DateTime::from_timestamp(earlier_secs, earlier_nanos).unwrap();
    later.signed_duration_since(earlier).num_seconds()
}

} // verus!
