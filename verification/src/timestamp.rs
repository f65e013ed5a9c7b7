//! Points in time, and what the calendar library computes from them.

use chrono::{DateTime, TimeDelta, Utc};
use vstd::prelude::*;

verus! {

/// The first second the calendar reaches.
pub const MIN_SECS: i64 = -8_334_601_228_800;

/// The last second the calendar reaches.
pub const MAX_SECS: i64 = 8_210_266_876_799;

/// The first second of the year 0.
pub const FIRST_FOUR_DIGIT_SECS: i64 = -62_167_219_200;

/// The last second of the year 9999.
pub const LAST_FOUR_DIGIT_SECS: i64 = 253_402_300_799;

pub const NANOS_PER_SEC: u32 = 1_000_000_000;

pub const SECS_PER_DAY: i64 = 86_400;

/// The seconds and nanoseconds that make a point in time: the second lies in the calendar's range,
/// and the nanoseconds run past one second only in a leap second, at the end of a minute.
pub open spec fn valid_parts(secs: i64, nanos: u32) -> bool {
    &&& MIN_SECS <= secs <= MAX_SECS
    &&& nanos < 2 * NANOS_PER_SEC
    &&& nanos >= NANOS_PER_SEC ==> secs % 60 == 59
}

/// Whether the year has four digits and no sign.
pub open spec fn four_digit_year(secs: i64) -> bool {
    FIRST_FOUR_DIGIT_SECS <= secs <= LAST_FOUR_DIGIT_SECS
}

/// A point in time in UTC: seconds since 1970 and nanoseconds within the second.
#[derive(Clone, Copy, Debug, PartialEq, Eq, Structural)]
pub struct Timestamp {
    secs: i64,
    nanos: u32,
}

/// The text that `DateTime::<Utc>::to_rfc3339` writes for a point in time.
pub uninterp spec fn rfc3339_text(secs: i64, nanos: u32) -> Seq<char>;

/// The point in time that `DateTime::parse_from_rfc3339` reads from a text, moved to UTC.
pub uninterp spec fn rfc3339_point(text: Seq<char>) -> Option<(i64, u32)>;

/// The text that `DateTime::<Utc>::format` writes for a point in time with the format `%Y-%m-%d`.
pub uninterp spec fn calendar_day(secs: i64, nanos: u32) -> Seq<char>;

#[verifier::external_type_specification]
#[verifier::external_body]
pub struct ExParseError(chrono::ParseError);

/// `Utc::now` reads the system clock: a time not before 1970, never a leap second.
#[verifier::external_body]
fn clock_parts() -> (parts: (i64, u32))
    ensures
        valid_parts(parts.0, parts.1),
        parts.0 >= 0,
        parts.1 < NANOS_PER_SEC,
{
    let now = Utc::now();
    (now.timestamp(), now.timestamp_subsec_nanos())
}

/// `DateTime::<Utc>::to_rfc3339` writes a point in time. What it writes for a year of four digits
/// `DateTime::parse_from_rfc3339` reads back as the same point, to the nanosecond.
#[verifier::external_body]
fn write_rfc3339(secs: i64, nanos: u32) -> (text: String)
    requires
        valid_parts(secs, nanos),
    ensures
        text@ == rfc3339_text(secs, nanos),
        four_digit_year(secs) ==> rfc3339_point(text@) == Some((secs, nanos)),
{
    DateTime::<Utc>::from_timestamp(secs, nanos).unwrap().to_rfc3339()
}

/// `DateTime::parse_from_rfc3339` reads a point in time, or reports an error for a text that is
/// none.
#[verifier::external_body]
fn read_rfc3339(text: &str) -> (point: Result<(i64, u32), chrono::ParseError>)
    ensures
        match point {
            Ok(parts) => rfc3339_point(text@) == Some(parts) && valid_parts(parts.0, parts.1),
            Err(_) => rfc3339_point(text@) is None,
        },
{
    let point = DateTime::parse_from_rfc3339(text)?.with_timezone(&Utc);
    Ok((point.timestamp(), point.timestamp_subsec_nanos()))
}

/// `DateTime::<Utc>::format` with `%Y-%m-%d` writes the calendar day of a point in time.
#[verifier::external_body]
fn write_day(secs: i64, nanos: u32) -> (text: String)
    requires
        valid_parts(secs, nanos),
    ensures
        text@ == calendar_day(secs, nanos),
{
    DateTime::<Utc>::from_timestamp(secs, nanos).unwrap().format("%Y-%m-%d").to_string()
}

/// `DateTime::signed_duration_since` measures from one point to another and `num_seconds` drops
/// the fraction: the distance in nanoseconds, in whole seconds towards zero. A leap second counts
/// as one more second where the other point is later, or earlier, in the day.
#[verifier::external_body]
fn count_seconds(secs: i64, nanos: u32, from_secs: i64, from_nanos: u32) -> (count: i64)
    requires
        valid_parts(secs, nanos),
        valid_parts(from_secs, from_nanos),
    ensures
        count == seconds_between(secs, nanos, from_secs, from_nanos),
{
    let to = DateTime::<Utc>::from_timestamp(secs, nanos).unwrap();
    let from = DateTime::<Utc>::from_timestamp(from_secs, from_nanos).unwrap();
    to.signed_duration_since(from).num_seconds()
}

/// `DateTime::checked_sub_signed` with `TimeDelta::try_days` goes back by whole days, or reports
/// that the calendar does not reach so far. A leap second is counted as passed.
#[verifier::external_body]
fn go_back(secs: i64, nanos: u32, days: i64) -> (parts: Option<(i64, u32)>)
    requires
        valid_parts(secs, nanos),
    ensures
        match parts {
            Some(p) => days_before(secs, nanos, days) == (p.0 as int, p.1 as int) && valid_parts(
                p.0,
                p.1,
            ),
            None => !(MIN_SECS <= days_before(secs, nanos, days).0 <= MAX_SECS),
        },
{
    let from = DateTime::<Utc>::from_timestamp(secs, nanos).unwrap();
    let point = from.checked_sub_signed(TimeDelta::try_days(days)?)?;
    Some((point.timestamp(), point.timestamp_subsec_nanos()))
}

/// A distance in nanoseconds as whole seconds, the fraction dropped.
pub open spec fn whole_seconds(nanos: int) -> int {
    if nanos >= 0 {
        nanos / (NANOS_PER_SEC as int)
    } else {
        -((-nanos) / (NANOS_PER_SEC as int))
    }
}

/// The leap second that the way from one point to another passes over and that the seconds do not
/// count: one point lies within it, and the other later or earlier in the day, whatever day that
/// is.
pub open spec fn leap_passed(secs: i64, nanos: u32, from_secs: i64, from_nanos: u32) -> int {
    let time_of_day = secs as int % SECS_PER_DAY as int;
    let from_time_of_day = from_secs as int % SECS_PER_DAY as int;
    if time_of_day > from_time_of_day && from_nanos >= NANOS_PER_SEC {
        1
    } else if time_of_day < from_time_of_day && nanos >= NANOS_PER_SEC {
        -1
    } else {
        0
    }
}

/// The whole seconds from one point in time to another.
pub open spec fn seconds_between(secs: i64, nanos: u32, from_secs: i64, from_nanos: u32) -> int {
    whole_seconds(
        (secs - from_secs + leap_passed(secs, nanos, from_secs, from_nanos)) * NANOS_PER_SEC + (
        nanos - from_nanos),
    )
}

/// The second and nanosecond that lie `days` days before a point in time. From within a leap
/// second the way back starts at the second after it, and the way forward at the second it
/// extends.
pub open spec fn days_before(secs: i64, nanos: u32, days: i64) -> (int, int) {
    if nanos < NANOS_PER_SEC || days == 0 {
        (secs - days * SECS_PER_DAY, nanos as int)
    } else if days > 0 {
        (secs + 1 - days * SECS_PER_DAY, nanos - NANOS_PER_SEC)
    } else {
        (secs - days * SECS_PER_DAY, nanos - NANOS_PER_SEC)
    }
}

impl Timestamp {
    pub closed spec fn secs(self) -> i64 {
        self.secs
    }

    pub closed spec fn nanos(self) -> u32 {
        self.nanos
    }

    #[verifier::type_invariant]
    spec fn in_range(self) -> bool {
        valid_parts(self.secs, self.nanos)
    }

    /// The text this point in time is stored as.
    pub open spec fn rfc3339(self) -> Seq<char> {
        rfc3339_text(self.secs(), self.nanos())
    }

    /// The calendar day of this point in time.
    pub open spec fn day(self) -> Seq<char> {
        calendar_day(self.secs(), self.nanos())
    }

    /// Whether this point in time lies strictly before another.
    pub open spec fn earlier_than(self, other: Timestamp) -> bool {
        self.secs() < other.secs() || (self.secs() == other.secs() && self.nanos() < other.nanos())
    }

    /// The whole seconds from `from` to this point in time.
    pub open spec fn seconds_after(self, from: Timestamp) -> int {
        seconds_between(self.secs(), self.nanos(), from.secs(), from.nanos())
    }

    /// The point in time with these seconds and nanoseconds, if the calendar has it.
    pub fn new(secs: i64, nanos: u32) -> (point: Option<Timestamp>)
        ensures
            match point {
                Some(t) => valid_parts(secs, nanos) && t.secs() == secs && t.nanos() == nanos,
                None => !valid_parts(secs, nanos),
            },
    {
        if secs < MIN_SECS || secs > MAX_SECS || nanos >= 2 * NANOS_PER_SEC {
            return None;
        }
        if nanos >= NANOS_PER_SEC {
            // The remainder is counted from the first minute the calendar reaches.
            let into_minute: i64 = (secs - MIN_SECS) % 60;
            assert(secs % 60 == into_minute);
            if into_minute != 59 {
                return None;
            }
        }
        Some(Timestamp { secs, nanos })
    }

    /// Whether this is a point in time that reading the clock can give.
    pub open spec fn told_by_clock(self) -> bool {
        call_ensures(Timestamp::now, (), self)
    }

    /// The present time. Nothing is promised of it but that it is not before 1970 and is no leap
    /// second.
    pub fn now() -> (point: Timestamp)
        ensures
            point.secs() >= 0,
            point.nanos() < NANOS_PER_SEC,
    {
        let (secs, nanos) = clock_parts();
        Timestamp { secs, nanos }
    }

    /// The seconds and nanoseconds of this point in time.
    pub fn parts(&self) -> (parts: (i64, u32))
        ensures
            parts.0 == self.secs(),
            parts.1 == self.nanos(),
            valid_parts(parts.0, parts.1),
    {
        proof {
            use_type_invariant(self);
        }
        (self.secs, self.nanos)
    }

    /// The text this point in time is stored as.
    pub fn to_rfc3339(&self) -> (text: String)
        ensures
            text@ == self.rfc3339(),
            four_digit_year(self.secs()) ==> rfc3339_point(text@) == Some(
                (self.secs(), self.nanos()),
            ),
    {
        proof {
            use_type_invariant(self);
        }
        write_rfc3339(self.secs, self.nanos)
    }

    /// The point in time that a stored text holds, if it holds one.
    pub fn parse_from_rfc3339(text: &str) -> (point: Option<Timestamp>)
        ensures
            point == parsed_timestamp(text@),
    {
        match read_rfc3339(text) {
            Ok((secs, nanos)) => Some(Timestamp { secs, nanos }),
            Err(_) => None,
        }
    }

    /// The calendar day of this point in time.
    pub fn format_day(&self) -> (text: String)
        ensures
            text@ == self.day(),
    {
        proof {
            use_type_invariant(self);
        }
        write_day(self.secs, self.nanos)
    }

    /// Whether this point in time lies strictly before another.
    pub fn is_before(&self, other: &Timestamp) -> (before: bool)
        ensures
            before == self.earlier_than(*other),
    {
        self.secs < other.secs || (self.secs == other.secs && self.nanos < other.nanos)
    }

    /// The whole seconds from `from` to this point in time.
    pub fn seconds_since(&self, from: &Timestamp) -> (count: i64)
        ensures
            count == self.seconds_after(*from),
    {
        proof {
            use_type_invariant(self);
            use_type_invariant(from);
        }
        count_seconds(self.secs, self.nanos, from.secs, from.nanos)
    }

    /// The point in time `days` days earlier, or `None` where the calendar does not reach so far.
    pub fn minus_days(&self, days: i64) -> (point: Option<Timestamp>)
        ensures
            match point {
                Some(t) => days_before(self.secs(), self.nanos(), days) == (
                    t.secs() as int,
                    t.nanos() as int,
                ),
                None => !(MIN_SECS <= days_before(self.secs(), self.nanos(), days).0 <= MAX_SECS),
            },
    {
        proof {
            use_type_invariant(self);
        }
        match go_back(self.secs, self.nanos, days) {
            Some((secs, nanos)) => Some(Timestamp { secs, nanos }),
            None => None,
        }
    }
}

/// The point in time that a stored text holds, if it holds one.
pub closed spec fn parsed_timestamp(text: Seq<char>) -> Option<Timestamp> {
    match rfc3339_point(text) {
        Some((secs, nanos)) => Some(Timestamp { secs, nanos }),
        None => None,
    }
}

/// A text holds a point in time exactly when the calendar library reads one from it, and then it
/// is that one.
pub proof fn law_parsed_point_has_the_parts_read(text: Seq<char>)
    ensures
        match (parsed_timestamp(text), rfc3339_point(text)) {
            (Some(t), Some((secs, nanos))) => t.secs() == secs && t.nanos() == nanos,
            (None, None) => true,
            _ => false,
        },
{
}

/// Points in time with the same seconds and nanoseconds are the same.
pub proof fn law_points_are_their_parts(a: Timestamp, b: Timestamp)
    requires
        a.secs() == b.secs(),
        a.nanos() == b.nanos(),
    ensures
        a == b,
{
}

/// A text that the calendar library reads as the parts of `t` holds `t`.
pub proof fn lemma_parses_to(text: Seq<char>, t: Timestamp)
    requires
        rfc3339_point(text) == Some((t.secs(), t.nanos())),
    ensures
        parsed_timestamp(text) == Some(t),
{
}

} // verus!
