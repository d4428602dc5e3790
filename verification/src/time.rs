//! Instants in UTC, to the nanosecond, in the range of chrono's `DateTime<Utc>`.
use crate::value::Value;
use chrono::Datelike;
use vstd::prelude::*;

verus! {

/// The first and the last second that an instant can have.
pub const FIRST_SECOND: i64 = -8334601228800;

pub const LAST_SECOND: i64 = 8210266876799;

/// The longest time that chrono counts, in nanoseconds.
pub const LONGEST_SPAN: u128 = 9223372036854775807000000;

/// The longest time that std counts, in nanoseconds.
pub const LONGEST_DURATION: u128 = 18446744073709551615999999999;

/// How instants are written: to the second, with the zone or without it, or to the minute.
pub const TO_THE_SECOND: &'static str = "%Y-%m-%d %H:%M:%SZ";

pub const TO_THE_PLAIN_SECOND: &'static str = "%Y-%m-%d %H:%M:%S";

pub const TO_THE_MINUTE: &'static str = "%Y-%m-%d %H:%M";

/// An instant: whole seconds since the Unix epoch, and nanoseconds past them, which are more than
/// a second's in a leap second.
#[derive(Clone, Copy, Debug, PartialEq, Eq, Structural)]
pub struct Timestamp {
    seconds: i64,
    nanos: u32,
}

impl DeepView for Timestamp {
    type V = Timestamp;

    open spec fn deep_view(&self) -> Timestamp {
        *self
    }
}

impl Value for Timestamp {
    fn copied(&self) -> (result: Self) {
        *self
    }

    fn same(&self, other: &Self) -> (result: bool) {
        *self == *other
    }
}

/// Whether a second and what is past it make an instant. Nanoseconds beyond one second are those
/// of a leap second, which can only follow the last second of a minute.
pub open spec fn is_instant(seconds: int, nanos: int) -> bool {
    &&& FIRST_SECOND <= seconds <= LAST_SECOND
    &&& 0 <= nanos < 2_000_000_000
    &&& nanos >= 1_000_000_000 ==> seconds % 60 == 59
}

/// Where `span` nanoseconds lead from an instant, in seconds and nanoseconds: within a leap
/// second as long as it lasts, and past it as if it had not been.
pub open spec fn advanced(seconds: int, nanos: int, span: int) -> (int, int) {
    if nanos >= 1_000_000_000 && nanos + span < 2_000_000_000 {
        (seconds, nanos + span)
    } else {
        let start = seconds * 1_000_000_000 + if nanos >= 1_000_000_000 {
            nanos - 1_000_000_000
        } else {
            nanos
        };
        ((start + span) / 1_000_000_000, (start + span) % 1_000_000_000)
    }
}

impl Timestamp {
    #[verifier::type_invariant]
    spec fn in_range(self) -> bool {
        is_instant(self.seconds as int, self.nanos as int)
    }

    pub closed spec fn unix_seconds(self) -> int {
        self.seconds as int
    }

    pub closed spec fn subsecond(self) -> int {
        self.nanos as int
    }

    /// A number that is the greater, the later the instant is.
    pub open spec fn rank(self) -> int {
        self.unix_seconds() * 2_000_000_000 + self.subsecond()
    }

    /// The second of the day.
    pub open spec fn second_of_day(self) -> int {
        self.unix_seconds() % 86_400
    }

    /// The nanoseconds from `earlier` until `self`; fewer than none where `earlier` is later. A
    /// leap second counts where the one instant lies in it, and the other has a later second of
    /// the day.
    pub open spec fn elapsed(self, earlier: Timestamp) -> int {
        let leap: int = if self.second_of_day() > earlier.second_of_day() && earlier.subsecond() >= 1_000_000_000 {
            1
        } else if self.second_of_day() < earlier.second_of_day() && self.subsecond() >= 1_000_000_000 {
            -1
        } else {
            0
        };
        (self.unix_seconds() - earlier.unix_seconds() + leap) * 1_000_000_000 + self.subsecond()
            - earlier.subsecond()
    }

    /// The whole seconds that passed from `earlier` until `self`; none where `earlier` is later.
    pub open spec fn since(self, earlier: Timestamp) -> int {
        if self.elapsed(earlier) < 0 {
            0
        } else {
            self.elapsed(earlier) / 1_000_000_000
        }
    }

    /// The instant at `seconds` and `nanos` past the Unix epoch, if it is one.
    pub fn from_unix(seconds: i64, nanos: u32) -> (result: Option<Timestamp>)
        ensures
            result is Some <==> is_instant(seconds as int, nanos as int),
            result matches Some(at) ==> at.unix_seconds() == seconds && at.subsecond() == nanos,
    {
        if !(FIRST_SECOND <= seconds && seconds <= LAST_SECOND) || nanos >= 2_000_000_000 {
            return None;
        }
        let minute: u64 = (seconds - FIRST_SECOND) as u64 % 60;
        if nanos >= 1_000_000_000 && minute != 59 {
            return None;
        }
        Some(Timestamp { seconds, nanos })
    }

    pub fn seconds(&self) -> (result: i64)
        ensures
            result == self.unix_seconds(),
            FIRST_SECOND <= result <= LAST_SECOND,
    {
        proof {
            use_type_invariant(self);
        }
        self.seconds
    }

    pub fn nanos(&self) -> (result: u32)
        ensures
            result == self.subsecond(),
            is_instant(self.unix_seconds(), result as int),
    {
        proof {
            use_type_invariant(self);
        }
        self.nanos
    }

    fn day_second(&self) -> (result: u64)
        ensures
            result == self.second_of_day(),
    {
        proof {
            use_type_invariant(self);
        }
        (self.seconds - FIRST_SECOND) as u64 % 86_400
    }

    /// The nanoseconds from `earlier` until `self`; fewer than none where `earlier` is later.
    pub fn elapsed_since(&self, earlier: &Timestamp) -> (result: i128)
        ensures
            result == self.elapsed(*earlier),
    {
        proof {
            use_type_invariant(self);
            use_type_invariant(earlier);
        }
        let mut whole: i64 = self.seconds - earlier.seconds;
        if self.day_second() > earlier.day_second() && earlier.nanos >= 1_000_000_000 {
            whole = whole + 1;
        } else if self.day_second() < earlier.day_second() && self.nanos >= 1_000_000_000 {
            whole = whole - 1;
        }
        whole as i128 * 1_000_000_000 + self.nanos as i128 - earlier.nanos as i128
    }

    /// The whole seconds that passed from `earlier` until `self`; none where `earlier` is later.
    pub fn seconds_since(&self, earlier: &Timestamp) -> (result: u64)
        ensures
            result == self.since(*earlier),
    {
        proof {
            use_type_invariant(self);
            use_type_invariant(earlier);
        }
        let elapsed: i128 = self.elapsed_since(earlier);
        if elapsed < 0 {
            0
        } else {
            (elapsed as u128 / 1_000_000_000) as u64
        }
    }

    /// Whether `self` is earlier than `other`.
    pub fn is_before(&self, other: &Timestamp) -> (result: bool)
        ensures
            result == (self.rank() < other.rank()),
    {
        proof {
            use_type_invariant(self);
            use_type_invariant(other);
        }
        self.seconds < other.seconds || (self.seconds == other.seconds && self.nanos < other.nanos)
    }

    /// A number that orders instants from the latest to the earliest.
    pub fn falling(&self) -> (result: i128)
        ensures
            result == -self.rank(),
    {
        proof {
            use_type_invariant(self);
        }
        -self.rising()
    }

    /// A number that orders instants from the earliest to the latest.
    pub fn rising(&self) -> (result: i128)
        ensures
            result == self.rank(),
            -0x1_0000_0000_0000_0000_0000 < result < 0x1_0000_0000_0000_0000_0000,
    {
        proof {
            use_type_invariant(self);
        }
        self.seconds as i128 * 2_000_000_000 + self.nanos as i128
    }

    /// The instant that many nanoseconds later, if there is one.
    pub fn later_by(&self, span: u128) -> (result: Option<Timestamp>)
        requires
            span <= LONGEST_DURATION,
        ensures
            result is Some <==> span <= LONGEST_SPAN && advanced(
                self.unix_seconds(),
                self.subsecond(),
                span as int,
            ).0 <= LAST_SECOND,
            result matches Some(at) ==> (at.unix_seconds(), at.subsecond()) == advanced(
                self.unix_seconds(),
                self.subsecond(),
                span as int,
            ),
    {
        proof {
            use_type_invariant(self);
        }
        match shifted(self.seconds, self.nanos, (span / 1_000_000_000) as u64, (span % 1_000_000_000) as u32) {
            Some((seconds, nanos)) => Timestamp::from_unix(seconds, nanos),
            None => None,
        }
    }

    /// The calendar year and month of the instant.
    pub fn year_and_month(&self) -> (result: (i32, u32))
        ensures
            lies_in_month(self.unix_seconds(), result.0 as int, result.1 as int),
    {
        proof {
            use_type_invariant(self);
        }
        month_of(self.seconds)
    }

    /// The instant as `YYYY-MM-DD HH:MM:SSZ`.
    pub fn describe(&self) -> (result: String)
        ensures
            result@ == utc_text(self.unix_seconds() as i64, self.subsecond() as u32, TO_THE_SECOND@),
    {
        proof {
            use_type_invariant(self);
        }
        written(self.seconds, self.nanos, TO_THE_SECOND)
    }

    /// The instant as `YYYY-MM-DD HH:MM:SS`.
    pub fn describe_plainly(&self) -> (result: String)
        ensures
            result@ == utc_text(self.unix_seconds() as i64, self.subsecond() as u32, TO_THE_PLAIN_SECOND@),
    {
        proof {
            use_type_invariant(self);
        }
        written(self.seconds, self.nanos, TO_THE_PLAIN_SECOND)
    }

    /// The instant as `YYYY-MM-DD HH:MM`.
    pub fn describe_minute(&self) -> (result: String)
        ensures
            result@ == utc_text(self.unix_seconds() as i64, self.subsecond() as u32, TO_THE_MINUTE@),
    {
        proof {
            use_type_invariant(self);
        }
        written(self.seconds, self.nanos, TO_THE_MINUTE)
    }

    /// The instant with all its digits, as chrono displays it.
    pub fn display(&self) -> (result: String)
        ensures
            result@ == utc_display(self.unix_seconds() as i64, self.subsecond() as u32),
    {
        proof {
            use_type_invariant(self);
        }
        displayed(self.seconds, self.nanos)
    }
}

/// `chrono::Utc::now`: the present instant, which nothing is said of.
#[verifier::external_body]
pub(crate) fn utc_now() -> (result: Timestamp)
{
    let now = chrono::Utc::now();
    Timestamp { seconds: now.timestamp(), nanos: now.timestamp_subsec_nanos() }
}

/// `chrono::DateTime::checked_add_signed` after `chrono::TimeDelta::from_std`: the sum in
/// seconds and nanoseconds, unless the span is longer than chrono counts or the sum is past
/// chrono's last second. A sum that leaves a leap second does not count it.
#[verifier::external_body]
fn shifted(seconds: i64, nanos: u32, span_seconds: u64, span_nanos: u32) -> (result: Option<(i64, u32)>)
    requires
        is_instant(seconds as int, nanos as int),
        span_nanos < 1_000_000_000,
    ensures
        (result is Some) == (span_seconds * 1_000_000_000 + span_nanos <= LONGEST_SPAN && advanced(
            seconds as int,
            nanos as int,
            span_seconds * 1_000_000_000 + span_nanos,
        ).0 <= LAST_SECOND),
        result matches Some((later, rest)) ==> (later as int, rest as int) == advanced(
            seconds as int,
            nanos as int,
            span_seconds * 1_000_000_000 + span_nanos,
        ),
{
    let at = chrono::DateTime::from_timestamp(seconds, nanos).unwrap();
    let delta = chrono::TimeDelta::from_std(std::time::Duration::new(span_seconds, span_nanos)).ok()?;
    let sum = at.checked_add_signed(delta)?;
    Some((sum.timestamp(), sum.timestamp_subsec_nanos()))
}

/// Whether a year of the Gregorian calendar has 366 days.
pub open spec fn is_leap_year(year: int) -> bool {
    (year % 4 == 0 && year % 100 != 0) || year % 400 == 0
}

/// The days from the first of January 1970 until the first of January of a year.
pub open spec fn first_day_of_year(year: int) -> int {
    365 * (year - 1970) + (year - 1) / 4 - (year - 1) / 100 + (year - 1) / 400 - 477
}

/// The days of a year before the first of a month.
pub open spec fn days_before_month(year: int, month: int) -> int {
    let leap: int = if is_leap_year(year) {
        1
    } else {
        0
    };
    if month <= 1 {
        0
    } else if month == 2 {
        31
    } else if month == 3 {
        59 + leap
    } else if month == 4 {
        90 + leap
    } else if month == 5 {
        120 + leap
    } else if month == 6 {
        151 + leap
    } else if month == 7 {
        181 + leap
    } else if month == 8 {
        212 + leap
    } else if month == 9 {
        243 + leap
    } else if month == 10 {
        273 + leap
    } else if month == 11 {
        304 + leap
    } else if month == 12 {
        334 + leap
    } else {
        365 + leap
    }
}

/// The days from the first of January 1970 until the first of a month.
pub open spec fn first_day(year: int, month: int) -> int {
    first_day_of_year(year) + days_before_month(year, month)
}

/// Whether a second lies in a month of the Gregorian calendar, in UTC.
pub open spec fn lies_in_month(seconds: int, year: int, month: int) -> bool {
    &&& 1 <= month <= 12
    &&& first_day(year, month) * 86_400 <= seconds < first_day(year, month + 1) * 86_400
}

/// Years follow one another without a gap.
proof fn lemma_years(year: int, later: int)
    requires
        year < later,
    ensures
        first_day(year, 13) == first_day_of_year(year + 1),
        first_day_of_year(year + 1) <= first_day_of_year(later),
{
}

/// A second lies in one month at most.
pub proof fn months_do_not_overlap(seconds: int, year: int, month: int, other_year: int, other_month: int)
    requires
        lies_in_month(seconds, year, month),
        lies_in_month(seconds, other_year, other_month),
    ensures
        year == other_year,
        month == other_month,
{
    if year < other_year {
        lemma_years(year, other_year);
    }
    if other_year < year {
        lemma_years(other_year, year);
    }
}

/// `chrono::Datelike::year` and `month` of the instant: the year of the Gregorian calendar, and
/// its month counted from 1, in which the second lies.
#[verifier::external_body]
fn month_of(seconds: i64) -> (result: (i32, u32))
    requires
        FIRST_SECOND <= seconds <= LAST_SECOND,
    ensures
        lies_in_month(seconds as int, result.0 as int, result.1 as int),
{
    let at = chrono::DateTime::from_timestamp(seconds, 0).unwrap();
    (at.year(), at.month())
}

/// An instant in UTC, written as a pattern of chrono says.
pub uninterp spec fn utc_text(seconds: i64, nanos: u32, pattern: Seq<char>) -> Seq<char>;

/// `chrono::DateTime::format` with one of the patterns above, and `to_string` of what it gives.
/// What it writes is not stated further than that the instant and the pattern decide it.
#[verifier::external_body]
fn written(seconds: i64, nanos: u32, pattern: &str) -> (result: String)
    requires
        is_instant(seconds as int, nanos as int),
        pattern@ == TO_THE_SECOND@ || pattern@ == TO_THE_PLAIN_SECOND@ || pattern@ == TO_THE_MINUTE@,
    ensures
        result@ == utc_text(seconds, nanos, pattern@),
{
    chrono::DateTime::from_timestamp(seconds, nanos).unwrap().format(pattern).to_string()
}

/// An instant as chrono displays it.
pub uninterp spec fn utc_display(seconds: i64, nanos: u32) -> Seq<char>;

/// `chrono::DateTime::to_string`, which writes what its `Display` does.
#[verifier::external_body]
fn displayed(seconds: i64, nanos: u32) -> (result: String)
    requires
        is_instant(seconds as int, nanos as int),
    ensures
        result@ == utc_display(seconds, nanos),
{
    chrono::DateTime::from_timestamp(seconds, nanos).unwrap().to_string()
}

/// Outside leap seconds time is counted in nanoseconds since the epoch, and the whole seconds that
/// passed are as many as fit in between.
pub proof fn time_passes_evenly(now: Timestamp, earlier: Timestamp)
    requires
        0 <= now.subsecond() < 1_000_000_000,
        0 <= earlier.subsecond() < 1_000_000_000,
    ensures
        now.elapsed(earlier) == (now.unix_seconds() * 1_000_000_000 + now.subsecond()) - (earlier.unix_seconds()
            * 1_000_000_000 + earlier.subsecond()),
        now.elapsed(earlier) == -earlier.elapsed(now),
        now.elapsed(earlier) < 0 ==> now.since(earlier) == 0,
        now.elapsed(earlier) >= 0 ==> now.since(earlier) * 1_000_000_000 <= now.elapsed(earlier) < (now.since(earlier)
            + 1) * 1_000_000_000,
        now.subsecond() == earlier.subsecond() && now.unix_seconds() >= earlier.unix_seconds() ==> now.since(earlier)
            == now.unix_seconds() - earlier.unix_seconds(),
        now.rank() < earlier.rank() <==> now.elapsed(earlier) < 0,
{
}

/// No time passes from an instant until itself.
pub proof fn no_time_passes_at_once(now: Timestamp)
    ensures
        now.elapsed(now) == 0,
        now.since(now) == 0,
{
}

/// Instants are ordered by their seconds, then by what is past them; different instants have
/// different places.
pub proof fn instants_are_ordered_by_second(a: Timestamp, b: Timestamp)
    requires
        0 <= a.subsecond() < 2_000_000_000,
        0 <= b.subsecond() < 2_000_000_000,
    ensures
        a.rank() < b.rank() <==> a.unix_seconds() < b.unix_seconds() || (a.unix_seconds() == b.unix_seconds()
            && a.subsecond() < b.subsecond()),
        a.rank() == b.rank() <==> a == b,
{
}

/// Going forward and back: an instant a span later than another lies that span after it, outside
/// leap seconds.
pub proof fn later_by_a_span_is_that_span_later(seconds: int, nanos: int, span: int)
    requires
        0 <= nanos < 1_000_000_000,
        0 <= span,
    ensures
        ({
            let (later, rest) = advanced(seconds, nanos, span);
            &&& later * 1_000_000_000 + rest == seconds * 1_000_000_000 + nanos + span
            &&& 0 <= rest < 1_000_000_000
        }),
{
}

/// A leap second counts where the earlier instant lies in it and the later one has a later second of
/// the day, or the other way round; then and only then a second more passes than the clock shows.
pub proof fn a_leap_second_counts(now: Timestamp, earlier: Timestamp)
    ensures
        ({
            let shown = (now.unix_seconds() * 1_000_000_000 + now.subsecond()) - (earlier.unix_seconds() * 1_000_000_000
                + earlier.subsecond());
            let after = now.second_of_day() > earlier.second_of_day() && earlier.subsecond() >= 1_000_000_000;
            let before = now.second_of_day() < earlier.second_of_day() && now.subsecond() >= 1_000_000_000;
            &&& after ==> now.elapsed(earlier) == shown + 1_000_000_000
            &&& before ==> now.elapsed(earlier) == shown - 1_000_000_000
            &&& !after && !before ==> now.elapsed(earlier) == shown
        }),
{
}

/// The months have the days of the calendar: February has 29 in a leap year, which is every fourth
/// year but for the centuries that 400 does not divide.
pub proof fn months_have_the_days_of_the_calendar(year: int, month: int)
    requires
        1 <= month <= 12,
    ensures
        ({
            let days = days_before_month(year, month + 1) - days_before_month(year, month);
            let leap = year % 4 == 0 && (year % 100 != 0 || year % 400 == 0);
            &&& month == 2 && leap ==> days == 29
            &&& month == 2 && !leap ==> days == 28
            &&& month == 4 || month == 6 || month == 9 || month == 11 ==> days == 30
            &&& month == 1 || month == 3 || month == 5 || month == 7 || month == 8 || month == 10 || month == 12
                ==> days == 31
        }),
{
    assert(year % 400 == 0 ==> year % 4 == 0);
}

proof fn lemma_one_year_more(year: int, n: int)
    requires
        n == 4 || n == 100 || n == 400,
    ensures
        year / n - (year - 1) / n == if year % n == 0 {
            1int
        } else {
            0
        },
{
}

/// A year has as many days as its months together, and 1970 begins at the epoch.
pub proof fn a_year_has_the_days_of_its_months(year: int)
    ensures
        first_day_of_year(year + 1) - first_day_of_year(year) == days_before_month(year, 13),
        days_before_month(year, 1) == 0,
        first_day_of_year(1970) == 0,
{
    lemma_one_year_more(year, 4);
    lemma_one_year_more(year, 100);
    lemma_one_year_more(year, 400);
    assert(year % 400 == 0 ==> year % 100 == 0);
    assert(year % 100 == 0 ==> year % 4 == 0);
}

} // verus!
