use vstd::prelude::*;
use vstd::arithmetic::div_mod::lemma_fundamental_div_mod_converse;
use crate::instant::{Era, Instant, NANOS_PER_SECOND, instant_cmp};
use core::cmp::Ordering;

verus! {

/// Seconds in one day.
pub const SECONDS_PER_DAY: u64 = 86400;

/// Seconds in a 365-day year.
pub const SECONDS_PER_USUAL_YEAR: u64 = 31536000;

/// The average month used to split a year remainder, 30.4365 days, in tenths
/// of a second.
pub const TENTHS_PER_AVERAGE_MONTH: u64 = 26297136;

/// Tenths of a second in one day.
pub const TENTHS_PER_DAY: u64 = 864000;

/// Reason a calendar value is refused.
#[derive(Clone, Copy, Debug, PartialEq, Eq, Structural)]
pub enum Errors {
    /// The fields would need carrying into the next unit; nothing is normalised.
    Carry,
}

/// Gregorian leap-year rule.
pub open spec fn leap_year(year: int) -> bool {
    (year % 4 == 0 && year % 100 != 0) || year % 400 == 0
}

/// Years whose January began right after a leap second inserted on December 31
/// of the year before.
pub open spec fn january_leap_year(year: int) -> bool {
    year == 1972 || year == 1973 || year == 1974 || year == 1975 || year == 1976
        || year == 1977 || year == 1978 || year == 1979 || year == 1980 || year == 1988
        || year == 1990 || year == 1991 || year == 1996 || year == 1999 || year == 2006
        || year == 2009 || year == 2017
}

/// Years whose July began right after a leap second inserted on June 30.
pub open spec fn july_leap_year(year: int) -> bool {
    year == 1972 || year == 1981 || year == 1982 || year == 1983 || year == 1985
        || year == 1992 || year == 1993 || year == 1994 || year == 1997 || year == 2012
        || year == 2015
}

/// Length of a month in a common year (`month` in 1..=12).
pub open spec fn usual_days_in_month(month: int) -> int {
    if month == 2 {
        28
    } else if month == 4 || month == 6 || month == 9 || month == 11 {
        30
    } else {
        31
    }
}

/// Days of a common year that precede the first day of `month`.
pub open spec fn usual_days_before_month(month: int) -> int
    decreases month,
{
    if month <= 1 {
        0
    } else {
        usual_days_before_month(month - 1) + usual_days_in_month(month - 1)
    }
}

/// Number of leap years `y` with `from <= y < to`.
pub open spec fn leap_years_between(from: int, to: int) -> int
    decreases to - from,
{
    if to <= from {
        0
    } else {
        leap_years_between(from, to - 1) + if leap_year(to - 1) { 1int } else { 0int }
    }
}

/// Largest second allowed at the given minute: 60 on the last minute of June 30
/// or December 31 when a leap second was inserted there, 59 otherwise.
pub open spec fn max_second(year: int, month: int, day: int, hour: int, minute: int) -> int {
    if hour == 23 && minute == 59 && ((month == 6 && day == 30 && july_leap_year(year)) || (
    month == 12 && day == 31 && january_leap_year(year + 1))) {
        60
    } else {
        59
    }
}

/// The fields form a calendar value that the constructor accepts.
pub open spec fn valid_fields(
    year: int,
    month: int,
    day: int,
    hour: int,
    minute: int,
    second: int,
    nanos: int,
) -> bool {
    &&& 1 <= month <= 12
    &&& 1 <= day <= 31
    &&& 0 <= hour <= 24
    &&& 0 <= minute <= 59
    &&& 0 <= second <= max_second(year, month, day, hour, minute)
    &&& 0 <= nanos < NANOS_PER_SECOND
    &&& (day <= usual_days_in_month(month) || (month == 2 && day == 29 && leap_year(year)))
}

/// Length of `month` in `year`, leap day included.
pub open spec fn days_in_month(year: int, month: int) -> int {
    if month == 2 && leap_year(year) {
        29
    } else {
        usual_days_in_month(month)
    }
}

/// Gregorian leap-year rule.
pub fn is_leap_year(year: i32) -> (r: bool)
    ensures
        r == leap_year(year as int),
{
    // Moving the year by a multiple of 400 keeps the rule and makes it non-negative.
    let shifted: u64 = (year as i64 + 2147484000) as u64;
    assert(shifted as int % 4 == year as int % 4);
    assert(shifted as int % 100 == year as int % 100);
    assert(shifted as int % 400 == year as int % 400);
    (shifted % 4 == 0 && shifted % 100 != 0) || shifted % 400 == 0
}

/// Whether a leap second was inserted right before January 1 of `year`.
fn is_january_leap_year(year: i64) -> (r: bool)
    ensures
        r == january_leap_year(year as int),
{
    year == 1972 || year == 1973 || year == 1974 || year == 1975 || year == 1976
        || year == 1977 || year == 1978 || year == 1979 || year == 1980 || year == 1988
        || year == 1990 || year == 1991 || year == 1996 || year == 1999 || year == 2006
        || year == 2009 || year == 2017
}

/// Whether a leap second was inserted right before July 1 of `year`.
fn is_july_leap_year(year: i32) -> (r: bool)
    ensures
        r == july_leap_year(year as int),
{
    year == 1972 || year == 1981 || year == 1982 || year == 1983 || year == 1985
        || year == 1992 || year == 1993 || year == 1994 || year == 1997 || year == 2012
        || year == 2015
}

/// Length of a month in a common year.
fn usual_month_length(month: u8) -> (r: u8)
    requires
        1 <= month <= 12,
    ensures
        r == usual_days_in_month(month as int),
{
    if month == 2 {
        28
    } else if month == 4 || month == 6 || month == 9 || month == 11 {
        30
    } else {
        31
    }
}

/// Floored division with remainder of a non-negative numerator by a positive
/// denominator.
pub fn quorem(numerator: u64, denominator: u64) -> (r: (u64, u64))
    requires
        denominator > 0,
    ensures
        r.0 == numerator / denominator,
        r.1 == numerator % denominator,
        denominator * r.0 + r.1 == numerator,
        r.1 < denominator,
{
    let q = numerator / denominator;
    let m = numerator % denominator;
    proof {
        vstd::arithmetic::div_mod::lemma_fundamental_div_mod(numerator as int, denominator as int);
    }
    (q, m)
}

/// A calendar value in UTC. Build it with [`Utc::new`], which checks the
/// bounds and the leap seconds; `is_valid` states what it checks.
///
/// The derived field-wise order (`<` on `Utc`) is calendar order. It may
/// disagree with the order of the corresponding instants near a leap second.
#[derive(Clone, Copy, Debug, PartialEq, Eq, Structural)]
pub struct Utc {
    pub year: i32,
    pub month: u8,
    pub day: u8,
    pub hour: u8,
    pub minute: u8,
    pub second: u8,
    pub nanos: u32,
}

/// Offset of a time zone from UTC: a magnitude and a direction.
#[derive(Clone, Copy, Debug, PartialEq, Eq, Structural)]
pub struct Offset {
    pub hours: u64,
    pub minutes: u64,
    pub era: Era,
}

/// Era of a calendar year: at or after 1900 is `Present`.
pub open spec fn era_of_year(year: int) -> Era {
    if year >= 1900 {
        Era::Present
    } else {
        Era::Past
    }
}

/// Seconds that `as_instant` assigns to a calendar value: 365-day years from
/// 1900 (as a magnitude), one day per leap year from 1900 up to the year, the
/// months and days before the date, the time of day; a second of 60 counts
/// as 59.
pub open spec fn instant_seconds(u: Utc) -> int {
    let year = u.year as int;
    let years = if year >= 1900 { year - 1900 } else { 1900 - year };
    let leap_day = if leap_year(year) && ((u.month == 2 && u.day == 29) || u.month > 2) {
        1int
    } else {
        0int
    };
    let total = years * SECONDS_PER_USUAL_YEAR + SECONDS_PER_DAY * leap_years_between(1900, year)
        + SECONDS_PER_DAY * usual_days_before_month(u.month as int) + SECONDS_PER_DAY * leap_day
        + SECONDS_PER_DAY * (u.day - 1) + 3600 * u.hour + 60 * u.minute + u.second;
    if u.second == 60 {
        total - 1
    } else {
        total
    }
}

/// The instant of a calendar value.
pub open spec fn instant_of(u: Utc) -> Instant {
    Instant { seconds: instant_seconds(u) as u64, nanos: u.nanos, era: era_of_year(u.year as int) }
}

/// Counting leap years over a range gives at most its length.
proof fn lemma_leap_years_between_bounds(from: int, to: int)
    ensures
        0 <= leap_years_between(from, to),
        from <= to ==> leap_years_between(from, to) <= to - from,
    decreases to - from,
{
    if from < to {
        lemma_leap_years_between_bounds(from, to - 1);
    }
}

/// The days before a month never exceed a common year.
proof fn lemma_days_before_month_bounds(month: int)
    requires
        1 <= month <= 12,
    ensures
        0 <= usual_days_before_month(month) <= 334,
        usual_days_before_month(month) + usual_days_in_month(month) <= 365,
    decreases month,
{
    if month > 1 {
        lemma_days_before_month_bounds(month - 1);
    }
    reveal_with_fuel(usual_days_before_month, 12);
}

/// Whole 365-day years in an instant's magnitude.
pub open spec fn decomposed_year_offset(i: Instant) -> int {
    i.seconds as int / SECONDS_PER_USUAL_YEAR as int
}

/// Calendar year of the decomposition: the offset counted back from 1900 in
/// the past era, forward otherwise.
pub open spec fn decomposed_year(i: Instant) -> int {
    match i.era {
        Era::Past => 1900 - decomposed_year_offset(i),
        Era::Present => 1900 + decomposed_year_offset(i),
    }
}

/// What remains of the year, in tenths of a second.
pub open spec fn year_rest_tenths(i: Instant) -> int {
    10 * (i.seconds as int % SECONDS_PER_USUAL_YEAR as int)
}

/// Month of the decomposition: whole average months (30.4365 days) in the
/// rest of the year, plus one.
pub open spec fn decomposed_month(i: Instant) -> int {
    year_rest_tenths(i) / TENTHS_PER_AVERAGE_MONTH as int + 1
}

/// What remains after the whole average months, in tenths of a second.
pub open spec fn month_rest_tenths(i: Instant) -> int {
    year_rest_tenths(i) % TENTHS_PER_AVERAGE_MONTH as int
}

/// Length of the decomposed month in tenths of a second.
pub open spec fn month_length_tenths(i: Instant) -> int {
    TENTHS_PER_DAY * days_in_month(decomposed_year(i), decomposed_month(i))
}

/// Day of the decomposition: whole month lengths in the month rest, plus one.
pub open spec fn decomposed_day(i: Instant) -> int {
    month_rest_tenths(i) / month_length_tenths(i) + 1
}

/// What remains after the whole month lengths, in tenths of a second.
pub open spec fn day_rest_tenths(i: Instant) -> int {
    month_rest_tenths(i) % month_length_tenths(i)
}

/// Hour of the decomposition.
pub open spec fn decomposed_hour(i: Instant) -> int {
    day_rest_tenths(i) / 36000
}

/// Minute of the decomposition.
pub open spec fn decomposed_minute(i: Instant) -> int {
    (day_rest_tenths(i) % 36000) / 600
}

/// Second of the decomposition, the fraction dropped.
pub open spec fn decomposed_second(i: Instant) -> int {
    (day_rest_tenths(i) % 600) / 10
}

/// The decomposition of an instant is a calendar value that `Utc::new`
/// accepts, with a year that fits in an `i32`.
pub open spec fn decomposes(i: Instant) -> bool {
    &&& i32::MIN <= decomposed_year(i) <= i32::MAX
    &&& valid_fields(
        decomposed_year(i),
        decomposed_month(i),
        decomposed_day(i),
        decomposed_hour(i),
        decomposed_minute(i),
        decomposed_second(i),
        i.nanos as int,
    )
}

/// Calendar order: field-wise, from the year down to the nanoseconds.
pub open spec fn calendar_before(a: Utc, b: Utc) -> bool {
    ||| a.year < b.year
    ||| a.year == b.year && a.month < b.month
    ||| a.year == b.year && a.month == b.month && a.day < b.day
    ||| a.year == b.year && a.month == b.month && a.day == b.day && a.hour < b.hour
    ||| a.year == b.year && a.month == b.month && a.day == b.day && a.hour == b.hour && a.minute
        < b.minute
    ||| a.year == b.year && a.month == b.month && a.day == b.day && a.hour == b.hour && a.minute
        == b.minute && a.second < b.second
    ||| a.year == b.year && a.month == b.month && a.day == b.day && a.hour == b.hour && a.minute
        == b.minute && a.second == b.second && a.nanos < b.nanos
}

/// The seconds of a valid calendar value fit comfortably in a `u64`.
proof fn lemma_instant_seconds_bounds(u: Utc)
    requires
        u.is_valid(),
    ensures
        0 <= instant_seconds(u) <= 0x7000_0000_0000_0000,
{
    let y = u.year as int;
    let years = if y >= 1900 { y - 1900 } else { 1900 - y };
    lemma_leap_years_between_bounds(1900, y);
    lemma_days_before_month_bounds(u.month as int);
    assert(0 <= years * SECONDS_PER_USUAL_YEAR <= 2147485548 * SECONDS_PER_USUAL_YEAR)
        by (nonlinear_arith)
        requires
            0 <= years <= 2147485548,
    ;
    assert(leap_years_between(1900, y) <= years);
}

/// Calendar comparison of two values.
pub open spec fn calendar_cmp(a: Utc, b: Utc) -> Ordering {
    if calendar_before(a, b) {
        Ordering::Less
    } else if a == b {
        Ordering::Equal
    } else {
        Ordering::Greater
    }
}

/// Compares two integers.
fn cmp_i64(a: i64, b: i64) -> (r: Ordering)
    ensures
        r == (if a < b {
            Ordering::Less
        } else if a == b {
            Ordering::Equal
        } else {
            Ordering::Greater
        }),
{
    if a < b {
        Ordering::Less
    } else if a == b {
        Ordering::Equal
    } else {
        Ordering::Greater
    }
}

/// Calendar order: field-wise from the year down to the nanoseconds. Near a
/// leap second it may disagree with the order of the instants.
impl PartialOrd for Utc {
    fn partial_cmp(&self, other: &Utc) -> (r: Option<Ordering>) {
        let c = cmp_i64(self.year as i64, other.year as i64);
        if !matches!(c, Ordering::Equal) {
            return Some(c);
        }
        let c = cmp_i64(self.month as i64, other.month as i64);
        if !matches!(c, Ordering::Equal) {
            return Some(c);
        }
        let c = cmp_i64(self.day as i64, other.day as i64);
        if !matches!(c, Ordering::Equal) {
            return Some(c);
        }
        let c = cmp_i64(self.hour as i64, other.hour as i64);
        if !matches!(c, Ordering::Equal) {
            return Some(c);
        }
        let c = cmp_i64(self.minute as i64, other.minute as i64);
        if !matches!(c, Ordering::Equal) {
            return Some(c);
        }
        let c = cmp_i64(self.second as i64, other.second as i64);
        if !matches!(c, Ordering::Equal) {
            return Some(c);
        }
        Some(cmp_i64(self.nanos as i64, other.nanos as i64))
    }
}

impl vstd::std_specs::cmp::PartialOrdSpecImpl for Utc {
    open spec fn obeys_partial_cmp_spec() -> bool {
        true
    }

    open spec fn partial_cmp_spec(&self, other: &Utc) -> Option<Ordering> {
        Some(calendar_cmp(*self, *other))
    }
}

/// The first moment after a leap second: July 1 after June 30, January 1 of
/// the next year after December 31.
pub open spec fn after_leap_second(u: Utc) -> Utc {
    if u.month == 6 {
        Utc { year: u.year, month: 7, day: 1, hour: 0, minute: 0, second: 0, nanos: u.nanos }
    } else {
        Utc {
            year: (u.year + 1) as i32,
            month: 1,
            day: 1,
            hour: 0,
            minute: 0,
            second: 0,
            nanos: u.nanos,
        }
    }
}

/// Around a leap second `23:59:60`: the calendar orders `23:59:59`, the leap
/// second and the next midnight one after the other; on the instant timescale
/// the leap second has the instant of `23:59:59`, and the next midnight comes
/// exactly one second after it. All three are valid calendar values.
pub proof fn lemma_leap_second_instants(u: Utc)
    requires
        u.is_valid(),
        u.second == 60,
    ensures
        (Utc { second: 59, ..u }).is_valid(),
        after_leap_second(u).is_valid(),
        calendar_before(Utc { second: 59, ..u }, u),
        calendar_before(u, after_leap_second(u)),
        instant_seconds(u) == instant_seconds(Utc { second: 59, ..u }),
        instant_seconds(after_leap_second(u)) == instant_seconds(u) + 1,
        instant_of(u) == instant_of(Utc { second: 59, ..u }),
        instant_cmp(instant_of(u), instant_of(after_leap_second(u))) == Ordering::Less,
        instant_of(after_leap_second(u)).seconds == instant_of(u).seconds + 1,
{
    reveal_with_fuel(usual_days_before_month, 13);
    lemma_instant_seconds_bounds(u);
    lemma_instant_seconds_bounds(after_leap_second(u));
    let y = u.year as int;
    assert(leap_years_between(1900, y + 1) == leap_years_between(1900, y) + if leap_year(y) {
        1int
    } else {
        0int
    });
}

/// Converting a calendar value to an instant and back gives it again, for the
/// values on which the approximate decomposition is exact: January 1 of a year
/// up to 1904, before any leap day has been counted. Elsewhere the leap days
/// and the average month length shift the decomposition.
pub proof fn lemma_round_trip(u: Utc)
    requires
        u.is_valid(),
        u.second != 60,
        u.month == 1,
        u.day == 1,
        u.year <= 1904,
    ensures
        decomposes(instant_of(u)),
        decomposed_year(instant_of(u)) == u.year,
        decomposed_month(instant_of(u)) == u.month,
        decomposed_day(instant_of(u)) == u.day,
        decomposed_hour(instant_of(u)) == u.hour,
        decomposed_minute(instant_of(u)) == u.minute,
        decomposed_second(instant_of(u)) == u.second,
        instant_of(u).nanos == u.nanos,
{
    let y = u.year as int;
    let k: int = if y >= 1900 { y - 1900 } else { 1900 - y };
    let t: int = 3600 * u.hour + 60 * u.minute + u.second;
    reveal_with_fuel(leap_years_between, 6);
    assert(leap_years_between(1900, y) == 0);
    assert(usual_days_before_month(1) == 0);
    assert(instant_seconds(u) == k * SECONDS_PER_USUAL_YEAR + t);
    assert(0 <= k * SECONDS_PER_USUAL_YEAR <= 2147485548 * SECONDS_PER_USUAL_YEAR)
        by (nonlinear_arith)
        requires
            0 <= k <= 2147485548,
    ;
    let i = instant_of(u);
    assert(i.seconds == k * SECONDS_PER_USUAL_YEAR + t);
    lemma_fundamental_div_mod_converse(i.seconds as int, SECONDS_PER_USUAL_YEAR as int, k, t);
    assert(decomposed_year_offset(i) == k);
    assert(year_rest_tenths(i) == 10 * t);
    lemma_fundamental_div_mod_converse(10 * t, TENTHS_PER_AVERAGE_MONTH as int, 0, 10 * t);
    assert(decomposed_month(i) == 1);
    assert(month_rest_tenths(i) == 10 * t);
    assert(month_length_tenths(i) == 26784000);
    lemma_fundamental_div_mod_converse(10 * t, 26784000, 0, 10 * t);
    assert(day_rest_tenths(i) == 10 * t);
    lemma_fundamental_div_mod_converse(
        10 * t,
        36000,
        u.hour as int,
        600 * u.minute + 10 * u.second,
    );
    lemma_fundamental_div_mod_converse(
        600 * u.minute + 10 * u.second,
        600,
        u.minute as int,
        10 * u.second,
    );
    lemma_fundamental_div_mod_converse(
        10 * t,
        600,
        60 * u.hour + u.minute,
        10 * u.second,
    );
    lemma_fundamental_div_mod_converse(10 * u.second, 10, u.second as int, 0);
}

impl Utc {
    /// The fields form a value that `new` accepts.
    pub open spec fn is_valid(self) -> bool {
        valid_fields(
            self.year as int,
            self.month as int,
            self.day as int,
            self.hour as int,
            self.minute as int,
            self.second as int,
            self.nanos as int,
        )
    }

    /// Offset of this zone from UTC: zero.
    pub fn utc_offset() -> (r: Offset)
        ensures
            r == (Offset { hours: 0, minutes: 0, era: Era::Present }),
    {
        Offset { hours: 0, minutes: 0, era: Era::Present }
    }

    /// Checks the fields and builds the value; nothing is carried into the
    /// next unit. A second of 60 is accepted only on the last minute of June 30
    /// or December 31 when a leap second was inserted there.
    pub fn new(
        year: i32,
        month: u8,
        day: u8,
        hour: u8,
        minute: u8,
        second: u8,
        nanos: u32,
    ) -> (r: Result<Utc, Errors>)
        ensures
            valid_fields(
                year as int,
                month as int,
                day as int,
                hour as int,
                minute as int,
                second as int,
                nanos as int,
            ) ==> r == Ok::<Utc, Errors>(Utc { year, month, day, hour, minute, second, nanos }),
            !valid_fields(
                year as int,
                month as int,
                day as int,
                hour as int,
                minute as int,
                second as int,
                nanos as int,
            ) ==> r == Err::<Utc, Errors>(Errors::Carry),
    {
        let mut max_seconds: u8 = 59;
        if hour == 23 && minute == 59 {
            if (month == 6 && day == 30 && is_july_leap_year(year)) || (month == 12 && day == 31
                && is_january_leap_year(year as i64 + 1)) {
                max_seconds = 60;
            }
        }
        if month == 0 || month > 12 || day == 0 || day > 31 || hour > 24 || minute > 59 || second
            > max_seconds || nanos >= NANOS_PER_SECOND {
            return Err(Errors::Carry);
        }
        if day > usual_month_length(month) {
            if month != 2 || day != 29 || !is_leap_year(year) {
                return Err(Errors::Carry);
            }
        }
        Ok(Utc { year, month, day, hour, minute, second, nanos })
    }
    /// The instant of this calendar value on the uniform timescale. The
    /// leap second `23:59:60` gets the same instant as `23:59:59`, and the
    /// following `00:00:00` comes one second later.
    pub fn as_instant(self) -> (r: Instant)
        requires
            self.is_valid(),
        ensures
            r == instant_of(self),
            r.seconds == instant_seconds(self),
            r.wf(),
    {
        let era = if self.year >= 1900 { Era::Present } else { Era::Past };
        let years: u64 = if self.year >= 1900 {
            (self.year as i64 - 1900) as u64
        } else {
            (1900 - self.year as i64) as u64
        };
        assert(years <= 2147485548);
        assert(years * SECONDS_PER_USUAL_YEAR <= 2147485548 * SECONDS_PER_USUAL_YEAR)
            by (nonlinear_arith)
            requires
                years <= 2147485548,
        ;
        let mut seconds: u64 = years * SECONDS_PER_USUAL_YEAR;
        // One extra day for every leap year from 1900 up to, not including, this year.
        let mut y: i32 = 1900;
        let mut leap_days: u64 = 0;
        while y < self.year
            invariant
                1900 <= y <= self.year || (y == 1900 && self.year < 1900),
                leap_days == leap_years_between(1900, y as int),
                leap_days <= y - 1900,
            decreases self.year - y,
        {
            if is_leap_year(y) {
                leap_days = leap_days + 1;
            }
            y = y + 1;
        }
        proof {
            lemma_leap_years_between_bounds(1900, self.year as int);
        }
        seconds = seconds + leap_days * SECONDS_PER_DAY;
        // The months of this year before this month.
        let mut m: u8 = 1;
        let mut month_days: u64 = 0;
        while m < self.month
            invariant
                1 <= m <= self.month <= 12,
                month_days == usual_days_before_month(m as int),
            decreases self.month - m,
        {
            proof {
                lemma_days_before_month_bounds(m as int);
            }
            month_days = month_days + usual_month_length(m) as u64;
            m = m + 1;
        }
        proof {
            lemma_days_before_month_bounds(self.month as int);
        }
        seconds = seconds + month_days * SECONDS_PER_DAY;
        if is_leap_year(self.year) && ((self.month == 2 && self.day == 29) || self.month > 2) {
            seconds = seconds + SECONDS_PER_DAY;
        }
        seconds = seconds + (self.day as u64 - 1) * SECONDS_PER_DAY + self.hour as u64 * 3600
            + self.minute as u64 * 60 + self.second as u64;
        if self.second == 60 {
            seconds = seconds - 1;
        }
        Instant { seconds, nanos: self.nanos, era }
    }
    /// The calendar value of an instant, found by splitting its magnitude into
    /// 365-day years, average months of 30.4365 days, month lengths, hours,
    /// minutes and seconds, then checked by `new`. Instants whose
    /// decomposition `new` refuses are outside the domain.
    pub fn from_instant(instant: Instant) -> (r: Utc)
        requires
            decomposes(instant),
        ensures
            r.year == decomposed_year(instant),
            r.month == decomposed_month(instant),
            r.day == decomposed_day(instant),
            r.hour == decomposed_hour(instant),
            r.minute == decomposed_minute(instant),
            r.second == decomposed_second(instant),
            r.nanos == instant.nanos,
            r.is_valid(),
    {
        let (year_offset, year_rest) = quorem(instant.seconds, SECONDS_PER_USUAL_YEAR);
        let year: i32 = match instant.era {
            Era::Past => (1900 - year_offset as i64) as i32,
            Era::Present => (1900 + year_offset as i64) as i32,
        };
        let (month_index, month_rest) = quorem(year_rest * 10, TENTHS_PER_AVERAGE_MONTH);
        assert(month_index <= 11);
        let month: u8 = month_index as u8 + 1;
        let mut days_this_month: u64 = usual_month_length(month) as u64;
        if month == 2 && is_leap_year(year) {
            days_this_month = days_this_month + 1;
        }
        let (day_index, day_rest) = quorem(month_rest, TENTHS_PER_DAY * days_this_month);
        let (hours, hour_rest) = quorem(day_rest, 36000);
        let (minutes, minute_rest) = quorem(hour_rest, 600);
        let (seconds, _) = quorem(minute_rest, 10);
        proof {
            assert(month_rest_tenths(instant) == month_rest);
            assert(day_rest_tenths(instant) == day_rest);
            assert(day_rest % 600 == hour_rest % 600) by (nonlinear_arith)
                requires
                    hour_rest == day_rest % 36000,
            {
                vstd::arithmetic::div_mod::lemma_mod_mod(day_rest as int, 600, 60);
            }
        }
        match Utc::new(
            year,
            month,
            day_index as u8 + 1,
            hours as u8,
            minutes as u8,
            seconds as u8,
            instant.nanos,
        ) {
            Ok(u) => u,
            Err(_) => vstd::pervasive::unreached(),
        }
    }
}

} // verus!
