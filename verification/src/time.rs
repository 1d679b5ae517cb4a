//! Plain-value calendar types: dates, times of day, date-times and signed
//! durations, with nanosecond precision over the proleptic Gregorian calendar.
//! Calendar arithmetic that chrono provides is handed to chrono.

use vstd::prelude::*;
use chrono::{Datelike, Timelike};

verus! {

/// Nanoseconds in one second.
pub open spec fn nanos_per_sec() -> int {
    1_000_000_000
}

/// Nanoseconds in one day.
pub open spec fn nanos_per_day() -> int {
    86_400_000_000_000
}

/// The day number (January 1 of year 1 is day 1) of the earliest representable date,
/// January 1 of 262144 BCE.
pub const MIN_DAYS: i32 = -95_746_129;

/// The day number of the latest representable date, December 31 of 262142 CE.
pub const MAX_DAYS: i32 = 95_745_399;

/// The largest number of whole seconds a duration may hold (either sign).
pub const MAX_DELTA_SECS: i64 = 9_223_372_036_854_775;

/// The earliest representable instant, in nanoseconds since the start of day 0.
pub open spec fn min_instant() -> int {
    MIN_DAYS * nanos_per_day()
}

/// The latest representable instant, in nanoseconds since the start of day 0.
pub open spec fn max_instant() -> int {
    MAX_DAYS * nanos_per_day() + nanos_per_day() - 1
}

/// Whether an instant lies in the representable range.
pub open spec fn instant_in_range(t: int) -> bool {
    min_instant() <= t <= max_instant()
}

/// Whether a number of nanoseconds is a representable duration: at most
/// `i64::MAX` milliseconds in either direction.
pub open spec fn delta_in_range(t: int) -> bool {
    -(i64::MAX as int) * 1_000_000 <= t <= (i64::MAX as int) * 1_000_000
}

/// A day of the week.
#[derive(Clone, Copy, Debug, PartialEq, Eq, Structural, Hash)]
pub enum Weekday {
    Mon,
    Tue,
    Wed,
    Thu,
    Fri,
    Sat,
    Sun,
}

/// The weekday with the given number of days since Monday (taken modulo 7).
pub open spec fn weekday_from_monday(n: int) -> Weekday {
    let k = n % 7;
    if k == 0 {
        Weekday::Mon
    } else if k == 1 {
        Weekday::Tue
    } else if k == 2 {
        Weekday::Wed
    } else if k == 3 {
        Weekday::Thu
    } else if k == 4 {
        Weekday::Fri
    } else if k == 5 {
        Weekday::Sat
    } else {
        Weekday::Sun
    }
}

/// The weekday of a day number: day 1 (January 1 of year 1) is a Monday.
pub open spec fn weekday_of_day_number(days: int) -> Weekday {
    weekday_from_monday(days - 1)
}

/// A number of days, as used to move a date forward.
#[derive(Clone, Copy, Debug, PartialEq, Eq, Structural, Hash, PartialOrd, Ord)]
pub struct Days {
    num: u64,
}

impl View for Days {
    type V = u64;

    closed spec fn view(&self) -> u64 {
        self.num
    }
}

impl Days {
    /// A number of days.
    pub fn new(num: u64) -> (r: Days)
        ensures
            r@ == num,
    {
        Days { num }
    }
}

/// A signed duration with nanosecond precision, at most `i64::MAX`
/// milliseconds long in either direction.
#[derive(Clone, Copy, Debug, PartialEq, Eq, Structural, Hash, PartialOrd, Ord)]
pub struct TimeDelta {
    secs: i64,
    nanos: i32,
}

impl TimeDelta {
    #[verifier::type_invariant]
    spec fn inv(self) -> bool {
        &&& 0 <= self.nanos < 1_000_000_000
        &&& delta_in_range(self.secs * nanos_per_sec() + self.nanos)
    }
}

impl View for TimeDelta {
    type V = int;

    /// The duration in nanoseconds.
    closed spec fn view(&self) -> int {
        self.secs * nanos_per_sec() + self.nanos
    }
}

impl TimeDelta {
    /// The duration as a number of nanoseconds.
    pub fn num_nanoseconds(&self) -> (r: i128)
        ensures
            r == self@,
            delta_in_range(r as int),
    {
        proof { use_type_invariant(self); }
        self.secs as i128 * 1_000_000_000 + self.nanos as i128
    }

    /// A duration of `seconds` seconds, or `None` when it is out of range.
    pub fn try_seconds(seconds: i64) -> (r: Option<TimeDelta>)
        ensures
            r is Some <==> delta_in_range(seconds * nanos_per_sec()),
            r matches Some(d) ==> d@ == seconds * nanos_per_sec(),
    {
        if -MAX_DELTA_SECS <= seconds && seconds <= MAX_DELTA_SECS {
            Some(TimeDelta { secs: seconds, nanos: 0 })
        } else {
            None
        }
    }

    /// A duration of `minutes` minutes, or `None` when it is out of range.
    pub fn try_minutes(minutes: i64) -> (r: Option<TimeDelta>)
        ensures
            r is Some <==> delta_in_range(minutes * 60 * nanos_per_sec()),
            r matches Some(d) ==> d@ == minutes * 60 * nanos_per_sec(),
    {
        match minutes.checked_mul(60) {
            Some(s) => TimeDelta::try_seconds(s),
            None => None,
        }
    }

    /// A duration of `hours` hours, or `None` when it is out of range.
    pub fn try_hours(hours: i64) -> (r: Option<TimeDelta>)
        ensures
            r is Some <==> delta_in_range(hours * 3600 * nanos_per_sec()),
            r matches Some(d) ==> d@ == hours * 3600 * nanos_per_sec(),
    {
        match hours.checked_mul(3600) {
            Some(s) => TimeDelta::try_seconds(s),
            None => None,
        }
    }

    /// A duration of `seconds` seconds.
    pub fn seconds(seconds: i64) -> (r: TimeDelta)
        requires
            delta_in_range(seconds * nanos_per_sec()),
        ensures
            r@ == seconds * nanos_per_sec(),
    {
        TimeDelta::try_seconds(seconds).unwrap()
    }

    /// A duration of `minutes` minutes.
    pub fn minutes(minutes: i64) -> (r: TimeDelta)
        requires
            delta_in_range(minutes * 60 * nanos_per_sec()),
        ensures
            r@ == minutes * 60 * nanos_per_sec(),
    {
        TimeDelta::try_minutes(minutes).unwrap()
    }

    /// A duration of `hours` hours.
    pub fn hours(hours: i64) -> (r: TimeDelta)
        requires
            delta_in_range(hours * 3600 * nanos_per_sec()),
        ensures
            r@ == hours * 3600 * nanos_per_sec(),
    {
        TimeDelta::try_hours(hours).unwrap()
    }
}

/// A calendar date, held as its day number (January 1 of year 1 is day 1).
#[derive(Clone, Copy, Debug, PartialEq, Eq, Structural, Hash, PartialOrd, Ord)]
pub struct NaiveDate {
    days: i32,
}

impl NaiveDate {
    #[verifier::type_invariant]
    spec fn inv(self) -> bool {
        MIN_DAYS <= self.days <= MAX_DAYS
    }
}

impl View for NaiveDate {
    type V = int;

    /// The day number.
    closed spec fn view(&self) -> int {
        self.days as int
    }
}

/// The earliest representable year (262144 BCE).
pub const MIN_YEAR: i32 = -262_143;

/// The latest representable year.
pub const MAX_YEAR: i32 = 262_142;

/// Whether a year of the proleptic Gregorian calendar is a leap year (year 0
/// is 1 BCE, and a leap year).
pub open spec fn is_leap_year(year: int) -> bool {
    year % 4 == 0 && (year % 100 != 0 || year % 400 == 0)
}

/// The number of days of a month (1 to 12) of a year.
pub open spec fn days_in_month(year: int, month: int) -> int {
    if month == 2 {
        if is_leap_year(year) {
            29
        } else {
            28
        }
    } else if month == 4 || month == 6 || month == 9 || month == 11 {
        30
    } else {
        31
    }
}

/// The number of days of a year before the first of a month.
pub open spec fn days_before_month(year: int, month: int) -> int
    decreases month,
{
    if month <= 1 {
        0
    } else {
        days_before_month(year, month - 1) + days_in_month(year, month - 1)
    }
}

/// The day number of a calendar date: January 1 of year 1 is day 1.
pub open spec fn day_number(year: int, month: int, day: int) -> int {
    let p = year - 1;
    365 * p + p / 4 - p / 100 + p / 400 + days_before_month(year, month) + day
}

/// The day number of a year, month and day of the proleptic Gregorian
/// calendar, or `None` when there is no such date or its year is out of range.
pub open spec fn civil_day_number(year: i32, month: u32, day: u32) -> Option<int> {
    if MIN_YEAR <= year <= MAX_YEAR && 1 <= month <= 12 && 1 <= day <= days_in_month(
        year as int,
        month as int,
    ) {
        Some(day_number(year as int, month as int, day as int))
    } else {
        None
    }
}

/// Calls chrono's `NaiveDate::from_ymd_opt` and reads the day number of the
/// date it gives (`Datelike::num_days_from_ce`). Claimed: it succeeds exactly
/// for an existing date of a representable year, and the day number counts
/// from January 1 of year 1 as day 1 in the proleptic Gregorian calendar.
#[verifier::external_body]
fn chrono_from_ymd(year: i32, month: u32, day: u32) -> (r: Option<NaiveDate>)
    ensures
        civil_day_number(year, month, day) == (match r {
            Some(d) => Some(d@),
            None => None,
        }),
{
    match chrono::NaiveDate::from_ymd_opt(year, month, day) {
        Some(d) => Some(NaiveDate { days: d.num_days_from_ce() }),
        None => None,
    }
}

/// Calls chrono's `Datelike::weekday` on the date with the given day number.
/// Claimed: the weekday counts on from Monday, January 1 of year 1.
#[verifier::external_body]
fn chrono_weekday(days: i32) -> (r: Weekday)
    requires
        MIN_DAYS <= days <= MAX_DAYS,
    ensures
        r == weekday_of_day_number(days as int),
{
    match chrono::NaiveDate::from_num_days_from_ce_opt(days).unwrap().weekday() {
        chrono::Weekday::Mon => Weekday::Mon,
        chrono::Weekday::Tue => Weekday::Tue,
        chrono::Weekday::Wed => Weekday::Wed,
        chrono::Weekday::Thu => Weekday::Thu,
        chrono::Weekday::Fri => Weekday::Fri,
        chrono::Weekday::Sat => Weekday::Sat,
        chrono::Weekday::Sun => Weekday::Sun,
    }
}

impl NaiveDate {
    /// The earliest representable date.
    pub fn min() -> (r: NaiveDate)
        ensures
            r@ == MIN_DAYS,
    {
        NaiveDate { days: MIN_DAYS }
    }

    /// The latest representable date.
    pub fn max() -> (r: NaiveDate)
        ensures
            r@ == MAX_DAYS,
    {
        NaiveDate { days: MAX_DAYS }
    }

    /// The day number of this date (January 1 of year 1 is day 1).
    pub fn num_days_from_ce(&self) -> (r: i32)
        ensures
            r == self@,
            MIN_DAYS <= r <= MAX_DAYS,
    {
        proof { use_type_invariant(self); }
        self.days
    }

    /// The date of a year, month and day, or `None` when there is no such
    /// representable date.
    pub fn from_ymd_opt(year: i32, month: u32, day: u32) -> (r: Option<NaiveDate>)
        ensures
            civil_day_number(year, month, day) == (match r {
                Some(d) => Some(d@),
                None => None,
            }),
    {
        chrono_from_ymd(year, month, day)
    }

    /// The day of the week of this date.
    pub fn weekday(&self) -> (r: Weekday)
        ensures
            r == weekday_of_day_number(self@),
    {
        proof { use_type_invariant(self); }
        chrono_weekday(self.days)
    }

    /// The date `days` days later, or `None` when that is out of range.
    pub fn checked_add_days(self, days: Days) -> (r: Option<NaiveDate>)
        ensures
            r is Some <==> self@ + days@ <= MAX_DAYS,
            r matches Some(d) ==> d@ == self@ + days@,
    {
        proof { use_type_invariant(&self); }
        if days.num <= (MAX_DAYS - self.days) as u64 {
            Some(NaiveDate { days: self.days + days.num as i32 })
        } else {
            None
        }
    }

    /// This date at the given time of day.
    pub fn and_time(&self, time: NaiveTime) -> (r: NaiveDateTime)
        ensures
            r.date() == *self,
            r.time() == time,
            r@ == self@ * nanos_per_day() + time@,
    {
        NaiveDateTime { date: *self, time }
    }

    /// This date at the given hour, minute and second, or `None` when those
    /// do not name a time of day.
    pub fn and_hms_opt(&self, hour: u32, min: u32, sec: u32) -> (r: Option<NaiveDateTime>)
        ensures
            r is Some <==> hour < 24 && min < 60 && sec < 60,
            r matches Some(dt) ==> dt.date() == *self && dt.time()@ == (hour * 3600 + min * 60
                + sec) * nanos_per_sec() && dt@ == self@ * nanos_per_day() + dt.time()@,
    {
        match NaiveTime::from_hms_opt(hour, min, sec) {
            Some(t) => Some(self.and_time(t)),
            None => None,
        }
    }
}

/// A time of day without leap seconds, held as whole seconds since midnight
/// and the nanoseconds past that second.
#[derive(Clone, Copy, Debug, PartialEq, Eq, Structural, Hash, PartialOrd, Ord)]
pub struct NaiveTime {
    secs: u32,
    nanos: u32,
}

impl NaiveTime {
    #[verifier::type_invariant]
    spec fn inv(self) -> bool {
        self.secs < 86_400 && self.nanos < 1_000_000_000
    }
}

impl View for NaiveTime {
    type V = int;

    /// Nanoseconds since midnight.
    closed spec fn view(&self) -> int {
        self.secs * nanos_per_sec() + self.nanos
    }
}

/// Calls chrono's `NaiveTime + TimeDelta`, which wraps around midnight.
/// Claimed: the result is the sum modulo one day (the time holds no leap second).
#[verifier::external_body]
fn chrono_time_add(t: NaiveTime, d: TimeDelta) -> (r: NaiveTime)
    ensures
        r@ == (t@ + d@) % nanos_per_day(),
{
    let time = chrono::NaiveTime::from_num_seconds_from_midnight_opt(t.secs, t.nanos).unwrap();
    let delta = chrono::TimeDelta::new(d.secs, d.nanos as u32).unwrap();
    let sum = time + delta;
    NaiveTime { secs: sum.num_seconds_from_midnight(), nanos: sum.nanosecond() }
}

impl NaiveTime {
    /// The time of day at the given hour, minute and second, or `None` when
    /// those do not name a time of day.
    pub fn from_hms_opt(hour: u32, min: u32, sec: u32) -> (r: Option<NaiveTime>)
        ensures
            r is Some <==> hour < 24 && min < 60 && sec < 60,
            r matches Some(t) ==> t@ == (hour * 3600 + min * 60 + sec) * nanos_per_sec(),
    {
        if hour < 24 && min < 60 && sec < 60 {
            Some(NaiveTime { secs: hour * 3600 + min * 60 + sec, nanos: 0 })
        } else {
            None
        }
    }

    /// The time of day as nanoseconds since midnight.
    pub fn nanos_from_midnight(&self) -> (r: u64)
        ensures
            r == self@,
            r < nanos_per_day(),
    {
        proof { use_type_invariant(self); }
        self.secs as u64 * 1_000_000_000 + self.nanos as u64
    }

    /// The time of day `delta` later, wrapping around midnight.
    pub fn add_signed(self, delta: TimeDelta) -> (r: NaiveTime)
        ensures
            r@ == (self@ + delta@) % nanos_per_day(),
    {
        chrono_time_add(self, delta)
    }
}

/// A date and a time of day, without a time zone.
#[derive(Clone, Copy, Debug, PartialEq, Eq, Structural, Hash, PartialOrd, Ord)]
pub struct NaiveDateTime {
    date: NaiveDate,
    time: NaiveTime,
}

impl View for NaiveDateTime {
    type V = int;

    /// Nanoseconds since the start of day 0.
    closed spec fn view(&self) -> int {
        self.date@ * nanos_per_day() + self.time@
    }
}

/// Calls chrono's `NaiveDateTime::checked_add_signed`. Claimed: it succeeds
/// exactly when the sum is a representable instant, and then gives the sum
/// (neither value holds a leap second).
#[verifier::external_body]
fn chrono_checked_add(dt: NaiveDateTime, d: TimeDelta) -> (r: Option<NaiveDateTime>)
    ensures
        r is Some <==> instant_in_range(dt@ + d@),
        r matches Some(x) ==> x@ == dt@ + d@,
{
    let date = chrono::NaiveDate::from_num_days_from_ce_opt(dt.date.days).unwrap();
    let time = chrono::NaiveTime::from_num_seconds_from_midnight_opt(dt.time.secs, dt.time.nanos)
        .unwrap();
    let delta = chrono::TimeDelta::new(d.secs, d.nanos as u32).unwrap();
    match date.and_time(time).checked_add_signed(delta) {
        Some(x) => Some(NaiveDateTime {
            date: NaiveDate { days: x.num_days_from_ce() },
            time: NaiveTime { secs: x.num_seconds_from_midnight(), nanos: x.nanosecond() },
        }),
        None => None,
    }
}

/// Calls chrono's `Local::now().naive_local()`: the current local date and time.
/// Nothing is claimed of which instant it is; the value, as every value of
/// the type, is a representable date-time without a leap second, which
/// chrono's clock never yields.
#[verifier::external_body]
pub(crate) fn chrono_local_now() -> (r: NaiveDateTime) {
    let now = chrono::Local::now().naive_local();
    NaiveDateTime {
        date: NaiveDate { days: now.num_days_from_ce() },
        time: NaiveTime { secs: now.num_seconds_from_midnight(), nanos: now.nanosecond() },
    }
}

/// An instant splits into the day number of its date and the time of day.
pub proof fn lemma_instant_parts(dt: NaiveDateTime)
    requires
        0 <= dt.time()@ < nanos_per_day(),
    ensures
        dt.date()@ == dt@ / nanos_per_day(),
        dt.time()@ == dt@ % nanos_per_day(),
{
    vstd::arithmetic::div_mod::lemma_fundamental_div_mod_converse(
        dt@,
        nanos_per_day(),
        dt.date()@,
        dt.time()@,
    );
}

impl NaiveDateTime {
    /// The date-time of a date and a time of day.
    pub fn new(date: NaiveDate, time: NaiveTime) -> (r: NaiveDateTime)
        ensures
            r.date() == date,
            r.time() == time,
            r@ == date@ * nanos_per_day() + time@,
    {
        NaiveDateTime { date, time }
    }

    /// The date part.
    #[verifier::when_used_as_spec(spec_date)]
    pub fn date(&self) -> (r: NaiveDate)
        ensures
            r == self.spec_date(),
    {
        self.date
    }

    /// The date part.
    pub closed spec fn spec_date(&self) -> NaiveDate {
        self.date
    }

    /// The time-of-day part.
    #[verifier::when_used_as_spec(spec_time)]
    pub fn time(&self) -> (r: NaiveTime)
        ensures
            r == self.spec_time(),
    {
        self.time
    }

    /// The time-of-day part.
    pub closed spec fn spec_time(&self) -> NaiveTime {
        self.time
    }

    /// The day of the week.
    pub fn weekday(&self) -> (r: Weekday)
        ensures
            r == weekday_of_day_number(self.date()@),
    {
        self.date.weekday()
    }

    /// The instant as nanoseconds since the start of day 0.
    pub fn instant(&self) -> (r: i128)
        ensures
            r == self@,
            instant_in_range(r as int),
    {
        proof {
            use_type_invariant(&self.date);
            use_type_invariant(&self.time);
        }
        self.date.days as i128 * 86_400_000_000_000 + self.time.secs as i128 * 1_000_000_000
            + self.time.nanos as i128
    }

    /// The date-time `delta` later, or `None` when that is out of range.
    pub fn checked_add_signed(self, delta: TimeDelta) -> (r: Option<NaiveDateTime>)
        ensures
            r is Some <==> instant_in_range(self@ + delta@),
            r matches Some(x) ==> x@ == self@ + delta@,
    {
        chrono_checked_add(self, delta)
    }
}

} // verus!
