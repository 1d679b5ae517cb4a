//! Building a course from recurring schedules: a first date and time of day,
//! repeated a number of times a fixed number of days apart, every period
//! lasting the same number of minutes.

use vstd::prelude::*;
use crate::course::{Course, CourseView};
use crate::distinct::{dedup, lemma_dedup, views};
use crate::period::{Period, PeriodView};
use crate::time::{
    Days,
    NaiveDate,
    TimeDelta,
    MAX_DAYS,
    civil_day_number,
    delta_in_range,
    instant_in_range,
    nanos_per_day,
    nanos_per_sec,
};
use crate::query::str_views;
use crate::tutor::Tutor;

verus! {

/// The starts, as instants, of the periods of a schedule: the first `count`
/// dates `first_day`, `first_day + interval`, ..., each at time of day `time`
/// (nanoseconds since midnight), leaving out the dates past the last
/// representable one.
pub open spec fn scheduled_starts(first_day: int, time: int, count: nat, interval: int) -> Seq<int>
    decreases count,
{
    if count == 0 {
        Seq::empty()
    } else {
        let rest = scheduled_starts(first_day, time, (count - 1) as nat, interval);
        let day = first_day + (count - 1) * interval;
        if day <= MAX_DAYS {
            rest.push(day * nanos_per_day() + time)
        } else {
            rest
        }
    }
}

/// Whether an hour, minute and second name a time of day.
pub open spec fn valid_hms(hour: u32, minute: u32, second: u32) -> bool {
    hour < 24 && minute < 60 && second < 60
}

/// Nanoseconds since midnight of an hour, minute and second.
pub open spec fn hms_nanos(hour: u32, minute: u32, second: u32) -> int {
    (hour * 3600 + minute * 60 + second) * nanos_per_sec()
}

/// The starts of a schedule's periods; none when the time of day is invalid.
pub open spec fn schedule_starts(
    first_day: int,
    hour: u32,
    minute: u32,
    second: u32,
    count: u64,
    interval: u64,
) -> Seq<int> {
    if valid_hms(hour, minute, second) {
        scheduled_starts(first_day, hms_nanos(hour, minute, second), count as nat, interval as int)
    } else {
        Seq::empty()
    }
}

/// The unnamed period from `start` lasting `duration`.
pub open spec fn unnamed_period(start: int, duration: int) -> PeriodView {
    PeriodView { name: None, start, end: start + duration, duration }
}

/// The unnamed periods starting at `starts`, each lasting `duration`.
pub open spec fn periods_at(starts: Seq<int>, duration: int) -> Seq<PeriodView> {
    starts.map_values(|s: int| unnamed_period(s, duration))
}

/// What a schedule needs so that its periods can be built: the day offsets
/// `i * interval` for `i < count` fit in a `u64`, and every period ends at a
/// representable date-time.
pub open spec fn schedule_fits(
    first_day: int,
    hour: u32,
    minute: u32,
    second: u32,
    count: u64,
    interval: u64,
    duration: int,
) -> bool {
    &&& (count == 0 || (count - 1) * interval <= u64::MAX)
    &&& forall|k: int|
        0 <= k < schedule_starts(first_day, hour, minute, second, count, interval).len()
            ==> instant_in_range(
            #[trigger] schedule_starts(first_day, hour, minute, second, count, interval)[k]
                + duration,
        )
}

/// The periods of one schedule: starting on `first`, `count` times, `interval`
/// days apart, at the given time of day, each lasting `duration`. Dates past
/// the last representable one are left out, and an invalid time of day
/// gives no periods.
pub fn schedule_periods(
    first: NaiveDate,
    hour: u32,
    minute: u32,
    second: u32,
    count: u64,
    interval: u64,
    duration: TimeDelta,
) -> (r: Vec<Period>)
    requires
        schedule_fits(first@, hour, minute, second, count, interval, duration@),
    ensures
        views(r@) == periods_at(
            schedule_starts(first@, hour, minute, second, count, interval),
            duration@,
        ),
{
    let ghost starts = schedule_starts(first@, hour, minute, second, count, interval);
    let mut out: Vec<Period> = Vec::new();
    let mut i: u64 = 0;
    while i < count
        invariant
            0 <= i <= count,
            schedule_fits(first@, hour, minute, second, count, interval, duration@),
            starts == schedule_starts(first@, hour, minute, second, count, interval),
            valid_hms(hour, minute, second) ==> views(out@) == periods_at(
                scheduled_starts(
                    first@,
                    hms_nanos(hour, minute, second),
                    i as nat,
                    interval as int,
                ),
                duration@,
            ),
            !valid_hms(hour, minute, second) ==> out@.len() == 0,
        decreases count - i,
    {
        proof {
            lemma_scheduled_prefix(
                first@,
                hms_nanos(hour, minute, second),
                i as nat,
                count as nat,
                interval as int,
            );
            assert(i * interval <= (count - 1) * interval) by (nonlinear_arith)
                requires
                    i < count,
            ;
        }
        let ghost before = out@;
        let ghost time = hms_nanos(hour, minute, second);
        let ghost a = scheduled_starts(first@, time, i as nat, interval as int);
        let ghost b = scheduled_starts(first@, time, (i + 1) as nat, interval as int);
        proof {
            assert(((i + 1) - 1) as nat == i as nat);
        }
        match first.checked_add_days(Days::new(i * interval)) {
            Some(day) => {
                match day.and_hms_opt(hour, minute, second) {
                    Some(start) => {
                        proof {
                            lemma_scheduled_prefix(first@, time, (i + 1) as nat, count as nat, interval as int);
                            assert(b == a.push(start@));
                            assert(starts[a.len() as int] == start@);
                        }
                        let p = Period::new(None, start, duration);
                        out.push(p);
                        proof {
                            assert(views(out@) =~= views(before).push(p@));
                            assert(periods_at(b, duration@) =~= periods_at(a, duration@).push(
                                unnamed_period(start@, duration@),
                            ));
                        }
                    },
                    None => {},
                }
            },
            None => {
                proof {
                    assert(b == a);
                }
            },
        }
        i += 1;
    }
    proof {
        if !valid_hms(hour, minute, second) {
            assert(views(out@) =~= Seq::<PeriodView>::empty());
        }
    }
    out
}

/// One recurring schedule of a course: from the date `first`, `count` times,
/// `interval` days apart, at the given hour, minute and second.
#[derive(Clone, Copy, Debug, PartialEq, Eq)]
pub struct Schedule {
    pub first: NaiveDate,
    pub hour: u32,
    pub minute: u32,
    pub second: u32,
    pub count: u64,
    pub interval: u64,
}

impl Schedule {
    /// The schedule from the calendar date `year-month-day`, or `None` when
    /// there is no such representable date.
    pub fn from_calendar(
        year: i32,
        month: u32,
        day: u32,
        hour: u32,
        minute: u32,
        second: u32,
        count: u64,
        interval: u64,
    ) -> (r: Option<Schedule>)
        ensures
            r is Some <==> civil_day_number(year, month, day) is Some,
            r matches Some(s) ==> {
                &&& civil_day_number(year, month, day) == Some(s.first@)
                &&& s.hour == hour && s.minute == minute && s.second == second
                &&& s.count == count && s.interval == interval
            },
    {
        match NaiveDate::from_ymd_opt(year, month, day) {
            Some(first) => Some(Schedule { first, hour, minute, second, count, interval }),
            None => None,
        }
    }
}

/// The starts of one schedule's periods.
pub open spec fn starts_of(s: Schedule) -> Seq<int> {
    schedule_starts(s.first@, s.hour, s.minute, s.second, s.count, s.interval)
}

/// The periods of the schedules, one schedule after another.
pub open spec fn schedules_periods(ss: Seq<Schedule>, duration: int) -> Seq<PeriodView>
    decreases ss.len(),
{
    if ss.len() == 0 {
        Seq::empty()
    } else {
        schedules_periods(ss.drop_last(), duration) + periods_at(starts_of(ss.last()), duration)
    }
}

/// Whether a schedule's periods of the given duration can all be built.
pub open spec fn fits(s: Schedule, duration: int) -> bool {
    schedule_fits(s.first@, s.hour, s.minute, s.second, s.count, s.interval, duration)
}

/// The course `name` at `place`, taught by the named tutors, whose periods
/// are those of the schedules, each lasting `duration_minutes`. Repeated
/// tutors and periods are kept once.
pub fn course(
    name: &str,
    place: &str,
    tutor_names: &[&str],
    schedules: &[Schedule],
    duration_minutes: i64,
) -> (r: Course)
    requires
        delta_in_range(duration_minutes * 60 * nanos_per_sec()),
        forall|k: int|
            0 <= k < schedules@.len() ==> fits(
                #[trigger] schedules@[k],
                duration_minutes * 60 * nanos_per_sec(),
            ),
    ensures
        r@ == (CourseView {
            name: name@,
            place: Some(place@),
            tutors: dedup(str_views(tutor_names@)),
            periods: dedup(schedules_periods(schedules@, duration_minutes * 60 * nanos_per_sec())),
        }),
        forall|j: int, k: int|
            0 <= j < schedules@.len() && 0 <= k < starts_of(schedules@[j]).len()
                ==> #[trigger] r@.periods.contains(
                unnamed_period(
                    #[trigger] starts_of(schedules@[j])[k],
                    duration_minutes * 60 * nanos_per_sec(),
                ),
            ),
        forall|p: PeriodView|
            #[trigger] r@.periods.contains(p) ==> exists|j: int, k: int|
                0 <= j < schedules@.len() && 0 <= k < starts_of(schedules@[j]).len() && p
                    == unnamed_period(
                    #[trigger] starts_of(schedules@[j])[k],
                    duration_minutes * 60 * nanos_per_sec(),
                ),
{
    let duration = TimeDelta::minutes(duration_minutes);
    let mut tutors: Vec<Tutor> = Vec::new();
    let mut k: usize = 0;
    while k < tutor_names.len()
        invariant
            0 <= k <= tutor_names@.len(),
            views(tutors@) == str_views(tutor_names@).take(k as int),
        decreases tutor_names@.len() - k,
    {
        let t = Tutor::new(tutor_names[k]);
        let ghost before = tutors@;
        tutors.push(t);
        assert(views(tutors@) =~= views(before).push(t@));
        assert(str_views(tutor_names@).take(k as int + 1) =~= str_views(tutor_names@).take(
            k as int,
        ).push(tutor_names@[k as int]@));
        k += 1;
    }
    assert(str_views(tutor_names@).take(tutor_names@.len() as int) =~= str_views(tutor_names@));
    let mut periods: Vec<Period> = Vec::new();
    let mut j: usize = 0;
    while j < schedules.len()
        invariant
            0 <= j <= schedules@.len(),
            duration@ == duration_minutes * 60 * nanos_per_sec(),
            forall|k: int| 0 <= k < schedules@.len() ==> fits(#[trigger] schedules@[k], duration@),
            views(periods@) == schedules_periods(schedules@.take(j as int), duration@),
        decreases schedules@.len() - j,
    {
        let s = schedules[j];
        assert(fits(schedules@[j as int], duration@));
        let mut more = schedule_periods(
            s.first,
            s.hour,
            s.minute,
            s.second,
            s.count,
            s.interval,
            duration,
        );
        let ghost before = periods@;
        let ghost added = more@;
        periods.append(&mut more);
        proof {
            assert(views(periods@) =~= views(before) + views(added));
            assert(schedules@.take(j as int + 1).drop_last() =~= schedules@.take(j as int));
        }
        j += 1;
    }
    assert(schedules@.take(schedules@.len() as int) =~= schedules@);
    proof {
        lemma_course_has_every_scheduled_period(schedules@, duration@);
    }
    Course::new(name, Some(place), tutors, periods)
}

/// The starts of a shorter schedule are the first starts of a longer one.
proof fn lemma_scheduled_prefix(first_day: int, time: int, i: nat, n: nat, interval: int)
    requires
        i <= n,
    ensures
        scheduled_starts(first_day, time, i, interval).len() <= scheduled_starts(
            first_day,
            time,
            n,
            interval,
        ).len(),
        forall|k: int|
            0 <= k < scheduled_starts(first_day, time, i, interval).len() ==> #[trigger] scheduled_starts(
                first_day,
                time,
                i,
                interval,
            )[k] == scheduled_starts(first_day, time, n, interval)[k],
        i < n && first_day + i * interval <= MAX_DAYS ==> scheduled_starts(
            first_day,
            time,
            n,
            interval,
        )[scheduled_starts(first_day, time, i, interval).len() as int] == (first_day + i
            * interval) * nanos_per_day() + time,
    decreases n - i,
{
    if i < n {
        lemma_scheduled_prefix(first_day, time, i + 1, n, interval);
        let a = scheduled_starts(first_day, time, i, interval);
        let b = scheduled_starts(first_day, time, i + 1, interval);
        assert(((i + 1) - 1) as nat == i);
        let day = first_day + i * interval;
        if day <= MAX_DAYS {
            assert(b == a.push(day * nanos_per_day() + time));
            assert(b[a.len() as int] == day * nanos_per_day() + time);
        } else {
            assert(b == a);
        }
        assert forall|k: int| 0 <= k < a.len() implies #[trigger] a[k] == scheduled_starts(
            first_day,
            time,
            n,
            interval,
        )[k] by {
            assert(a[k] == b[k]);
        }
    }
}

/// The periods of a list of schedules are exactly the unnamed periods, of
/// the given duration, that start at one of the starts of one of the schedules.
pub proof fn lemma_schedules_periods_members(ss: Seq<Schedule>, duration: int)
    ensures
        forall|j: int, k: int|
            0 <= j < ss.len() && 0 <= k < starts_of(ss[j]).len() ==> #[trigger] schedules_periods(
                ss,
                duration,
            ).contains(unnamed_period(#[trigger] starts_of(ss[j])[k], duration)),
        forall|p: PeriodView|
            #[trigger] schedules_periods(ss, duration).contains(p) ==> exists|j: int, k: int|
                0 <= j < ss.len() && 0 <= k < starts_of(ss[j]).len() && p == unnamed_period(
                    #[trigger] starts_of(ss[j])[k],
                    duration,
                ),
    decreases ss.len(),
{
    if ss.len() > 0 {
        let d = ss.drop_last();
        lemma_schedules_periods_members(d, duration);
        let before = schedules_periods(d, duration);
        let last = periods_at(starts_of(ss.last()), duration);
        let all = schedules_periods(ss, duration);
        assert(all == before + last);
        assert forall|j: int, k: int|
            0 <= j < ss.len() && 0 <= k < starts_of(ss[j]).len() implies #[trigger] all.contains(
                unnamed_period(#[trigger] starts_of(ss[j])[k], duration),
            ) by {
            let p = unnamed_period(starts_of(ss[j])[k], duration);
            if j < ss.len() - 1 {
                assert(ss[j] == d[j]);
                assert(before.contains(unnamed_period(starts_of(d[j])[k], duration)));
                let i = choose|i: int| 0 <= i < before.len() && before[i] == p;
                assert(all[i] == p);
            } else {
                assert(last[k] == p);
                assert(all[before.len() + k] == p);
            }
        }
        assert forall|p: PeriodView| #[trigger] all.contains(p) implies exists|j: int, k: int|
            0 <= j < ss.len() && 0 <= k < starts_of(ss[j]).len() && p == unnamed_period(
                #[trigger] starts_of(ss[j])[k],
                duration,
            ) by {
            let i = choose|i: int| 0 <= i < all.len() && all[i] == p;
            if i < before.len() {
                assert(before[i] == p);
                assert(before.contains(p));
                let (j, k) = choose|j: int, k: int|
                    0 <= j < d.len() && 0 <= k < starts_of(d[j]).len() && p == unnamed_period(
                        #[trigger] starts_of(d[j])[k],
                        duration,
                    );
                assert(ss[j] == d[j]);
                assert(p == unnamed_period(starts_of(ss[j])[k], duration));
            } else {
                let k = i - before.len();
                assert(last[k] == p);
                assert(ss[ss.len() - 1] == ss.last());
                assert(p == unnamed_period(starts_of(ss[ss.len() - 1])[k], duration));
            }
        }
    }
}

/// The course built from schedules has a period for every start of every
/// schedule, and no other period.
pub proof fn lemma_course_has_every_scheduled_period(ss: Seq<Schedule>, duration: int)
    ensures
        forall|j: int, k: int|
            0 <= j < ss.len() && 0 <= k < starts_of(ss[j]).len() ==> #[trigger] dedup(
                schedules_periods(ss, duration),
            ).contains(unnamed_period(#[trigger] starts_of(ss[j])[k], duration)),
        forall|p: PeriodView|
            #[trigger] dedup(schedules_periods(ss, duration)).contains(p) ==> exists|j: int, k: int|
                0 <= j < ss.len() && 0 <= k < starts_of(ss[j]).len() && p == unnamed_period(
                    #[trigger] starts_of(ss[j])[k],
                    duration,
                ),
{
    let all = schedules_periods(ss, duration);
    lemma_schedules_periods_members(ss, duration);
    lemma_dedup(all);
    assert forall|j: int, k: int|
        0 <= j < ss.len() && 0 <= k < starts_of(ss[j]).len() implies #[trigger] dedup(all).contains(
            unnamed_period(#[trigger] starts_of(ss[j])[k], duration),
        ) by {
        assert(all.contains(unnamed_period(starts_of(ss[j])[k], duration)));
    }
    assert forall|p: PeriodView| #[trigger] dedup(all).contains(p) implies exists|j: int, k: int|
        0 <= j < ss.len() && 0 <= k < starts_of(ss[j]).len() && p == unnamed_period(
            #[trigger] starts_of(ss[j])[k],
            duration,
        ) by {
        assert(all.contains(p));
    }
}

} // verus!
