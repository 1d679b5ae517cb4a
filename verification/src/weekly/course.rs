//! A weekly course: periods that recur each week on a weekday, from a time of
//! day for a duration.

use vstd::prelude::*;
use crate::distinct::{
    SameView,
    contains_all,
    dedup,
    dedup_items,
    lemma_dedup,
    lemma_same_items, lemma_same_set,
    no_repeats,
    views,
};
use crate::time::{
    NaiveDateTime,
    NaiveTime,
    TimeDelta,
    Weekday,
    instant_in_range,
    lemma_instant_parts,
    nanos_per_day,
    weekday_of_day_number,
};
use crate::time_provider::{TimeProvider, agrees_with};
use crate::weekly::tutor::Tutor;

use vstd::std_specs::cmp::PartialEqSpec;

verus! {

/// What a weekly period is: its weekday, its start and end as nanoseconds
/// since midnight, and its duration in nanoseconds.
pub struct CoursePeriodView {
    pub day: Weekday,
    pub start: int,
    pub end: int,
    pub duration: int,
}

/// A period on a weekday, from `start` to `end = start + duration`; the end
/// wraps around midnight.
#[derive(Clone, Copy, Debug, PartialEq, Eq, Structural, Hash)]
pub struct CoursePeriod {
    day: Weekday,
    start: NaiveTime,
    end: NaiveTime,
    duration: TimeDelta,
}

impl CoursePeriod {
    #[verifier::type_invariant]
    spec fn inv(self) -> bool {
        self.end@ == (self.start@ + self.duration@) % nanos_per_day()
    }
}

impl View for CoursePeriod {
    type V = CoursePeriodView;

    closed spec fn view(&self) -> CoursePeriodView {
        CoursePeriodView {
            day: self.day,
            start: self.start@,
            end: (self.start@ + self.duration@) % nanos_per_day(),
            duration: self.duration@,
        }
    }
}

impl CoursePeriod {
    /// The period on `day` from `start` for `duration`; its end is
    /// `start + duration`, wrapped around midnight.
    pub fn new(day: Weekday, start: NaiveTime, duration: TimeDelta) -> (r: CoursePeriod)
        ensures
            r@ == (CoursePeriodView {
                day,
                start: start@,
                end: (start@ + duration@) % nanos_per_day(),
                duration: duration@,
            }),
    {
        let end = start.add_signed(duration);
        CoursePeriod { day, start, end, duration }
    }

    /// The weekday.
    pub fn day(&self) -> (r: Weekday)
        ensures
            r == self@.day,
    {
        self.day
    }

    /// The start.
    pub fn start(&self) -> (r: NaiveTime)
        ensures
            r@ == self@.start,
    {
        self.start
    }

    /// The end.
    pub fn end(&self) -> (r: NaiveTime)
        ensures
            r@ == self@.end,
    {
        proof { use_type_invariant(self); }
        self.end
    }

    /// The duration.
    pub fn duration(&self) -> (r: TimeDelta)
        ensures
            r@ == self@.duration,
    {
        self.duration
    }
}

impl SameView for CoursePeriod {
    fn same_as(&self, other: &CoursePeriod) -> (r: bool) {
        proof {
            use_type_invariant(self);
            use_type_invariant(other);
        }
        self.day == other.day && self.start.nanos_from_midnight() == other.start.nanos_from_midnight()
            && self.duration.num_nanoseconds() == other.duration.num_nanoseconds()
    }

    fn duplicate(&self) -> (r: CoursePeriod) {
        *self
    }
}

/// What a weekly course is: its name, tutors' names and periods.
pub struct CourseView {
    pub name: Seq<char>,
    pub tutors: Seq<Seq<char>>,
    pub periods: Seq<CoursePeriodView>,
}

/// Whether a weekly period is in progress on weekday `day` at time of day
/// `time`: the weekday matches and the time lies between start and end, both
/// included (a period whose end wrapped past midnight is never in progress).
pub open spec fn period_in_progress(p: CoursePeriodView, day: Weekday, time: int) -> bool {
    p.day == day && p.start <= time <= p.end
}

/// Whether one of the course's periods is in progress on `day` at `time`.
pub open spec fn course_in_progress(c: CourseView, day: Weekday, time: int) -> bool {
    exists|i: int| 0 <= i < c.periods.len() && period_in_progress(#[trigger] c.periods[i], day, time)
}

/// The weekday of an instant.
pub open spec fn weekday_of_instant(t: int) -> Weekday {
    weekday_of_day_number(t / nanos_per_day())
}

/// The time of day of an instant, in nanoseconds since midnight.
pub open spec fn time_of_instant(t: int) -> int {
    t % nanos_per_day()
}

/// Whether two weekly courses are the same: the same name, and the same
/// tutors and periods in any order.
pub open spec fn same_course(a: CourseView, b: CourseView) -> bool {
    &&& a.name == b.name
    &&& a.tutors.to_set() == b.tutors.to_set()
    &&& a.periods.to_set() == b.periods.to_set()
}

/// A weekly course, with its tutors and periods each held once.
#[derive(Debug, Eq)]
pub struct Course {
    name: String,
    tutors: Vec<Tutor>,
    periods: Vec<CoursePeriod>,
}

impl Course {
    #[verifier::type_invariant]
    spec fn inv(self) -> bool {
        &&& no_repeats(views(self.tutors@))
        &&& no_repeats(views(self.periods@))
    }
}

impl View for Course {
    type V = CourseView;

    closed spec fn view(&self) -> CourseView {
        CourseView { name: self.name@, tutors: views(self.tutors@), periods: views(self.periods@) }
    }
}

impl PartialEq for Course {
    /// Whether the two courses have the same name, and the same tutors and
    /// periods in any order.
    fn eq(&self, other: &Course) -> (r: bool) {
        let r = self.name.eq(&other.name) && contains_all(&self.tutors, &other.tutors)
            && contains_all(&other.tutors, &self.tutors) && contains_all(
            &self.periods,
            &other.periods,
        ) && contains_all(&other.periods, &self.periods);
        proof {
            lemma_same_set(self@.tutors, other@.tutors);
            lemma_same_set(self@.periods, other@.periods);
        }
        r
    }
}

impl vstd::std_specs::cmp::PartialEqSpecImpl for Course {
    open spec fn obeys_eq_spec() -> bool {
        true
    }

    open spec fn eq_spec(&self, other: &Course) -> bool {
        same_course(self@, other@)
    }
}

impl Course {
    /// The weekly course with the given name, tutors and periods; repeated
    /// tutors and repeated periods are kept once.
    pub fn new(name: &str, tutors: Vec<Tutor>, periods: Vec<CoursePeriod>) -> (r: Course)
        ensures
            r@ == (CourseView {
                name: name@,
                tutors: dedup(views(tutors@)),
                periods: dedup(views(periods@)),
            }),
    {
        let ghost old_tutors = tutors@;
        let ghost old_periods = periods@;
        let tutors = dedup_items(tutors);
        let periods = dedup_items(periods);
        proof {
            lemma_dedup(views(old_tutors));
            lemma_dedup(views(old_periods));
        }
        Course {
            name: name.to_owned(),
            tutors,
            periods,
        }
    }

    /// The name.
    pub fn name(&self) -> (r: &String)
        ensures
            r@ == self@.name,
    {
        &self.name
    }

    /// The tutors.
    pub fn tutors(&self) -> (r: &Vec<Tutor>)
        ensures
            views(r@) == self@.tutors,
            no_repeats(self@.tutors),
    {
        proof { use_type_invariant(self); }
        &self.tutors
    }

    /// The periods.
    pub fn periods(&self) -> (r: &Vec<CoursePeriod>)
        ensures
            views(r@) == self@.periods,
            no_repeats(self@.periods),
    {
        proof { use_type_invariant(self); }
        &self.periods
    }

    /// Whether one of the periods is in progress at `now`: on its weekday,
    /// between its start and end.
    pub fn is_in_progress_at(&self, now: NaiveDateTime) -> (r: bool)
        ensures
            r == course_in_progress(self@, weekday_of_instant(now@), time_of_instant(now@)),
    {
        let day = now.weekday();
        let time = now.time().nanos_from_midnight();
        proof {
            lemma_instant_parts(now);
        }
        let mut i: usize = 0;
        while i < self.periods.len()
            invariant
                0 <= i <= self.periods@.len(),
                day == weekday_of_instant(now@),
                time == time_of_instant(now@),
                forall|j: int|
                    0 <= j < i ==> !period_in_progress(
                        #[trigger] self@.periods[j],
                        weekday_of_instant(now@),
                        time_of_instant(now@),
                    ),
            decreases self.periods@.len() - i,
        {
            let p = &self.periods[i];
            assert(self@.periods[i as int] == p@);
            if p.day() == day && p.start().nanos_from_midnight() <= time
                && time <= p.end().nanos_from_midnight() {
                assert(period_in_progress(self@.periods[i as int], day, time as int));
                return true;
            }
            i += 1;
        }
        false
    }

    /// Whether one of the periods is in progress now.
    pub fn is_in_progress<TP: TimeProvider>(&self, time_provider: &TP) -> (r: bool)
        ensures
            exists|t: int|
                instant_in_range(t) && agrees_with(time_provider.reading(), t) && r == course_in_progress(
                    self@,
                    weekday_of_instant(t),
                    time_of_instant(t),
                ),
    {
        let now = time_provider.now();
        let t = now.instant();
        let r = self.is_in_progress_at(now);
        assert(instant_in_range(t as int) && agrees_with(time_provider.reading(), t as int) && r == course_in_progress(
            self@,
            weekday_of_instant(t as int),
            time_of_instant(t as int),
        ));
        r
    }
}

/// Two courses are equal exactly when they have the same name,
/// and every tutor and every period of either is one of the other's.
pub proof fn lemma_course_eq_exact(a: Course, b: Course)
    ensures
        a.eq_spec(&b) == {
            &&& a@.name == b@.name
            &&& forall|t: Seq<char>| a@.tutors.contains(t) <==> b@.tutors.contains(t)
            &&& forall|p| a@.periods.contains(p) <==> b@.periods.contains(p)
        },
{
    lemma_same_items(a@.tutors, b@.tutors);
    lemma_same_items(a@.periods, b@.periods);
}

/// Course equality is symmetric.
pub proof fn lemma_course_eq_symmetric(a: Course, b: Course)
    ensures
        a.eq_spec(&b) == b.eq_spec(&a),
{
    lemma_course_eq_exact(a, b);
    lemma_course_eq_exact(b, a);
}

/// A course with a tutor that another lacks is not equal to it, either way.
pub proof fn lemma_course_eq_tutor_missing(a: Course, b: Course, tutor: Seq<char>)
    requires
        a@.tutors.contains(tutor),
        !b@.tutors.contains(tutor),
    ensures
        !a.eq_spec(&b),
        !b.eq_spec(&a),
{
    lemma_course_eq_exact(a, b);
    lemma_course_eq_exact(b, a);
}

/// A course with a period that another lacks is not equal to it, either way.
pub proof fn lemma_course_eq_period_missing(a: Course, b: Course, period: CoursePeriodView)
    requires
        a@.periods.contains(period),
        !b@.periods.contains(period),
    ensures
        !a.eq_spec(&b),
        !b.eq_spec(&a),
{
    lemma_course_eq_exact(a, b);
    lemma_course_eq_exact(b, a);
}

} // verus!
