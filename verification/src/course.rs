//! A course: a name, an optional place, its tutors and the dated periods in
//! which it takes place.

use vstd::prelude::*;
use crate::period::{Period, PeriodView, opt_str_view, opt_string_view};
use crate::time::{NaiveDateTime, TimeDelta, instant_in_range, max_instant, min_instant};
use crate::time_provider::{TimeProvider, agrees_with, period_views};
use crate::tutor::Tutor;
use crate::distinct::{contains_all, dedup, dedup_items, lemma_dedup, lemma_same_items, lemma_same_set, no_repeats, views};

use vstd::std_specs::cmp::PartialEqSpec;

verus! {

/// What a course is: its name, place, tutors' names and periods.
pub struct CourseView {
    pub name: Seq<char>,
    pub place: Option<Seq<char>>,
    pub tutors: Seq<Seq<char>>,
    pub periods: Seq<PeriodView>,
}

/// The names of a sequence of tutors.
pub open spec fn tutor_views(s: Seq<Tutor>) -> Seq<Seq<char>> {
    views(s)
}

/// Whether `now` falls in a period, both ends included.
pub open spec fn period_in_progress(p: PeriodView, now: int) -> bool {
    p.start <= now <= p.end
}

/// Whether a period starts in less than `delta` from `now`: at or after
/// `now` and before `now + delta`.
pub open spec fn period_upcoming(p: PeriodView, now: int, delta: int) -> bool {
    now <= p.start < now + delta
}

/// Whether one of the course's periods is in progress at `now`.
pub open spec fn course_in_progress(c: CourseView, now: int) -> bool {
    exists|i: int| 0 <= i < c.periods.len() && period_in_progress(#[trigger] c.periods[i], now)
}

/// Whether one of the course's periods starts in less than `delta` from `now`.
pub open spec fn course_upcoming(c: CourseView, now: int, delta: int) -> bool {
    exists|i: int| 0 <= i < c.periods.len() && period_upcoming(#[trigger] c.periods[i], now, delta)
}

/// Whether `r` is a period of `periods` with the earliest start among those
/// that start strictly after `now`, or `None` when no period starts after `now`.
pub open spec fn is_nearest_after(periods: Seq<PeriodView>, now: int, r: Option<PeriodView>) -> bool {
    match r {
        None => forall|i: int| 0 <= i < periods.len() ==> #[trigger] periods[i].start <= now,
        Some(p) => {
            &&& periods.contains(p)
            &&& p.start > now
            &&& forall|i: int|
                0 <= i < periods.len() && #[trigger] periods[i].start > now ==> p.start
                    <= periods[i].start
        },
    }
}

/// Whether `k` is the least start among the periods that start at or after `now`.
pub open spec fn is_earliest_start_from(ps: Seq<PeriodView>, now: int, k: int) -> bool {
    &&& exists|i: int| 0 <= i < ps.len() && #[trigger] ps[i].start == k && k >= now
    &&& forall|i: int| 0 <= i < ps.len() && #[trigger] ps[i].start >= now ==> k <= ps[i].start
}

/// The least start among the periods that start at or after `now`, or `None`
/// when no period does.
pub open spec fn earliest_start_from(ps: Seq<PeriodView>, now: int) -> Option<int> {
    if exists|i: int| 0 <= i < ps.len() && #[trigger] ps[i].start >= now {
        Some(choose|k: int| is_earliest_start_from(ps, now, k))
    } else {
        None
    }
}

/// The least start at or after `now` is the only one of its kind.
proof fn lemma_earliest_unique(ps: Seq<PeriodView>, now: int, k: int)
    requires
        is_earliest_start_from(ps, now, k),
    ensures
        earliest_start_from(ps, now) == Some(k),
{
    let i = choose|i: int| 0 <= i < ps.len() && #[trigger] ps[i].start == k && k >= now;
    assert(ps[i].start >= now);
    let c = choose|c: int| is_earliest_start_from(ps, now, c);
    assert(is_earliest_start_from(ps, now, c));
    let j = choose|j: int| 0 <= j < ps.len() && #[trigger] ps[j].start == c && c >= now;
    assert(k <= ps[j].start);
    assert(c <= ps[i].start);
}

/// The view of an optional period.
pub open spec fn opt_period_view(r: Option<&Period>) -> Option<PeriodView> {
    match r {
        Some(p) => Some(p@),
        None => None,
    }
}

/// The tutors' names in order, separated by single spaces; a separator is
/// written only once something has been written.
pub open spec fn join_tutor_names(names: Seq<Seq<char>>) -> Seq<char>
    decreases names.len(),
{
    if names.len() == 0 {
        Seq::empty()
    } else {
        let acc = join_tutor_names(names.drop_last());
        (if acc.len() > 0 {
            acc + " "@
        } else {
            acc
        }) + names.last()
    }
}

/// How a course is written out: `name (place) <tutors>`, with `Unknown` for
/// a course without a place.
pub open spec fn course_text(c: CourseView) -> Seq<char> {
    c.name + " ("@ + (match c.place {
        Some(p) => p,
        None => "Unknown"@,
    }) + ") <"@ + join_tutor_names(c.tutors) + ">"@
}

/// Whether two courses are the same: the same name and place, and the same
/// tutors and periods in any order.
pub open spec fn same_course(a: CourseView, b: CourseView) -> bool {
    &&& a.name == b.name
    &&& a.place == b.place
    &&& a.tutors.to_set() == b.tutors.to_set()
    &&& a.periods.to_set() == b.periods.to_set()
}

/// A course, with its tutors and periods each held once.
#[derive(Debug, Eq)]
pub struct Course {
    name: String,
    place: Option<String>,
    tutors: Vec<Tutor>,
    periods: Vec<Period>,
}

impl Course {
    #[verifier::type_invariant]
    spec fn inv(self) -> bool {
        &&& no_repeats(views(self.tutors@))
        &&& no_repeats(views(self.periods@))
    }
}

impl View for Course {
    type V = CourseView;

    closed spec fn view(&self) -> CourseView {
        CourseView {
            name: self.name@,
            place: opt_string_view(self.place),
            tutors: tutor_views(self.tutors@),
            periods: period_views(self.periods@),
        }
    }
}

impl PartialEq for Course {
    /// Whether the two courses have the same name and place, and the same
    /// tutors and periods in any order.
    fn eq(&self, other: &Course) -> (r: bool) {
        let places_equal = match &self.place {
            Some(a) => match &other.place {
                Some(b) => a.eq(b),
                None => false,
            },
            None => other.place.is_none(),
        };
        let r = self.name.eq(&other.name) && places_equal && contains_all(
            &self.tutors,
            &other.tutors,
        ) && contains_all(&other.tutors, &self.tutors) && contains_all(&self.periods, &other.periods)
            && contains_all(&other.periods, &self.periods);
        proof {
            lemma_same_set(self@.tutors, other@.tutors);
            lemma_same_set(self@.periods, other@.periods);
        }
        r
    }
}

impl vstd::std_specs::cmp::PartialEqSpecImpl for Course {
    open spec fn obeys_eq_spec() -> bool {
        true
    }

    open spec fn eq_spec(&self, other: &Course) -> bool {
        same_course(self@, other@)
    }
}

impl Course {
    /// The course with the given name, place, tutors and periods; repeated
    /// tutors and repeated periods are kept once.
    pub fn new(name: &str, place: Option<&str>, tutors: Vec<Tutor>, periods: Vec<Period>) -> (r:
        Course)
        ensures
            r@ == (CourseView {
                name: name@,
                place: opt_str_view(place),
                tutors: dedup(tutor_views(tutors@)),
                periods: dedup(period_views(periods@)),
            }),
    {
        let ghost old_tutors = tutors@;
        let ghost old_periods = periods@;
        let place = match place {
            Some(p) => Some(p.to_owned()),
            None => None,
        };
        let tutors = dedup_items(tutors);
        let periods = dedup_items(periods);
        proof {
            lemma_dedup(views(old_tutors));
            lemma_dedup(views(old_periods));
        }
        Course {
            name: name.to_owned(),
            place,
            tutors,
            periods,
        }
    }

    /// The name.
    pub fn name(&self) -> (r: &String)
        ensures
            r@ == self@.name,
    {
        &self.name
    }

    /// The place, if known.
    pub fn place(&self) -> (r: &Option<String>)
        ensures
            opt_string_view(*r) == self@.place,
    {
        &self.place
    }

    /// The tutors.
    pub fn tutors(&self) -> (r: &Vec<Tutor>)
        ensures
            tutor_views(r@) == self@.tutors,
            no_repeats(self@.tutors),
    {
        proof { use_type_invariant(self); }
        &self.tutors
    }

    /// The periods.
    pub fn periods(&self) -> (r: &Vec<Period>)
        ensures
            period_views(r@) == self@.periods,
            no_repeats(self@.periods),
    {
        proof { use_type_invariant(self); }
        &self.periods
    }

    /// The course written out as `name (place) <tutor tutor ...>`, with
    /// `Unknown` for a course without a place.
    pub fn to_string(&self) -> (r: String)
        ensures
            r@ == course_text(self@),
    {
        let mut names = String::new();
        let mut i: usize = 0;
        while i < self.tutors.len()
            invariant
                0 <= i <= self.tutors@.len(),
                names@ == join_tutor_names(self@.tutors.take(i as int)),
            decreases self.tutors@.len() - i,
        {
            proof {
                assert(self@.tutors.take(i as int + 1).drop_last() =~= self@.tutors.take(i as int));
                assert(self@.tutors[i as int] == self.tutors@[i as int]@);
            }
            if !names.as_str().is_empty() {
                names.append(" ");
            }
            names.append(self.tutors[i].name().as_str());
            i += 1;
        }
        assert(self@.tutors.take(self.tutors@.len() as int) =~= self@.tutors);
        let mut r = String::new();
        r.append(self.name.as_str());
        r.append(" (");
        match &self.place {
            Some(p) => r.append(p.as_str()),
            None => r.append("Unknown"),
        }
        r.append(") <");
        r.append(names.as_str());
        r.append(">");
        r
    }

    /// Whether one of the periods is in progress at `now` (both ends included).
    pub fn is_in_progress_at(&self, now: NaiveDateTime) -> (r: bool)
        ensures
            r == course_in_progress(self@, now@),
    {
        let t = now.instant();
        let mut i: usize = 0;
        while i < self.periods.len()
            invariant
                0 <= i <= self.periods@.len(),
                t == now@,
                forall|j: int|
                    0 <= j < i ==> !period_in_progress(#[trigger] self@.periods[j], now@),
            decreases self.periods@.len() - i,
        {
            let p = &self.periods[i];
            if p.start().instant() <= t && t <= p.end().instant() {
                assert(period_in_progress(self@.periods[i as int], now@));
                return true;
            }
            i += 1;
        }
        false
    }

    /// Whether one of the periods is in progress now.
    pub fn is_in_progress<TP: TimeProvider>(&self, time_provider: &TP) -> (r: bool)
        ensures
            exists|t: int| instant_in_range(t) && agrees_with(time_provider.reading(), t) && r == course_in_progress(self@, t),
    {
        let now = time_provider.now();
        let t = now.instant();
        let r = self.is_in_progress_at(now);
        assert(instant_in_range(t as int) && agrees_with(time_provider.reading(), t as int) && r == course_in_progress(self@, t as int));
        r
    }

    /// Whether one of the periods starts in less than `delta` from `now`: at
    /// or after `now` and before `now + delta`.
    pub fn is_upcoming_at(&self, now: NaiveDateTime, delta: TimeDelta) -> (r: bool)
        ensures
            r == course_upcoming(self@, now@, delta@),
    {
        let t = now.instant();
        let end = now.checked_add_signed(delta);
        let d = delta.num_nanoseconds();
        let mut i: usize = 0;
        while i < self.periods.len()
            invariant
                0 <= i <= self.periods@.len(),
                t == now@,
                d == delta@,
                instant_in_range(now@),
                end is Some <==> instant_in_range(now@ + delta@),
                end matches Some(x) ==> x@ == now@ + delta@,
                forall|j: int|
                    0 <= j < i ==> !period_upcoming(#[trigger] self@.periods[j], now@, delta@),
            decreases self.periods@.len() - i,
        {
            let s = self.periods[i].start().instant();
            assert(self@.periods[i as int] == self.periods@[i as int]@);
            let found = match &end {
                Some(e) => t <= s && s < e.instant(),
                None => t <= s && d > 0,
            };
            if found {
                assert(period_upcoming(self@.periods[i as int], now@, delta@));
                return true;
            }
            assert(!period_upcoming(self@.periods[i as int], now@, delta@));
            i += 1;
        }
        false
    }

    /// Whether one of the periods starts in less than `delta` from now.
    pub fn is_upcoming<TP: TimeProvider>(&self, time_provider: &TP, delta: TimeDelta) -> (r: bool)
        ensures
            exists|t: int| instant_in_range(t) && agrees_with(time_provider.reading(), t) && r == course_upcoming(self@, t, delta@),
    {
        let now = time_provider.now();
        let t = now.instant();
        let r = self.is_upcoming_at(now, delta);
        assert(instant_in_range(t as int) && agrees_with(time_provider.reading(), t as int) && r == course_upcoming(self@, t as int, delta@));
        r
    }

    /// The earliest start, as an instant, among the periods that start at or
    /// after `now`.
    pub(crate) fn earliest_start_instant(&self, now: NaiveDateTime) -> (r: Option<i128>)
        ensures
            earliest_start_from(self@.periods, now@) == (match r {
                Some(k) => Some(k as int),
                None => None,
            }),
    {
        let t = now.instant();
        let mut best: Option<i128> = None;
        let mut i: usize = 0;
        while i < self.periods.len()
            invariant
                0 <= i <= self.periods@.len(),
                t == now@,
                match best {
                    Some(k) => is_earliest_start_from(self@.periods.take(i as int), now@, k as int),
                    None => forall|j: int| 0 <= j < i ==> #[trigger] self@.periods[j].start < now@,
                },
            decreases self.periods@.len() - i,
        {
            let ghost ps = self@.periods;
            proof {
                assert(ps[i as int] == self.periods@[i as int]@);
            }
            let s = self.periods[i].start().instant();
            if s >= t {
                let nb = match best {
                    Some(k) => if k <= s {
                        k
                    } else {
                        s
                    },
                    None => s,
                };
                proof {
                    let q = ps.take(i as int + 1);
                    assert(q[i as int] == ps[i as int]);
                    assert forall|j: int| 0 <= j < q.len() && #[trigger] q[j].start >= now@ implies nb
                        <= q[j].start by {
                        if j < i {
                            assert(q[j] == ps.take(i as int)[j]);
                        }
                    }
                    if nb == s {
                        assert(q[i as int].start == nb);
                    } else {
                        let k = best->Some_0;
                        let w = choose|w: int| 0 <= w < i && #[trigger] ps.take(i as int)[w].start == k
                            && k >= now@;
                        assert(q[w] == ps.take(i as int)[w]);
                    }
                    assert(is_earliest_start_from(q, now@, nb as int));
                }
                best = Some(nb);
            } else {
                proof {
                    let q = ps.take(i as int + 1);
                    if let Some(k) = best {
                        assert forall|j: int| 0 <= j < q.len() && #[trigger] q[j].start >= now@ implies k
                            <= q[j].start by {
                            if j < i {
                                assert(q[j] == ps.take(i as int)[j]);
                            }
                        }
                        let w = choose|w: int| 0 <= w < i && #[trigger] ps.take(i as int)[w].start == k
                            && k >= now@;
                        assert(q[w] == ps.take(i as int)[w]);
                    }
                }
            }
            i += 1;
        }
        let ghost ps = self@.periods;
        assert(ps.take(ps.len() as int) =~= ps);
        proof {
            match best {
                Some(k) => {
                    lemma_earliest_unique(ps, now@, k as int);
                },
                None => {},
            }
        }
        best
    }

    /// The period that starts next strictly after `now`, if any.
    pub fn nearest_period_at(&self, now: NaiveDateTime) -> (r: Option<&Period>)
        ensures
            is_nearest_after(self@.periods, now@, opt_period_view(r)),
    {
        let t = now.instant();
        let mut best: Option<&Period> = None;
        let mut best_start: i128 = 0;
        let mut i: usize = 0;
        while i < self.periods.len()
            invariant
                0 <= i <= self.periods@.len(),
                t == now@,
                match best {
                    None => forall|j: int|
                        0 <= j < i ==> #[trigger] self@.periods[j].start <= now@,
                    Some(p) => {
                        &&& self@.periods.contains(p@)
                        &&& best_start == p@.start
                        &&& p@.start > now@
                        &&& forall|j: int|
                            0 <= j < i && #[trigger] self@.periods[j].start > now@ ==> p@.start
                                <= self@.periods[j].start
                    },
                },
            decreases self.periods@.len() - i,
        {
            let p = &self.periods[i];
            let s = p.start().instant();
            assert(self@.periods[i as int] == p@);
            if t < s {
                match best {
                    None => {
                        best = Some(p);
                        best_start = s;
                    },
                    Some(_) => {
                        if s < best_start {
                            best = Some(p);
                            best_start = s;
                        }
                    },
                }
            }
            i += 1;
        }
        best
    }

    /// The period that starts next strictly after the current time, if any.
    pub fn nearest_period<TP: TimeProvider>(&self, time_provider: &TP) -> (r: Option<&Period>)
        ensures
            exists|t: int|
                instant_in_range(t) && agrees_with(time_provider.reading(), t) && is_nearest_after(self@.periods, t, opt_period_view(r)),
    {
        let now = time_provider.now();
        let t = now.instant();
        let r = self.nearest_period_at(now);
        assert(instant_in_range(t as int) && agrees_with(time_provider.reading(), t as int) && is_nearest_after(
            self@.periods,
            t as int,
            opt_period_view(r),
        ));
        r
    }
}

/// A course that starts within `d1` of `now` also starts within any longer `d2`.
pub proof fn lemma_upcoming_monotone(c: CourseView, now: int, d1: int, d2: int)
    requires
        d1 <= d2,
        course_upcoming(c, now, d1),
    ensures
        course_upcoming(c, now, d2),
{
    let i = choose|i: int| 0 <= i < c.periods.len() && period_upcoming(#[trigger] c.periods[i], now, d1);
    assert(period_upcoming(c.periods[i], now, d2));
}

/// Holding a period once or several times does not change whether a course is
/// in progress.
pub proof fn lemma_repeats_keep_in_progress(c: CourseView, now: int)
    ensures
        course_in_progress(c, now) == course_in_progress(
            CourseView { periods: dedup(c.periods), ..c },
            now,
        ),
{
    crate::distinct::lemma_dedup(c.periods);
    let d = dedup(c.periods);
    let cv = CourseView { periods: d, ..c };
    assert(cv.periods == d);
    if course_in_progress(c, now) {
        let i = choose|i: int| 0 <= i < c.periods.len() && period_in_progress(#[trigger] c.periods[i], now);
        assert(c.periods.contains(c.periods[i]));
        assert(d.contains(c.periods[i]));
        let j = choose|j: int| 0 <= j < d.len() && d[j] == c.periods[i];
        assert(period_in_progress(cv.periods[j], now));
    }
    if course_in_progress(cv, now) {
        let j = choose|j: int| 0 <= j < d.len() && period_in_progress(#[trigger] d[j], now);
        assert(d.contains(d[j]));
        assert(c.periods.contains(d[j]));
        let i = choose|i: int| 0 <= i < c.periods.len() && c.periods[i] == d[j];
        assert(period_in_progress(c.periods[i], now));
    }
}

/// Two courses are equal exactly when they have the same name and place,
/// and every tutor and every period of either is one of the other's.
pub proof fn lemma_course_eq_exact(a: Course, b: Course)
    ensures
        a.eq_spec(&b) == {
            &&& a@.name == b@.name
        &&& a@.place == b@.place
            &&& forall|t: Seq<char>| a@.tutors.contains(t) <==> b@.tutors.contains(t)
            &&& forall|p| a@.periods.contains(p) <==> b@.periods.contains(p)
        },
{
    lemma_same_items(a@.tutors, b@.tutors);
    lemma_same_items(a@.periods, b@.periods);
}

/// Course equality is symmetric.
pub proof fn lemma_course_eq_symmetric(a: Course, b: Course)
    ensures
        a.eq_spec(&b) == b.eq_spec(&a),
{
    lemma_course_eq_exact(a, b);
    lemma_course_eq_exact(b, a);
}

/// A course with a tutor that another lacks is not equal to it, either way.
pub proof fn lemma_course_eq_tutor_missing(a: Course, b: Course, tutor: Seq<char>)
    requires
        a@.tutors.contains(tutor),
        !b@.tutors.contains(tutor),
    ensures
        !a.eq_spec(&b),
        !b.eq_spec(&a),
{
    lemma_course_eq_exact(a, b);
    lemma_course_eq_exact(b, a);
}

/// A course with a period that another lacks is not equal to it, either way.
pub proof fn lemma_course_eq_period_missing(a: Course, b: Course, period: PeriodView)
    requires
        a@.periods.contains(period),
        !b@.periods.contains(period),
    ensures
        !a.eq_spec(&b),
        !b.eq_spec(&a),
{
    lemma_course_eq_exact(a, b);
    lemma_course_eq_exact(b, a);
}

} // verus!
