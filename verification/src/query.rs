//! Queries over a collection of courses: those in progress, those starting
//! soon, those with given names, and the courses in the order in which they
//! next take place. A collection yields courses or references to courses.

use vstd::prelude::*;
use crate::course::{Course, CourseView, course_in_progress, course_upcoming, earliest_start_from};
use crate::time::{NaiveDateTime, TimeDelta, instant_in_range};
use crate::time_provider::{TimeProvider, agrees_with};

verus! {

broadcast use vstd::seq_lib::group_to_multiset_ensures;

/// A course, or a reference to one, as a collection of courses yields it.
pub trait CourseItem: Sized {
    /// The course this item stands for.
    spec fn as_course(&self) -> Course;

    /// The course this item stands for.
    fn course(&self) -> (r: &Course)
        ensures
            *r == self.as_course(),
    ;
}

impl CourseItem for Course {
    open spec fn as_course(&self) -> Course {
        *self
    }

    fn course(&self) -> (r: &Course) {
        self
    }
}

impl<'a> CourseItem for &'a Course {
    open spec fn as_course(&self) -> Course {
        **self
    }

    fn course(&self) -> (r: &Course) {
        *self
    }
}

/// What the course of an item is.
pub open spec fn cv<C: CourseItem>(c: C) -> CourseView {
    c.as_course()@
}

/// Holds for the courses that are in progress at `now`.
pub open spec fn in_progress_pred<C: CourseItem>(now: int) -> spec_fn(C) -> bool {
    |c: C| course_in_progress(cv(c), now)
}

/// Holds for the courses with a period starting in less than `delta` from `now`.
pub open spec fn upcoming_pred<C: CourseItem>(now: int, delta: int) -> spec_fn(C) -> bool {
    |c: C| course_upcoming(cv(c), now, delta)
}

/// Holds for the courses whose name is one of `names`.
pub open spec fn named_pred<C: CourseItem>(names: Seq<Seq<char>>) -> spec_fn(C) -> bool {
    |c: C| names.contains(cv(c).name)
}

/// Holds for the courses with a period starting at or after `now`.
pub open spec fn has_next_start_pred<C: CourseItem>(now: int) -> spec_fn(C) -> bool {
    |c: C| earliest_start_from(cv(c).periods, now) is Some
}

/// The earliest start at or after `now` of a course's periods (0 when there is none).
pub open spec fn next_start_key(c: CourseView, now: int) -> int {
    match earliest_start_from(c.periods, now) {
        Some(k) => k,
        None => 0,
    }
}

/// The courses are in order of their earliest start at or after `now`.
pub open spec fn sorted_by_next_start<C: CourseItem>(s: Seq<C>, now: int) -> bool {
    forall|i: int, j: int|
        0 <= i < j < s.len() ==> next_start_key(cv(s[i]), now) <= next_start_key(cv(s[j]), now)
}

/// `r` holds the courses of `courses` that have a period starting at or after
/// `now`, each as often as there, ordered by the earliest such start; courses
/// whose earliest starts are equal may come in either order.
pub open spec fn is_nearest_order<C: CourseItem>(courses: Seq<C>, now: int, r: Seq<C>) -> bool {
    &&& r.to_multiset() == courses.filter(has_next_start_pred(now)).to_multiset()
    &&& sorted_by_next_start(r, now)
}

/// How many of the ordered courses `full` the nearest ones are: none when
/// `num` is 0; all when there are at most `num`; otherwise the first `num`
/// and then every following course whose next start equals that of the
/// `num`-th.
pub open spec fn is_nearest_cut<C: CourseItem>(full: Seq<C>, now: int, num: int, k: int) -> bool {
    &&& 0 <= k <= full.len()
    &&& num == 0 ==> k == 0
    &&& num > 0 && num >= full.len() ==> k == full.len()
    &&& num > 0 && num < full.len() ==> {
        &&& num <= k
        &&& forall|i: int|
            num <= i < k ==> #[trigger] next_start_key(cv(full[i]), now) == next_start_key(
                cv(full[num - 1]),
                now,
            )
        &&& k < full.len() ==> next_start_key(cv(full[k]), now) != next_start_key(
            cv(full[num - 1]),
            now,
        )
    }
}

/// `r` holds the `num` courses of `courses` that next take place at or after
/// `now`, in order of that start, together with any further course whose
/// next start ties with the `num`-th.
pub open spec fn is_nearest<C: CourseItem>(courses: Seq<C>, now: int, num: int, r: Seq<C>) -> bool {
    exists|full: Seq<C>|
        {
            &&& is_nearest_order(courses, now, full)
            &&& is_nearest_cut(full, now, num, r.len() as int)
            &&& r == full.take(r.len() as int)
        }
}

/// Which of `keep` are true, taken from `s`: the items of `s` at the
/// positions where `keep` is true, in order.
pub open spec fn select<A>(s: Seq<A>, keep: Seq<bool>) -> Seq<A>
    decreases s.len(),
{
    if s.len() == 0 || keep.len() == 0 {
        Seq::empty()
    } else {
        let rest = select(s.drop_last(), keep.drop_last());
        if keep.last() {
            rest.push(s.last())
        } else {
            rest
        }
    }
}

/// The courses in progress at `now`, in their order.
pub fn in_progress_at<C: CourseItem>(courses: Vec<C>, now: NaiveDateTime) -> (r: Vec<C>)
    ensures
        r@ == courses@.filter(in_progress_pred(now@)),
{
    let ghost all = courses@;
    let ghost pred = in_progress_pred::<C>(now@);
    let mut rest = courses;
    let mut out: Vec<C> = Vec::new();
    let ghost mut i: int = 0;
    while rest.len() > 0
        invariant
            0 <= i <= all.len(),
            rest@ == all.skip(i),
            out@ == all.take(i).filter(pred),
            pred == in_progress_pred::<C>(now@),
        decreases rest@.len(),
    {
        proof {
            assert(all.take(i + 1) =~= all.take(i).push(all[i]));
            all.take(i).lemma_filter_push(all[i], pred);
            assert(rest@[0] == all[i]);
        }
        let c = rest.remove(0);
        if c.course().is_in_progress_at(now) {
            out.push(c);
        }
        proof {
            assert(rest@ =~= all.skip(i + 1));
            i = i + 1;
        }
    }
    assert(all.take(i) =~= all);
    out
}

/// The courses with a period starting in less than `delta` from `now` (at or
/// after `now`, before `now + delta`), in their order.
pub fn upcoming_at<C: CourseItem>(courses: Vec<C>, now: NaiveDateTime, delta: TimeDelta) -> (r: Vec<C>)
    ensures
        r@ == courses@.filter(upcoming_pred(now@, delta@)),
{
    let ghost all = courses@;
    let ghost pred = upcoming_pred::<C>(now@, delta@);
    let mut rest = courses;
    let mut out: Vec<C> = Vec::new();
    let ghost mut i: int = 0;
    while rest.len() > 0
        invariant
            0 <= i <= all.len(),
            rest@ == all.skip(i),
            out@ == all.take(i).filter(pred),
            pred == upcoming_pred::<C>(now@, delta@),
        decreases rest@.len(),
    {
        proof {
            assert(all.take(i + 1) =~= all.take(i).push(all[i]));
            all.take(i).lemma_filter_push(all[i], pred);
            assert(rest@[0] == all[i]);
        }
        let c = rest.remove(0);
        if c.course().is_upcoming_at(now, delta) {
            out.push(c);
        }
        proof {
            assert(rest@ =~= all.skip(i + 1));
            i = i + 1;
        }
    }
    assert(all.take(i) =~= all);
    out
}

/// The courses whose name is one of `names`, in their order.
pub fn named<C: CourseItem>(courses: Vec<C>, names: &[&str]) -> (r: Vec<C>)
    ensures
        r@ == courses@.filter(named_pred(str_views(names@))),
{
    let owned = owned_names(names);
    let ghost all = courses@;
    let ghost pred = named_pred::<C>(str_views(names@));
    let mut rest = courses;
    let mut out: Vec<C> = Vec::new();
    let ghost mut i: int = 0;
    while rest.len() > 0
        invariant
            0 <= i <= all.len(),
            rest@ == all.skip(i),
            out@ == all.take(i).filter(pred),
            pred == named_pred::<C>(str_views(names@)),
            string_views(owned@) == str_views(names@),
        decreases rest@.len(),
    {
        proof {
            assert(all.take(i + 1) =~= all.take(i).push(all[i]));
            all.take(i).lemma_filter_push(all[i], pred);
            assert(rest@[0] == all[i]);
        }
        let c = rest.remove(0);
        if is_listed(&owned, c.course().name()) {
            out.push(c);
        }
        proof {
            assert(rest@ =~= all.skip(i + 1));
            i = i + 1;
        }
    }
    assert(all.take(i) =~= all);
    out
}

/// The `num` courses that next take place at or after `now`, ordered by that
/// start; a course whose next start ties with the `num`-th is kept too.
pub fn nearest_at<C: CourseItem>(courses: Vec<C>, now: NaiveDateTime, num: usize) -> (r: Vec<C>)
    ensures
        is_nearest(courses@, now@, num as int, r@),
{
    // The courses with an upcoming start, and those starts.
    let ghost all = courses@;
    let ghost pred = has_next_start_pred::<C>(now@);
    let mut rest = courses;
    let mut items: Vec<C> = Vec::new();
    let mut keys: Vec<i128> = Vec::new();
    let ghost mut i: int = 0;
    while rest.len() > 0
        invariant
            0 <= i <= all.len(),
            rest@ == all.skip(i),
            pred == has_next_start_pred::<C>(now@),
            items@ == all.take(i).filter(pred),
            keys@.len() == items@.len(),
            forall|k: int|
                0 <= k < items@.len() ==> earliest_start_from(#[trigger] cv(items@[k]).periods, now@)
                    == Some(keys@[k] as int),
        decreases rest@.len(),
    {
        proof {
            assert(all.take(i + 1) =~= all.take(i).push(all[i]));
            all.take(i).lemma_filter_push(all[i], pred);
            assert(rest@[0] == all[i]);
        }
        let c = rest.remove(0);
        match c.course().earliest_start_instant(now) {
            Some(k) => {
                items.push(c);
                keys.push(k);
            },
            None => {},
        }
        proof {
            assert(rest@ =~= all.skip(i + 1));
            i = i + 1;
        }
    }
    assert(all.take(i) =~= all);
    // Insertion sort by start; equal starts keep their order.
    let ghost found = items@;
    let mut out: Vec<C> = Vec::new();
    let mut out_keys: Vec<i128> = Vec::new();
    let mut j: usize = 0;
    let mut pending = items;
    while j < keys.len()
        invariant
            0 <= j <= found.len(),
            keys@.len() == found.len(),
            pending@ == found.skip(j as int),
            forall|k: int|
                0 <= k < found.len() ==> earliest_start_from(#[trigger] cv(found[k]).periods, now@)
                    == Some(keys@[k] as int),
            out_keys@.len() == out@.len(),
            forall|k: int|
                0 <= k < out@.len() ==> next_start_key(#[trigger] cv(out@[k]), now@)
                    == out_keys@[k],
            forall|a: int, b: int| 0 <= a < b < out_keys@.len() ==> out_keys@[a] <= out_keys@[b],
            out@.to_multiset() == found.take(j as int).to_multiset(),
        decreases found.len() - j,
    {
        let key = keys[j];
        let mut pos: usize = 0;
        while pos < out_keys.len() && out_keys[pos] <= key
            invariant
                0 <= pos <= out_keys@.len(),
                forall|k: int| 0 <= k < pos ==> out_keys@[k] <= key,
            decreases out_keys@.len() - pos,
        {
            pos += 1;
        }
        proof {
            assert(found.take(j as int + 1) =~= found.take(j as int).push(found[j as int]));
            assert(next_start_key(cv(found[j as int]), now@) == key);
            assert(pending@[0] == found[j as int]);
        }
        let c = pending.remove(0);
        out.insert(pos, c);
        out_keys.insert(pos, key);
        proof {
            assert(pending@ =~= found.skip(j as int + 1));
        }
        j += 1;
    }
    assert(found.take(found.len() as int) =~= found);
    proof {
        assert forall|a: int, b: int| 0 <= a < b < out@.len() implies next_start_key(
            cv(out@[a]),
            now@,
        ) <= next_start_key(cv(out@[b]), now@) by {
            assert(next_start_key(cv(out@[a]), now@) == out_keys@[a]);
            assert(next_start_key(cv(out@[b]), now@) == out_keys@[b]);
        }
    }
    let ghost full = out@;
    assert(is_nearest_order(all, now@, full));
    // Keep the first `num`, and those tied with the `num`-th.
    let len = out.len();
    let k: usize = if num == 0 {
        0
    } else if num >= len {
        len
    } else {
        let bound = out_keys[num - 1];
        let mut k: usize = num;
        while k < len && out_keys[k] == bound
            invariant
                num <= k <= len,
                len == out_keys@.len(),
                bound == out_keys@[num - 1],
                forall|i: int| num <= i < k ==> out_keys@[i] == bound,
            decreases len - k,
        {
            k += 1;
        }
        k
    };
    out.truncate(k);
    proof {
        assert(out@ == full.take(k as int));
        if num > 0 && num < len {
            assert forall|i: int| num <= i < k implies #[trigger] next_start_key(
                cv(full[i]),
                now@,
            ) == next_start_key(cv(full[num - 1]), now@) by {
                assert(next_start_key(cv(full[i]), now@) == out_keys@[i]);
                assert(next_start_key(cv(full[num - 1]), now@) == out_keys@[num - 1]);
            }
            if k < len {
                assert(next_start_key(cv(full[k as int]), now@) == out_keys@[k as int]);
                assert(next_start_key(cv(full[num - 1]), now@) == out_keys@[num - 1]);
            }
        }
        assert(is_nearest_cut(full, now@, num as int, out@.len() as int));
    }
    out
}

/// Two filters give the same result in either order.
pub proof fn lemma_filter_commutes<A>(s: Seq<A>, p: spec_fn(A) -> bool, q: spec_fn(A) -> bool)
    ensures
        s.filter(p).filter(q) == s.filter(q).filter(p),
    decreases s.len(),
{
    if s.len() > 0 {
        let d = s.drop_last();
        let x = s.last();
        lemma_filter_commutes(d, p, q);
        assert(s == d.push(x));
        d.lemma_filter_push(x, p);
        d.lemma_filter_push(x, q);
        d.filter(p).lemma_filter_push(x, q);
        d.filter(q).lemma_filter_push(x, p);
    }
}

/// How often an item occurs after filtering: as often as before when it
/// passes the filter, never otherwise.
pub proof fn lemma_filter_count<A>(s: Seq<A>, p: spec_fn(A) -> bool, x: A)
    ensures
        s.filter(p).to_multiset().count(x) == if p(x) {
            s.to_multiset().count(x)
        } else {
            0
        },
    decreases s.len(),
{
    broadcast use vstd::multiset::group_multiset_axioms;

    if s.len() == 0 {
        reveal(Seq::filter);
    } else {
        let d = s.drop_last();
        let y = s.last();
        lemma_filter_count(d, p, x);
        assert(s == d.push(y));
        d.lemma_filter_push(y, p);
    }
}

/// Sequences with the same items keep the same items under a filter.
pub proof fn lemma_filter_same_items<A>(a: Seq<A>, b: Seq<A>, p: spec_fn(A) -> bool)
    requires
        a.to_multiset() == b.to_multiset(),
    ensures
        a.filter(p).to_multiset() == b.filter(p).to_multiset(),
{
    assert forall|x: A| a.filter(p).to_multiset().count(x) == b.filter(p).to_multiset().count(x) by {
        lemma_filter_count(a, p, x);
        lemma_filter_count(b, p, x);
    }
    assert(a.filter(p).to_multiset() =~= b.filter(p).to_multiset());
}

/// Courses in order of their next start stay in that order under a filter.
pub proof fn lemma_sorted_filter<C: CourseItem>(r: Seq<C>, now: int, p: spec_fn(C) -> bool)
    requires
        sorted_by_next_start(r, now),
    ensures
        sorted_by_next_start(r.filter(p), now),
    decreases r.len(),
{
    if r.len() > 0 {
        let d = r.drop_last();
        let x = r.last();
        assert(sorted_by_next_start(d, now));
        lemma_sorted_filter(d, now, p);
        assert(r == d.push(x));
        d.lemma_filter_push(x, p);
        if p(x) {
            let f = d.filter(p);
            assert forall|i: int, j: int| 0 <= i < j < f.push(x).len() implies next_start_key(
                cv(f.push(x)[i]),
                now,
            ) <= next_start_key(cv(f.push(x)[j]), now) by {
                if j == f.len() {
                    assert(f.contains(f[i]));
                    d.lemma_filter_contains_rev(p, f[i]);
                    let k = choose|k: int| 0 <= k < d.len() && d[k] == f[i];
                    assert(r[k] == f[i]);
                    assert(r[r.len() - 1] == x);
                } else {
                    assert(f.push(x)[i] == f[i]);
                    assert(f.push(x)[j] == f[j]);
                }
            }
        }
    }
}

/// Ordering courses by their next start and then keeping those with one of
/// the given names gives the courses with those names in order of their
/// next start: ordering and keeping by name may be done in either order
/// (before any cut to the nearest `num`).
pub proof fn lemma_nearest_then_named<C: CourseItem>(
    courses: Seq<C>,
    names: Seq<Seq<char>>,
    now: int,
    r: Seq<C>,
)
    requires
        is_nearest_order(courses, now, r),
    ensures
        is_nearest_order(courses.filter(named_pred(names)), now, r.filter(named_pred(names))),
{
    lemma_filter_same_items(r, courses.filter(has_next_start_pred(now)), named_pred(names));
    lemma_filter_commutes(courses, has_next_start_pred(now), named_pred(names));
    lemma_sorted_filter(r, now, named_pred(names));
}

/// Keeping the courses with given names and keeping the courses in progress
/// may be done in either order.
pub proof fn lemma_named_in_progress_commute<C: CourseItem>(
    courses: Seq<C>,
    names: Seq<Seq<char>>,
    now: int,
)
    ensures
        courses.filter(named_pred(names)).filter(in_progress_pred(now)) == courses.filter(
            in_progress_pred(now),
        ).filter(named_pred(names)),
{
    lemma_filter_commutes(courses, named_pred(names), in_progress_pred(now));
}

/// Keeping the courses with given names and keeping the upcoming courses may
/// be done in either order.
pub proof fn lemma_named_upcoming_commute<C: CourseItem>(
    courses: Seq<C>,
    names: Seq<Seq<char>>,
    now: int,
    delta: int,
)
    ensures
        courses.filter(named_pred(names)).filter(upcoming_pred(now, delta)) == courses.filter(
            upcoming_pred(now, delta),
        ).filter(named_pred(names)),
{
    lemma_filter_commutes(courses, named_pred(names), upcoming_pred(now, delta));
}

/// The text of each string slice.
pub open spec fn str_views<'b>(names: Seq<&'b str>) -> Seq<Seq<char>> {
    names.map_values(|n: &'b str| n@)
}

/// The text of each string.
pub open spec fn string_views(names: Seq<String>) -> Seq<Seq<char>> {
    names.map_values(|n: String| n@)
}

/// Whether one of `names` is `name`.
pub(crate) fn is_listed(names: &Vec<String>, name: &String) -> (r: bool)
    ensures
        r == string_views(names@).contains(name@),
{
    let ghost v = string_views(names@);
    let mut i: usize = 0;
    while i < names.len()
        invariant
            0 <= i <= names@.len(),
            v == string_views(names@),
            forall|k: int| 0 <= k < i ==> v[k] != name@,
        decreases names@.len() - i,
    {
        assert(v[i as int] == names@[i as int]@);
        if names[i].eq(name) {
            assert(v[i as int] == name@);
            return true;
        }
        i += 1;
    }
    false
}

/// The names, as owned strings.
pub(crate) fn owned_names(names: &[&str]) -> (owned: Vec<String>)
    ensures
        string_views(owned@) == str_views(names@),
{
    let mut owned: Vec<String> = Vec::new();
    let mut k: usize = 0;
    while k < names.len()
        invariant
            0 <= k <= names@.len(),
            owned@.len() == k,
            string_views(owned@) == str_views(names@).take(k as int),
        decreases names@.len() - k,
    {
        let name: String = names[k].to_owned();
        assert(name@ == str_views(names@)[k as int]);
        let ghost before = owned@;
        owned.push(name);
        proof {
            assert(owned@ == before.push(name));
            assert forall|j: int| 0 <= j < k implies string_views(owned@)[j] == string_views(
                before,
            )[j] by {
                assert(owned@[j] == before[j]);
            }
            assert(string_views(owned@) =~= str_views(names@).take(k as int + 1));
        }
        k += 1;
    }
    assert(str_views(names@).take(names@.len() as int) =~= str_views(names@));
    owned
}

/// A collection of courses that can be queried.
pub trait Query<C: CourseItem>: Sized {
    /// The courses of the collection, in order.
    spec fn courses(&self) -> Seq<C>;

    /// The courses of the collection, in order.
    fn into_courses(self) -> (r: Vec<C>)
        ensures
            r@ == self.courses(),
    ;

    /// The courses for which `f` holds, in order.
    fn filter<F: Fn(&Course) -> bool>(self, f: F) -> (r: Vec<C>)
        requires
            forall|i: int|
                0 <= i < self.courses().len() ==> f.requires((&self.courses()[i].as_course(),)),
        ensures
            exists|keep: Seq<bool>|
                {
                    &&& keep.len() == self.courses().len()
                    &&& forall|i: int|
                        0 <= i < keep.len() ==> f.ensures(
                            (&self.courses()[i].as_course(),),
                            #[trigger] keep[i],
                        )
                    &&& r@ == select(self.courses(), keep)
                },
    {
        let ghost s = self.courses();
        let mut rest = self.into_courses();
        let ghost mut keep: Seq<bool> = Seq::empty();
        let mut out: Vec<C> = Vec::new();
        let ghost mut i: int = 0;
        while rest.len() > 0
            invariant
                0 <= i <= s.len(),
                rest@ == s.skip(i),
                forall|k: int| 0 <= k < s.len() ==> f.requires((&s[k].as_course(),)),
                keep.len() == i,
                forall|k: int| 0 <= k < i ==> f.ensures((&s[k].as_course(),), #[trigger] keep[k]),
                out@ == select(s.take(i), keep),
            decreases rest@.len(),
        {
            proof {
                assert(rest@[0] == s[i]);
            }
            let c = rest.remove(0);
            let b = f(c.course());
            proof {
                assert(s.take(i + 1).drop_last() =~= s.take(i));
                assert(keep.push(b).drop_last() =~= keep);
                keep = keep.push(b);
            }
            if b {
                out.push(c);
            }
            proof {
                assert(rest@ =~= s.skip(i + 1));
                i = i + 1;
            }
        }
        assert(s.take(i) =~= s);
        out
    }

    /// The courses in progress now, in order.
    fn in_progress<TP: TimeProvider>(self, time_provider: &TP) -> (r: Vec<C>)
        ensures
            exists|t: int|
                instant_in_range(t) && agrees_with(time_provider.reading(), t) && r@
                    == self.courses().filter(in_progress_pred(t)),
    {
        let now = time_provider.now();
        let t = now.instant();
        let r = in_progress_at(self.into_courses(), now);
        assert(instant_in_range(t as int) && agrees_with(time_provider.reading(), t as int) && r@
            == self.courses().filter(in_progress_pred(t as int)));
        r
    }

    /// The courses with a period starting in less than `delta` from now, in
    /// order.
    fn upcoming<TP: TimeProvider>(self, time_provider: &TP, delta: TimeDelta) -> (r: Vec<C>)
        ensures
            exists|t: int|
                instant_in_range(t) && agrees_with(time_provider.reading(), t) && r@
                    == self.courses().filter(upcoming_pred(t, delta@)),
    {
        let now = time_provider.now();
        let t = now.instant();
        let r = upcoming_at(self.into_courses(), now, delta);
        assert(instant_in_range(t as int) && agrees_with(time_provider.reading(), t as int) && r@
            == self.courses().filter(upcoming_pred(t as int, delta@)));
        r
    }

    /// The courses whose name is one of `names`, in order.
    fn filter_by_name(self, names: &[&str]) -> (r: Vec<C>)
        ensures
            r@ == self.courses().filter(named_pred(str_views(names@))),
    {
        named(self.into_courses(), names)
    }

    /// The `num` courses that next take place at or after now, ordered by
    /// that start; a course whose next start ties with the `num`-th is kept too.
    fn nearest<TP: TimeProvider>(self, time_provider: &TP, num: usize) -> (r: Vec<C>)
        ensures
            exists|t: int|
                instant_in_range(t) && agrees_with(time_provider.reading(), t) && is_nearest(
                    self.courses(),
                    t,
                    num as int,
                    r@,
                ),
    {
        let now = time_provider.now();
        let t = now.instant();
        let r = nearest_at(self.into_courses(), now, num);
        assert(instant_in_range(t as int) && agrees_with(time_provider.reading(), t as int)
            && is_nearest(self.courses(), t as int, num as int, r@));
        r
    }
}

/// A single collection of courses, or of references to courses.
pub trait CourseSource<C: CourseItem>: Sized {
    /// The courses of the collection, in order.
    spec fn items(&self) -> Seq<C>;

    /// The courses of the collection, in order.
    fn into_items(self) -> (r: Vec<C>)
        ensures
            r@ == self.items(),
    ;
}

impl<C: CourseItem> CourseSource<C> for Vec<C> {
    open spec fn items(&self) -> Seq<C> {
        self@
    }

    fn into_items(self) -> (r: Vec<C>) {
        self
    }
}

/// References to the courses of a slice, in order.
pub open spec fn refs_of<'a>(s: &'a [Course]) -> Seq<&'a Course> {
    Seq::new(s@.len(), |i: int| &s@[i])
}

/// References to the courses of a slice, in order.
fn slice_refs<'a>(s: &'a [Course]) -> (r: Vec<&'a Course>)
    ensures
        r@ == refs_of(s),
{
    let mut out: Vec<&'a Course> = Vec::new();
    let mut i: usize = 0;
    while i < s.len()
        invariant
            0 <= i <= s@.len(),
            out@ == refs_of(s).take(i as int),
        decreases s@.len() - i,
    {
        out.push(&s[i]);
        assert(out@ =~= refs_of(s).take(i as int + 1));
        i += 1;
    }
    assert(refs_of(s).take(s@.len() as int) =~= refs_of(s));
    out
}

impl<'a> CourseSource<&'a Course> for &'a [Course] {
    open spec fn items(&self) -> Seq<&'a Course> {
        refs_of(*self)
    }

    fn into_items(self) -> (r: Vec<&'a Course>) {
        slice_refs(self)
    }
}

impl<C: CourseItem> Query<C> for Vec<C> {
    open spec fn courses(&self) -> Seq<C> {
        self@
    }

    fn into_courses(self) -> (r: Vec<C>) {
        self
    }
}

impl<'a> Query<&'a Course> for &'a [Course] {
    open spec fn courses(&self) -> Seq<&'a Course> {
        refs_of(*self)
    }

    fn into_courses(self) -> (r: Vec<&'a Course>) {
        slice_refs(self)
    }
}

impl<C: CourseItem, S0: CourseSource<C>> Query<C> for (S0,) {
    open spec fn courses(&self) -> Seq<C> {
        self.0.items()
    }

    fn into_courses(self) -> (r: Vec<C>)
        ensures
            r@ == self.0.items(),
    {
        let mut r = self.0.into_items();
        r
    }
}

impl<C: CourseItem, S0: CourseSource<C>, S1: CourseSource<C>> Query<C> for (S0, S1) {
    open spec fn courses(&self) -> Seq<C> {
        self.0.items() + self.1.items()
    }

    fn into_courses(self) -> (r: Vec<C>)
        ensures
            r@ == self.0.items() + self.1.items(),
    {
        let mut r = self.0.into_items();
        let mut more = self.1.into_items();
        r.append(&mut more);
        r
    }
}

impl<C: CourseItem, S0: CourseSource<C>, S1: CourseSource<C>, S2: CourseSource<C>> Query<C> for (S0, S1, S2) {
    open spec fn courses(&self) -> Seq<C> {
        self.0.items() + self.1.items() + self.2.items()
    }

    fn into_courses(self) -> (r: Vec<C>)
        ensures
            r@ == self.0.items() + self.1.items() + self.2.items(),
    {
        let mut r = self.0.into_items();
        let mut more = self.1.into_items();
        r.append(&mut more);
        let mut more = self.2.into_items();
        r.append(&mut more);
        r
    }
}

impl<C: CourseItem, S0: CourseSource<C>, S1: CourseSource<C>, S2: CourseSource<C>, S3: CourseSource<C>> Query<C> for (S0, S1, S2, S3) {
    open spec fn courses(&self) -> Seq<C> {
        self.0.items() + self.1.items() + self.2.items() + self.3.items()
    }

    fn into_courses(self) -> (r: Vec<C>)
        ensures
            r@ == self.0.items() + self.1.items() + self.2.items() + self.3.items(),
    {
        let mut r = self.0.into_items();
        let mut more = self.1.into_items();
        r.append(&mut more);
        let mut more = self.2.into_items();
        r.append(&mut more);
        let mut more = self.3.into_items();
        r.append(&mut more);
        r
    }
}

impl<C: CourseItem, S0: CourseSource<C>, S1: CourseSource<C>, S2: CourseSource<C>, S3: CourseSource<C>, S4: CourseSource<C>> Query<C> for (S0, S1, S2, S3, S4) {
    open spec fn courses(&self) -> Seq<C> {
        self.0.items() + self.1.items() + self.2.items() + self.3.items() + self.4.items()
    }

    fn into_courses(self) -> (r: Vec<C>)
        ensures
            r@ == self.0.items() + self.1.items() + self.2.items() + self.3.items() + self.4.items(),
    {
        let mut r = self.0.into_items();
        let mut more = self.1.into_items();
        r.append(&mut more);
        let mut more = self.2.into_items();
        r.append(&mut more);
        let mut more = self.3.into_items();
        r.append(&mut more);
        let mut more = self.4.into_items();
        r.append(&mut more);
        r
    }
}

impl<C: CourseItem, S0: CourseSource<C>, S1: CourseSource<C>, S2: CourseSource<C>, S3: CourseSource<C>, S4: CourseSource<C>, S5: CourseSource<C>> Query<C> for (S0, S1, S2, S3, S4, S5) {
    open spec fn courses(&self) -> Seq<C> {
        self.0.items() + self.1.items() + self.2.items() + self.3.items() + self.4.items() + self.5.items()
    }

    fn into_courses(self) -> (r: Vec<C>)
        ensures
            r@ == self.0.items() + self.1.items() + self.2.items() + self.3.items() + self.4.items() + self.5.items(),
    {
        let mut r = self.0.into_items();
        let mut more = self.1.into_items();
        r.append(&mut more);
        let mut more = self.2.into_items();
        r.append(&mut more);
        let mut more = self.3.into_items();
        r.append(&mut more);
        let mut more = self.4.into_items();
        r.append(&mut more);
        let mut more = self.5.into_items();
        r.append(&mut more);
        r
    }
}

impl<C: CourseItem, S0: CourseSource<C>, S1: CourseSource<C>, S2: CourseSource<C>, S3: CourseSource<C>, S4: CourseSource<C>, S5: CourseSource<C>, S6: CourseSource<C>> Query<C> for (S0, S1, S2, S3, S4, S5, S6) {
    open spec fn courses(&self) -> Seq<C> {
        self.0.items() + self.1.items() + self.2.items() + self.3.items() + self.4.items() + self.5.items() + self.6.items()
    }

    fn into_courses(self) -> (r: Vec<C>)
        ensures
            r@ == self.0.items() + self.1.items() + self.2.items() + self.3.items() + self.4.items() + self.5.items() + self.6.items(),
    {
        let mut r = self.0.into_items();
        let mut more = self.1.into_items();
        r.append(&mut more);
        let mut more = self.2.into_items();
        r.append(&mut more);
        let mut more = self.3.into_items();
        r.append(&mut more);
        let mut more = self.4.into_items();
        r.append(&mut more);
        let mut more = self.5.into_items();
        r.append(&mut more);
        let mut more = self.6.into_items();
        r.append(&mut more);
        r
    }
}

impl<C: CourseItem, S0: CourseSource<C>, S1: CourseSource<C>, S2: CourseSource<C>, S3: CourseSource<C>, S4: CourseSource<C>, S5: CourseSource<C>, S6: CourseSource<C>, S7: CourseSource<C>> Query<C> for (S0, S1, S2, S3, S4, S5, S6, S7) {
    open spec fn courses(&self) -> Seq<C> {
        self.0.items() + self.1.items() + self.2.items() + self.3.items() + self.4.items() + self.5.items() + self.6.items() + self.7.items()
    }

    fn into_courses(self) -> (r: Vec<C>)
        ensures
            r@ == self.0.items() + self.1.items() + self.2.items() + self.3.items() + self.4.items() + self.5.items() + self.6.items() + self.7.items(),
    {
        let mut r = self.0.into_items();
        let mut more = self.1.into_items();
        r.append(&mut more);
        let mut more = self.2.into_items();
        r.append(&mut more);
        let mut more = self.3.into_items();
        r.append(&mut more);
        let mut more = self.4.into_items();
        r.append(&mut more);
        let mut more = self.5.into_items();
        r.append(&mut more);
        let mut more = self.6.into_items();
        r.append(&mut more);
        let mut more = self.7.into_items();
        r.append(&mut more);
        r
    }
}

impl<C: CourseItem, S0: CourseSource<C>, S1: CourseSource<C>, S2: CourseSource<C>, S3: CourseSource<C>, S4: CourseSource<C>, S5: CourseSource<C>, S6: CourseSource<C>, S7: CourseSource<C>, S8: CourseSource<C>> Query<C> for (S0, S1, S2, S3, S4, S5, S6, S7, S8) {
    open spec fn courses(&self) -> Seq<C> {
        self.0.items() + self.1.items() + self.2.items() + self.3.items() + self.4.items() + self.5.items() + self.6.items() + self.7.items() + self.8.items()
    }

    fn into_courses(self) -> (r: Vec<C>)
        ensures
            r@ == self.0.items() + self.1.items() + self.2.items() + self.3.items() + self.4.items() + self.5.items() + self.6.items() + self.7.items() + self.8.items(),
    {
        let mut r = self.0.into_items();
        let mut more = self.1.into_items();
        r.append(&mut more);
        let mut more = self.2.into_items();
        r.append(&mut more);
        let mut more = self.3.into_items();
        r.append(&mut more);
        let mut more = self.4.into_items();
        r.append(&mut more);
        let mut more = self.5.into_items();
        r.append(&mut more);
        let mut more = self.6.into_items();
        r.append(&mut more);
        let mut more = self.7.into_items();
        r.append(&mut more);
        let mut more = self.8.into_items();
        r.append(&mut more);
        r
    }
}

/// A tuple of 1 collection holds the courses of each, one collection after another.
pub proof fn lemma_tuple1_courses<C: CourseItem, S0: CourseSource<C>>(t: (S0,))
    ensures
        t.courses() == t.0.items(),
{
}

/// A tuple of 2 collections holds the courses of each, one collection after another.
pub proof fn lemma_tuple2_courses<C: CourseItem, S0: CourseSource<C>, S1: CourseSource<C>>(t: (S0, S1))
    ensures
        t.courses() == t.0.items() + t.1.items(),
{
}

/// A tuple of 3 collections holds the courses of each, one collection after another.
pub proof fn lemma_tuple3_courses<C: CourseItem, S0: CourseSource<C>, S1: CourseSource<C>, S2: CourseSource<C>>(t: (S0, S1, S2))
    ensures
        t.courses() == t.0.items() + t.1.items() + t.2.items(),
{
}

/// A tuple of 4 collections holds the courses of each, one collection after another.
pub proof fn lemma_tuple4_courses<C: CourseItem, S0: CourseSource<C>, S1: CourseSource<C>, S2: CourseSource<C>, S3: CourseSource<C>>(t: (S0, S1, S2, S3))
    ensures
        t.courses() == t.0.items() + t.1.items() + t.2.items() + t.3.items(),
{
}

/// A tuple of 5 collections holds the courses of each, one collection after another.
pub proof fn lemma_tuple5_courses<C: CourseItem, S0: CourseSource<C>, S1: CourseSource<C>, S2: CourseSource<C>, S3: CourseSource<C>, S4: CourseSource<C>>(t: (S0, S1, S2, S3, S4))
    ensures
        t.courses() == t.0.items() + t.1.items() + t.2.items() + t.3.items() + t.4.items(),
{
}

/// A tuple of 6 collections holds the courses of each, one collection after another.
pub proof fn lemma_tuple6_courses<C: CourseItem, S0: CourseSource<C>, S1: CourseSource<C>, S2: CourseSource<C>, S3: CourseSource<C>, S4: CourseSource<C>, S5: CourseSource<C>>(t: (S0, S1, S2, S3, S4, S5))
    ensures
        t.courses() == t.0.items() + t.1.items() + t.2.items() + t.3.items() + t.4.items() + t.5.items(),
{
}

/// A tuple of 7 collections holds the courses of each, one collection after another.
pub proof fn lemma_tuple7_courses<C: CourseItem, S0: CourseSource<C>, S1: CourseSource<C>, S2: CourseSource<C>, S3: CourseSource<C>, S4: CourseSource<C>, S5: CourseSource<C>, S6: CourseSource<C>>(t: (S0, S1, S2, S3, S4, S5, S6))
    ensures
        t.courses() == t.0.items() + t.1.items() + t.2.items() + t.3.items() + t.4.items() + t.5.items() + t.6.items(),
{
}

/// A tuple of 8 collections holds the courses of each, one collection after another.
pub proof fn lemma_tuple8_courses<C: CourseItem, S0: CourseSource<C>, S1: CourseSource<C>, S2: CourseSource<C>, S3: CourseSource<C>, S4: CourseSource<C>, S5: CourseSource<C>, S6: CourseSource<C>, S7: CourseSource<C>>(t: (S0, S1, S2, S3, S4, S5, S6, S7))
    ensures
        t.courses() == t.0.items() + t.1.items() + t.2.items() + t.3.items() + t.4.items() + t.5.items() + t.6.items() + t.7.items(),
{
}

/// A tuple of 9 collections holds the courses of each, one collection after another.
pub proof fn lemma_tuple9_courses<C: CourseItem, S0: CourseSource<C>, S1: CourseSource<C>, S2: CourseSource<C>, S3: CourseSource<C>, S4: CourseSource<C>, S5: CourseSource<C>, S6: CourseSource<C>, S7: CourseSource<C>, S8: CourseSource<C>>(t: (S0, S1, S2, S3, S4, S5, S6, S7, S8))
    ensures
        t.courses() == t.0.items() + t.1.items() + t.2.items() + t.3.items() + t.4.items() + t.5.items() + t.6.items() + t.7.items() + t.8.items(),
{
}

} // verus!
