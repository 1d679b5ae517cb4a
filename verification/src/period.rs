//! A dated period: a named or unnamed stretch of time with a start, an end
//! and the duration between them.

use vstd::prelude::*;
use crate::distinct::SameView;
use crate::time::{NaiveDateTime, TimeDelta, instant_in_range};

verus! {

/// What a period is: its name, and its start, end and duration in nanoseconds.
pub struct PeriodView {
    pub name: Option<Seq<char>>,
    pub start: int,
    pub end: int,
    pub duration: int,
}

/// The text of an optional string slice.
pub open spec fn opt_str_view(s: Option<&str>) -> Option<Seq<char>> {
    match s {
        Some(t) => Some(t@),
        None => None,
    }
}

/// The text of an optional string.
pub open spec fn opt_string_view(s: Option<String>) -> Option<Seq<char>> {
    match s {
        Some(t) => Some(t@),
        None => None,
    }
}

/// A stretch of local time from `start` to `end = start + duration`.
#[derive(Debug, PartialEq, Eq, Hash)]
pub struct Period {
    name: Option<String>,
    start: NaiveDateTime,
    end: NaiveDateTime,
    duration: TimeDelta,
}

/// A holiday is a period during which no course takes place.
pub type Holiday = Period;

impl Period {
    #[verifier::type_invariant]
    spec fn inv(self) -> bool {
        self.end@ == self.start@ + self.duration@
    }
}

impl View for Period {
    type V = PeriodView;

    closed spec fn view(&self) -> PeriodView {
        PeriodView {
            name: opt_string_view(self.name),
            start: self.start@,
            end: self.start@ + self.duration@,
            duration: self.duration@,
        }
    }
}

impl Clone for Period {
    fn clone(&self) -> (r: Period)
        ensures
            r@ == self@,
    {
        proof { use_type_invariant(self); }
        let name = match &self.name {
            Some(n) => Some(n.clone()),
            None => None,
        };
        Period { name, start: self.start, end: self.end, duration: self.duration }
    }
}

/// Whether two periods overlap: each starts before the other ends.
pub open spec fn periods_overlap(a: PeriodView, b: PeriodView) -> bool {
    !(a.end <= b.start || a.start >= b.end)
}

impl Period {
    /// The period that starts at `start` and lasts `duration`; its end is
    /// `start + duration`, which must be a representable date-time.
    pub fn new(name: Option<&str>, start: NaiveDateTime, duration: TimeDelta) -> (r: Period)
        requires
            instant_in_range(start@ + duration@),
        ensures
            r@ == (PeriodView {
                name: opt_str_view(name),
                start: start@,
                end: start@ + duration@,
                duration: duration@,
            }),
    {
        let end = start.checked_add_signed(duration).unwrap();
        let name = match name {
            Some(s) => Some(s.to_owned()),
            None => None,
        };
        Period { name, start, end, duration }
    }

    /// The name, if the period has one.
    pub fn name(&self) -> (r: &Option<String>)
        ensures
            opt_string_view(*r) == self@.name,
    {
        &self.name
    }

    /// The start.
    pub fn start(&self) -> (r: &NaiveDateTime)
        ensures
            r@ == self@.start,
    {
        &self.start
    }

    /// The end, `start + duration`.
    pub fn end(&self) -> (r: &NaiveDateTime)
        ensures
            r@ == self@.end,
    {
        proof { use_type_invariant(self); }
        &self.end
    }

    /// The duration.
    pub fn duration(&self) -> (r: &TimeDelta)
        ensures
            r@ == self@.duration,
    {
        &self.duration
    }

    /// Whether this period and `other` overlap, that is, neither ends at or
    /// before the moment the other starts.
    pub fn is_overlap(&self, other: &Period) -> (r: bool)
        ensures
            r == periods_overlap(self@, other@),
            r == (self@.start < other@.start + other@.duration && other@.start < self@.start
                + self@.duration),
    {
        proof {
            use_type_invariant(self);
            use_type_invariant(other);
        }
        !(self.end.instant() <= other.start.instant() || self.start.instant()
            >= other.end.instant())
    }

}

impl SameView for Period {
    fn same_as(&self, other: &Period) -> (r: bool) {
        proof {
            use_type_invariant(self);
            use_type_invariant(other);
        }
        let names_equal = match &self.name {
            Some(a) => match &other.name {
                Some(b) => a.eq(b),
                None => false,
            },
            None => other.name.is_none(),
        };
        names_equal && self.start.instant() == other.start.instant() && self.end.instant()
            == other.end.instant() && self.duration.num_nanoseconds()
            == other.duration.num_nanoseconds()
    }

    fn duplicate(&self) -> (r: Period) {
        self.clone()
    }
}

/// A period's end is its start plus its duration.
pub proof fn lemma_period_end(p: Period)
    ensures
        p@.end == p@.start + p@.duration,
{
}

/// Overlap is symmetric: `a` overlaps `b` exactly when `b` overlaps `a`.
pub proof fn lemma_overlap_symmetric(a: PeriodView, b: PeriodView)
    ensures
        periods_overlap(a, b) == periods_overlap(b, a),
{
}

/// Two periods overlap exactly when each starts before the other's start
/// plus the other's duration.
pub proof fn lemma_overlap_exact(a: Period, b: Period)
    ensures
        periods_overlap(a@, b@) == (a@.start < b@.start + b@.duration && b@.start < a@.start
            + a@.duration),
{
}

/// A period of positive duration that lies within another overlaps it, in
/// both directions.
pub proof fn lemma_inside_overlaps(outer: Period, inner: Period)
    requires
        outer@.start <= inner@.start,
        inner@.start + inner@.duration <= outer@.start + outer@.duration,
        inner@.duration > 0,
    ensures
        periods_overlap(outer@, inner@),
        periods_overlap(inner@, outer@),
{
}

/// Periods that only touch, one ending where the other starts, do not overlap.
pub proof fn lemma_touching_do_not_overlap(first: Period, second: Period)
    requires
        first@.start + first@.duration == second@.start,
    ensures
        !periods_overlap(first@, second@),
        !periods_overlap(second@, first@),
{
}

} // verus!
