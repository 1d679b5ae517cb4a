//! Where the current time comes from: the local clock, or a fixed instant.

use vstd::prelude::*;
use crate::period::{Holiday, Period, PeriodView};
use crate::time::{NaiveDateTime, chrono_local_now, instant_in_range};

verus! {

/// Whether `now` falls in a holiday: at or after its start and before its end.
pub open spec fn in_holiday(h: PeriodView, now: int) -> bool {
    h.start <= now < h.end
}

/// Whether `now` falls in any of the holidays.
pub open spec fn on_holiday(holidays: Seq<PeriodView>, now: int) -> bool {
    exists|i: int| 0 <= i < holidays.len() && in_holiday(#[trigger] holidays[i], now)
}

/// The views of a sequence of periods.
pub open spec fn period_views(s: Seq<Period>) -> Seq<PeriodView> {
    crate::distinct::views(s)
}

/// Whether `now` falls in any of the holidays.
pub fn is_on_holiday_at(holidays: &[Holiday], now: NaiveDateTime) -> (r: bool)
    ensures
        r == on_holiday(period_views(holidays@), now@),
{
    let t = now.instant();
    let mut i: usize = 0;
    while i < holidays.len()
        invariant
            0 <= i <= holidays@.len(),
            t == now@,
            forall|j: int| 0 <= j < i ==> !in_holiday(#[trigger] period_views(holidays@)[j], now@),
        decreases holidays@.len() - i,
    {
        let h = &holidays[i];
        if h.start().instant() <= t && t < h.end().instant() {
            assert(in_holiday(period_views(holidays@)[i as int], now@));
            return true;
        }
        i += 1;
    }
    false
}

/// Whether instant `t` agrees with a clock's known reading: when the clock
/// has a fixed reading, `t` is that reading.
pub open spec fn agrees_with(reading: Option<NaiveDateTime>, t: int) -> bool {
    reading matches Some(x) ==> t == x@
}

/// A source of the current local date and time.
pub trait TimeProvider {
    /// The date and time this source always reads, when it has one; `None`
    /// for a source whose reading changes, such as the local clock.
    spec fn reading(&self) -> Option<NaiveDateTime>;

    /// The current local date and time.
    fn now(&self) -> (r: NaiveDateTime)
        ensures
            self.reading() matches Some(t) ==> r == t,
    ;

    /// Whether the current time falls in one of the holidays (at or after its
    /// start, before its end).
    fn is_on_holiday(&self, holidays: &[Holiday]) -> (r: bool)
        ensures
            exists|t: int|
                instant_in_range(t) && agrees_with(self.reading(), t) && r == on_holiday(
                    period_views(holidays@),
                    t,
                ),
    {
        let now = self.now();
        let t = now.instant();
        let r = is_on_holiday_at(holidays, now);
        assert(instant_in_range(t as int) && agrees_with(self.reading(), t as int) && r
            == on_holiday(period_views(holidays@), t as int));
        r
    }
}

/// The local clock.
#[derive(Debug, Default, Clone, Copy)]
pub struct DefaultTimeProvider;

impl TimeProvider for DefaultTimeProvider {
    /// The local clock has no fixed reading.
    open spec fn reading(&self) -> Option<NaiveDateTime> {
        None
    }

    fn now(&self) -> NaiveDateTime {
        chrono_local_now()
    }
}

/// A clock stopped at a fixed date and time.
#[derive(Debug, Clone, Copy)]
pub struct MockTimeProvider {
    fixed_time: NaiveDateTime,
}

impl MockTimeProvider {
    /// A clock that always reads `fixed_time`.
    pub fn new(fixed_time: NaiveDateTime) -> (r: MockTimeProvider)
        ensures
            r.fixed_time() == fixed_time,
    {
        MockTimeProvider { fixed_time }
    }

    /// The time this clock reads.
    pub closed spec fn fixed_time(&self) -> NaiveDateTime {
        self.fixed_time
    }
}

impl TimeProvider for MockTimeProvider {
    /// The fixed time.
    open spec fn reading(&self) -> Option<NaiveDateTime> {
        Some(self.fixed_time())
    }

    fn now(&self) -> (r: NaiveDateTime)
        ensures
            r == self.fixed_time(),
    {
        self.fixed_time
    }
}

} // verus!
