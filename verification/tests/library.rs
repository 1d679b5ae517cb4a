use curriculum::period::Period;
use curriculum::schedule::{schedule_periods, Schedule};
use curriculum::time_provider::is_on_holiday_at;
use curriculum::tui::{App, Key};
use curriculum::weekly::course::{Course as WeeklyCourse, CoursePeriod};
use curriculum::weekly::tutor::Tutor as WeeklyTutor;
use curriculum::{
    course, Course, Days, DefaultTimeProvider, MockTimeProvider, NaiveDate, NaiveDateTime,
    NaiveTime, Query, TimeDelta, TimeProvider, Tutor, Weekday,
};

const SEC: i128 = 1_000_000_000;

fn ymd_hm(y: i32, m: u32, d: u32, h: u32, mi: u32) -> NaiveDateTime {
    NaiveDate::from_ymd_opt(y, m, d).unwrap().and_hms_opt(h, mi, 0).unwrap()
}

fn hours_from(start: NaiveDateTime, h: i64) -> Period {
    Period::new(None, start, TimeDelta::hours(h))
}

#[test]
fn calendar_day_numbers() {
    assert_eq!(NaiveDate::from_ymd_opt(1970, 1, 1).unwrap().num_days_from_ce(), 719_163);
    assert_eq!(NaiveDate::from_ymd_opt(1, 1, 1).unwrap().num_days_from_ce(), 1);
    assert_eq!(NaiveDate::from_ymd_opt(0, 1, 1).unwrap().num_days_from_ce(), -365);
    assert_eq!(NaiveDate::from_ymd_opt(2, 1, 1).unwrap().num_days_from_ce(), 366);
    assert!(NaiveDate::from_ymd_opt(2023, 4, 31).is_none());
    assert!(NaiveDate::from_ymd_opt(2023, 13, 1).is_none());
    assert!(NaiveDate::from_ymd_opt(2024, 2, 29).is_some());
    assert!(NaiveDate::from_ymd_opt(2023, 2, 29).is_none());
    assert_eq!(NaiveDate::min().num_days_from_ce(), -95_746_129);
    assert_eq!(NaiveDate::max().num_days_from_ce(), 95_745_399);
    assert_eq!(NaiveDate::from_ymd_opt(-262143, 1, 1), Some(NaiveDate::min()));
    assert_eq!(NaiveDate::from_ymd_opt(262142, 12, 31), Some(NaiveDate::max()));
    assert!(NaiveDate::from_ymd_opt(262143, 1, 1).is_none());
}

#[test]
fn weekdays() {
    assert_eq!(NaiveDate::min().weekday(), Weekday::Thu);
    assert_eq!(NaiveDate::from_ymd_opt(1, 1, 1).unwrap().weekday(), Weekday::Mon);
    assert_eq!(NaiveDate::from_ymd_opt(2015, 9, 25).unwrap().weekday(), Weekday::Fri);
    assert_eq!(NaiveDate::from_ymd_opt(1970, 1, 1).unwrap().weekday(), Weekday::Thu);
    assert_eq!(ymd_hm(2024, 6, 2, 12, 0).weekday(), Weekday::Sun);
}

#[test]
fn days_and_times() {
    let d = NaiveDate::from_ymd_opt(2022, 7, 31).unwrap();
    assert_eq!(d.checked_add_days(Days::new(1)), NaiveDate::from_ymd_opt(2022, 8, 1));
    assert!(d.checked_add_days(Days::new(1_000_000_000_000)).is_none());
    assert!(NaiveDate::max().checked_add_days(Days::new(1)).is_none());
    assert_eq!(NaiveDate::max().checked_add_days(Days::new(0)), Some(NaiveDate::max()));
    assert!(d.and_hms_opt(24, 0, 0).is_none());
    assert!(d.and_hms_opt(12, 60, 0).is_none());
    assert!(d.and_hms_opt(12, 0, 60).is_none());
    assert!(NaiveTime::from_hms_opt(23, 59, 59).is_some());
    assert_eq!(
        NaiveTime::from_hms_opt(3, 4, 5).unwrap().nanos_from_midnight() as i128,
        (3 * 3600 + 4 * 60 + 5) * SEC
    );
    assert_eq!(TimeDelta::hours(4).num_nanoseconds(), 4 * 3600 * SEC);
    assert_eq!(TimeDelta::minutes(-90).num_nanoseconds(), -90 * 60 * SEC);
    assert_eq!(TimeDelta::seconds(7).num_nanoseconds(), 7 * SEC);
    assert!(TimeDelta::try_hours(i64::MAX).is_none());
    assert!(TimeDelta::try_seconds(9_223_372_036_854_775).is_some());
    assert!(TimeDelta::try_seconds(9_223_372_036_854_776).is_none());
    assert!(TimeDelta::try_seconds(-9_223_372_036_854_775).is_some());
    assert!(TimeDelta::try_seconds(-9_223_372_036_854_776).is_none());
}

#[test]
fn date_time_addition() {
    let start = ymd_hm(2024, 1, 1, 8, 0);
    let p = hours_from(start, 4);
    assert_eq!(*p.end(), ymd_hm(2024, 1, 1, 12, 0));
    assert_eq!(*p.start(), start);
    assert_eq!(p.duration().num_nanoseconds(), 4 * 3600 * SEC);
    let late = hours_from(ymd_hm(2023, 12, 31, 22, 0), 3);
    assert_eq!(*late.end(), ymd_hm(2024, 1, 1, 1, 0));
    let back = start.checked_add_signed(TimeDelta::hours(-9)).unwrap();
    assert_eq!(back, ymd_hm(2023, 12, 31, 23, 0));
    let last = NaiveDate::max().and_hms_opt(23, 59, 59).unwrap();
    assert!(last.checked_add_signed(TimeDelta::seconds(1)).is_none());
    let first = NaiveDate::min().and_hms_opt(0, 0, 0).unwrap();
    assert!(first.checked_add_signed(TimeDelta::seconds(-1)).is_none());
    assert_eq!(start.instant() - first.instant(), {
        let days = (NaiveDate::from_ymd_opt(2024, 1, 1).unwrap().num_days_from_ce() as i128)
            - (NaiveDate::min().num_days_from_ce() as i128);
        days * 86_400 * SEC + 8 * 3600 * SEC
    });
}

#[test]
fn weekly_period_end_wraps_past_midnight() {
    let p = CoursePeriod::new(
        Weekday::Mon,
        NaiveTime::from_hms_opt(22, 0, 0).unwrap(),
        TimeDelta::hours(4),
    );
    assert_eq!(p.end(), NaiveTime::from_hms_opt(2, 0, 0).unwrap());
    let q = CoursePeriod::new(
        Weekday::Mon,
        NaiveTime::from_hms_opt(1, 0, 0).unwrap(),
        TimeDelta::hours(-2),
    );
    assert_eq!(q.end(), NaiveTime::from_hms_opt(23, 0, 0).unwrap());
    let r = CoursePeriod::new(
        Weekday::Tue,
        NaiveTime::from_hms_opt(8, 0, 0).unwrap(),
        TimeDelta::hours(2),
    );
    assert_eq!(r.end(), NaiveTime::from_hms_opt(10, 0, 0).unwrap());
}

#[test]
fn weekly_course_late_period_is_never_in_progress() {
    // 22:00 for four hours ends at 02:00, before it starts.
    let c = WeeklyCourse::new(
        "Night",
        vec![],
        vec![CoursePeriod::new(
            Weekday::Thu,
            NaiveTime::from_hms_opt(22, 0, 0).unwrap(),
            TimeDelta::hours(4),
        )],
    );
    let at23 = NaiveDateTime::new(NaiveDate::min(), NaiveTime::from_hms_opt(23, 0, 0).unwrap());
    assert!(!c.is_in_progress_at(at23));
    let c = WeeklyCourse::new(
        "Day",
        vec![WeeklyTutor::new("A"), WeeklyTutor::new("A")],
        vec![CoursePeriod::new(
            Weekday::Thu,
            NaiveTime::from_hms_opt(8, 0, 0).unwrap(),
            TimeDelta::hours(4),
        )],
    );
    assert_eq!(c.tutors().len(), 1);
    let at12 = NaiveDateTime::new(NaiveDate::min(), NaiveTime::from_hms_opt(12, 0, 0).unwrap());
    assert!(c.is_in_progress_at(at12));
}

#[test]
fn overlap_is_symmetric() {
    let a = hours_from(ymd_hm(2024, 1, 1, 8, 0), 4);
    let b = hours_from(ymd_hm(2024, 1, 1, 11, 0), 4);
    let c = hours_from(ymd_hm(2024, 1, 1, 12, 0), 4);
    assert!(a.is_overlap(&b) && b.is_overlap(&a));
    assert!(!a.is_overlap(&c) && !c.is_overlap(&a));
    assert!(b.is_overlap(&c) && c.is_overlap(&b));
    assert!(a.is_overlap(&a));
}

#[test]
fn holidays_exclude_their_end() {
    let holidays = vec![hours_from(ymd_hm(2024, 12, 24, 0, 0), 48)];
    assert!(is_on_holiday_at(&holidays, ymd_hm(2024, 12, 24, 0, 0)));
    assert!(is_on_holiday_at(&holidays, ymd_hm(2024, 12, 25, 23, 59)));
    assert!(!is_on_holiday_at(&holidays, ymd_hm(2024, 12, 26, 0, 0)));
    assert!(!is_on_holiday_at(&holidays, ymd_hm(2024, 12, 23, 23, 59)));
    let clock = MockTimeProvider::new(ymd_hm(2024, 12, 25, 10, 0));
    assert!(clock.is_on_holiday(&holidays));
    assert!(!MockTimeProvider::new(ymd_hm(2025, 1, 2, 10, 0)).is_on_holiday(&holidays));
    assert!(!clock.is_on_holiday(&[]));
}

#[test]
fn in_progress_includes_both_ends() {
    let c = Course::new("C", None, vec![], vec![hours_from(ymd_hm(2024, 3, 4, 8, 0), 2)]);
    assert!(c.is_in_progress_at(ymd_hm(2024, 3, 4, 8, 0)));
    assert!(c.is_in_progress_at(ymd_hm(2024, 3, 4, 10, 0)));
    assert!(!c.is_in_progress_at(ymd_hm(2024, 3, 4, 10, 1)));
    assert!(!c.is_in_progress_at(ymd_hm(2024, 3, 4, 7, 59)));
}

#[test]
fn upcoming_window() {
    let c = Course::new("C", None, vec![], vec![hours_from(ymd_hm(2024, 3, 5, 8, 0), 2)]);
    let now = ymd_hm(2024, 3, 4, 8, 0);
    // The window is "in less than delta": a start exactly at its end is out.
    assert!(!c.is_upcoming_at(now, TimeDelta::hours(24)));
    assert!(c.is_upcoming_at(now, TimeDelta::hours(25)));
    assert!(!c.is_upcoming_at(now, TimeDelta::hours(23)));
    assert!(c.is_upcoming_at(ymd_hm(2024, 3, 5, 8, 0), TimeDelta::seconds(1)));
    assert!(!c.is_upcoming_at(ymd_hm(2024, 3, 5, 8, 0), TimeDelta::seconds(0)));
    assert!(c.is_upcoming(&MockTimeProvider::new(now), TimeDelta::hours(30)));
    assert!(!c.is_upcoming_at(ymd_hm(2024, 3, 5, 9, 0), TimeDelta::hours(24)));
    // A window reaching past the last representable instant still counts.
    let huge = TimeDelta::seconds(9_000_000_000_000_000);
    assert!(c.is_upcoming_at(now, huge));
    assert!(!c.is_upcoming_at(now, TimeDelta::seconds(-9_000_000_000_000_000)));
    // Monotone in the window.
    assert!(c.is_upcoming_at(now, TimeDelta::hours(48)));
}

#[test]
fn nearest_period_is_strictly_after_now() {
    let c = Course::new(
        "C",
        None,
        vec![],
        vec![
            hours_from(ymd_hm(2024, 3, 6, 8, 0), 1),
            hours_from(ymd_hm(2024, 3, 4, 8, 0), 1),
            hours_from(ymd_hm(2024, 3, 5, 8, 0), 1),
        ],
    );
    let p = c.nearest_period_at(ymd_hm(2024, 3, 4, 8, 0)).unwrap();
    assert_eq!(*p.start(), ymd_hm(2024, 3, 5, 8, 0));
    let p = c.nearest_period_at(ymd_hm(2024, 3, 1, 0, 0)).unwrap();
    assert_eq!(*p.start(), ymd_hm(2024, 3, 4, 8, 0));
    assert!(c.nearest_period_at(ymd_hm(2024, 3, 6, 8, 0)).is_none());
    let clock = MockTimeProvider::new(ymd_hm(2024, 3, 5, 12, 0));
    assert_eq!(*c.nearest_period(&clock).unwrap().start(), ymd_hm(2024, 3, 6, 8, 0));
}

#[test]
fn course_text() {
    let c = Course::new(
        "English",
        Some("Room 1"),
        vec![Tutor::new("Alice"), Tutor::new("Bob"), Tutor::new("Alice")],
        vec![],
    );
    assert_eq!(c.to_string(), "English (Room 1) <Alice Bob>");
    let c = Course::new("Math", None, vec![], vec![]);
    assert_eq!(c.to_string(), "Math (Unknown) <>");
    let c = Course::new("Art", None, vec![Tutor::new(""), Tutor::new("B")], vec![]);
    assert_eq!(c.to_string(), "Art (Unknown) <B>");
    let c = Course::new("Art", None, vec![Tutor::new("A"), Tutor::new("")], vec![]);
    assert_eq!(c.to_string(), "Art (Unknown) <A >");
}

#[test]
fn repeated_periods_and_tutors_are_kept_once() {
    let p = hours_from(ymd_hm(2024, 3, 4, 8, 0), 1);
    let named = Period::new(Some("lab"), ymd_hm(2024, 3, 4, 8, 0), TimeDelta::hours(1));
    let c = Course::new(
        "C",
        Some("Hall"),
        vec![Tutor::new("T"), Tutor::new("U"), Tutor::new("T")],
        vec![p.clone(), named.clone(), p.clone()],
    );
    assert_eq!(c.periods().len(), 2);
    assert_eq!(c.periods()[0], p);
    assert_eq!(c.periods()[1], named);
    assert_eq!(c.tutors().len(), 2);
    assert_eq!(c.tutors()[1].name(), "U");
    assert_eq!(c.place().as_deref(), Some("Hall"));
    assert_eq!(c.name(), "C");
    assert_eq!(named.name().as_deref(), Some("lab"));
}

fn sample_courses() -> Vec<Course> {
    vec![
        Course::new("A", None, vec![], vec![hours_from(ymd_hm(2024, 3, 7, 8, 0), 1)]),
        Course::new("B", None, vec![], vec![hours_from(ymd_hm(2024, 3, 3, 8, 0), 1)]),
        Course::new(
            "C",
            None,
            vec![],
            vec![hours_from(ymd_hm(2024, 3, 5, 8, 0), 1), hours_from(ymd_hm(2024, 3, 9, 8, 0), 1)],
        ),
        Course::new("D", None, vec![], vec![hours_from(ymd_hm(2024, 3, 4, 8, 0), 1)]),
    ]
}

fn nearest_names<'a>(refs: &[&'a Course], clock: &MockTimeProvider, num: usize) -> Vec<&'a str> {
    refs.to_vec().nearest(clock, num).iter().map(|c| c.name().as_str()).collect()
}

#[test]
fn nearest_keeps_num_courses_and_ties() {
    let courses = sample_courses();
    let refs: Vec<&Course> = courses.iter().collect();
    let clock = MockTimeProvider::new(ymd_hm(2024, 3, 4, 8, 0));
    assert_eq!(nearest_names(&refs, &clock, 0), Vec::<&str>::new());
    assert_eq!(nearest_names(&refs, &clock, 1), vec!["D"]);
    assert_eq!(nearest_names(&refs, &clock, 2), vec!["D", "C"]);
    assert_eq!(nearest_names(&refs, &clock, 3), vec!["D", "C", "A"]);
    assert_eq!(nearest_names(&refs, &clock, 9), vec!["D", "C", "A"]);

    // Two courses tie with the first: both are kept.
    let tied = vec![
        Course::new("X", None, vec![], vec![hours_from(ymd_hm(2024, 3, 6, 8, 0), 1)]),
        Course::new("Y", None, vec![], vec![hours_from(ymd_hm(2024, 3, 5, 8, 0), 1)]),
        Course::new("Z", None, vec![], vec![hours_from(ymd_hm(2024, 3, 5, 8, 0), 1)]),
    ];
    let refs: Vec<&Course> = tied.iter().collect();
    let mut names = nearest_names(&refs, &clock, 1);
    names.sort();
    assert_eq!(names, vec!["Y", "Z"]);
    assert_eq!(nearest_names(&refs, &clock, 3).len(), 3);
}

#[test]
fn nearest_of_the_calendar_timetable() {
    let at = |days: u64, hour: u32| {
        NaiveDate::min().checked_add_days(Days::new(days)).unwrap().and_hms_opt(hour, 0, 0).unwrap()
    };
    let cs = [
        Course::new("Chinese", None, vec![], vec![hours_from(at(0, 8), 4), hours_from(at(1, 8), 4)]),
        Course::new("English", None, vec![], vec![hours_from(at(0, 14), 4), hours_from(at(1, 14), 4)]),
        Course::new("Math", None, vec![], vec![hours_from(at(1, 8), 4), hours_from(at(3, 8), 4)]),
    ];
    let clock = MockTimeProvider::new(at(0, 9));
    assert_eq!((&cs[..]).nearest(&clock, 1), vec![&cs[1]]);
    let two = (&cs[..]).nearest(&clock, 2);
    assert_eq!(two.len(), 3);
    assert_eq!(two[0], &cs[1]);
    // A period starting exactly now counts.
    let english = [Course::new("English", None, vec![], vec![hours_from(at(0, 8), 4)])];
    let clock = MockTimeProvider::new(at(0, 8));
    assert_eq!((&english[..]).nearest(&clock, 1), vec![&english[0]]);
}

#[test]
fn nearest_and_name_filter_commute() {
    let courses = sample_courses();
    let refs: Vec<&Course> = courses.iter().collect();
    let clock = MockTimeProvider::new(ymd_hm(2024, 3, 4, 9, 0));
    // With `num` above the number of upcoming courses nothing is cut.
    let a = refs.clone().nearest(&clock, 5).filter_by_name(&["A", "B", "C"]);
    let b = refs.clone().filter_by_name(&["A", "B", "C"]).nearest(&clock, 5);
    assert_eq!(a, b);
    assert_eq!(a, vec![&courses[2], &courses[0]]);
}

#[test]
fn name_filter_commutes_with_in_progress() {
    let courses = sample_courses();
    let refs: Vec<&Course> = courses.iter().collect();
    let clock = MockTimeProvider::new(ymd_hm(2024, 3, 5, 8, 30));
    let a = refs.clone().filter_by_name(&["C", "D"]).in_progress(&clock);
    let b = refs.clone().in_progress(&clock).filter_by_name(&["C", "D"]);
    assert_eq!(a, b);
    assert_eq!(a, vec![&courses[2]]);
    let u = refs.clone().upcoming(&clock, TimeDelta::hours(72));
    assert_eq!(u, vec![&courses[0]]);
    let u = refs.clone().upcoming(&clock, TimeDelta::minutes(47 * 60 + 30));
    assert!(u.is_empty());
}

#[test]
fn owned_courses_and_tuples_can_be_queried() {
    let clock = MockTimeProvider::new(ymd_hm(2024, 3, 5, 8, 30));
    let owned: Vec<Course> = sample_courses();
    let names: Vec<String> =
        owned.filter_by_name(&["C", "A"]).iter().map(|c| c.name().clone()).collect();
    assert_eq!(names, vec!["A".to_string(), "C".to_string()]);

    let a = sample_courses();
    let b = sample_courses();
    let c = sample_courses();
    let d = sample_courses();
    let one = (&a[..],);
    assert_eq!(one.in_progress(&clock), vec![&a[2]]);
    let four = (&a[..], &b[..], &c[..], &d[..]);
    assert_eq!(four.into_courses().len(), 16);
    let four = (&a[..], &b[..], &c[..], &d[..]);
    assert_eq!(four.in_progress(&clock), vec![&a[2], &b[2], &c[2], &d[2]]);
    let nine = (
        sample_courses(),
        sample_courses(),
        sample_courses(),
        sample_courses(),
        sample_courses(),
        sample_courses(),
        sample_courses(),
        sample_courses(),
        sample_courses(),
    );
    assert_eq!(nine.filter_by_name(&["B"]).len(), 9);
}

#[test]
fn course_equality_ignores_order() {
    let p = hours_from(ymd_hm(2024, 3, 4, 8, 0), 1);
    let q = hours_from(ymd_hm(2024, 3, 5, 8, 0), 1);
    let a = Course::new("C", Some("R"), vec![Tutor::new("T"), Tutor::new("U")], vec![p.clone(), q.clone()]);
    let b = Course::new("C", Some("R"), vec![Tutor::new("U"), Tutor::new("T")], vec![q.clone(), p.clone()]);
    assert_eq!(a, b);
    let c = Course::new("C", None, vec![Tutor::new("U"), Tutor::new("T")], vec![q.clone(), p.clone()]);
    assert_ne!(a, c);
    let d = Course::new("C", Some("R"), vec![Tutor::new("T")], vec![q.clone(), p.clone()]);
    assert_ne!(a, d);
    let e = Course::new("C", Some("R"), vec![Tutor::new("T"), Tutor::new("U")], vec![p.clone()]);
    assert_ne!(a, e);
    let w1 = WeeklyCourse::new("W", vec![], vec![CoursePeriod::new(Weekday::Mon, NaiveTime::from_hms_opt(8, 0, 0).unwrap(), TimeDelta::hours(1)), CoursePeriod::new(Weekday::Tue, NaiveTime::from_hms_opt(8, 0, 0).unwrap(), TimeDelta::hours(1))]);
    let w2 = WeeklyCourse::new("W", vec![], vec![CoursePeriod::new(Weekday::Tue, NaiveTime::from_hms_opt(8, 0, 0).unwrap(), TimeDelta::hours(1)), CoursePeriod::new(Weekday::Mon, NaiveTime::from_hms_opt(8, 0, 0).unwrap(), TimeDelta::hours(1))]);
    assert_eq!(w1, w2);
}

#[test]
fn closure_filter_keeps_order() {
    let courses = sample_courses();
    let refs: Vec<&Course> = courses.iter().collect();
    let kept = refs.clone().filter(|c: &Course| c.periods().len() == 1);
    assert_eq!(kept, vec![&courses[0], &courses[1], &courses[3]]);
    assert_eq!(refs.clone().into_courses().len(), 4);
}

#[test]
fn schedule_builds_recurring_periods() {
    let first = NaiveDate::from_ymd_opt(2024, 9, 2).unwrap();
    let ps = schedule_periods(first, 8, 30, 0, 3, 7, TimeDelta::minutes(90));
    assert_eq!(ps.len(), 3);
    assert_eq!(*ps[0].start(), ymd_hm(2024, 9, 2, 8, 30));
    assert_eq!(*ps[1].start(), ymd_hm(2024, 9, 9, 8, 30));
    assert_eq!(*ps[2].end(), ymd_hm(2024, 9, 16, 10, 0));
    assert!(schedule_periods(first, 24, 0, 0, 3, 7, TimeDelta::minutes(90)).is_empty());
    let near_end = NaiveDate::max().checked_add_days(Days::new(0)).unwrap();
    let ps = schedule_periods(near_end, 0, 0, 0, 3, 1, TimeDelta::minutes(10));
    assert_eq!(ps.len(), 1);

    assert!(Schedule::from_calendar(2024, 2, 30, 8, 0, 0, 1, 7).is_none());
    let s = Schedule::from_calendar(2024, 9, 2, 8, 30, 0, 2, 7).unwrap();
    let t = Schedule::from_calendar(2024, 9, 4, 14, 0, 0, 1, 7).unwrap();
    let c = course("Physics", "Lab 3", &["Curie", "Bohr", "Curie"], &[s, t, s], 90);
    assert_eq!(c.to_string(), "Physics (Lab 3) <Curie Bohr>");
    assert_eq!(c.periods().len(), 3);
    assert_eq!(*c.periods()[2].start(), ymd_hm(2024, 9, 4, 14, 0));
}

#[test]
fn viewer_keys() {
    let mut app = App::new(sample_courses());
    assert_eq!(app.selected(), 0);
    app.handle_key_event(Key::Up);
    assert_eq!(app.selected(), 0);
    for _ in 0..10 {
        app.handle_key_event(Key::Down);
    }
    assert_eq!(app.selected(), 3);
    app.handle_key_event(Key::Up);
    assert_eq!(app.selected(), 2);
    assert_eq!(app.page_start(2), 2);
    assert_eq!(app.page_start(4), 0);
    assert_eq!(app.page_rows(2), vec![(2, true), (3, false)]);
    assert_eq!(app.page_rows(3), vec![(0, false), (1, false), (2, true)]);
    assert_eq!(app.page_rows(4), vec![(0, false), (1, false), (2, true), (3, false)]);
    assert_eq!(app.page_rows(10), vec![(0, false), (1, false), (2, true), (3, false)]);
    app.handle_key_event(Key::Char('x'));
    assert!(!app.is_exiting());
    app.handle_key_event(Key::Char('q'));
    assert!(app.is_exiting());
    assert_eq!(app.shown_courses().len(), 4);

    let chosen = App::from_chosen(sample_courses(), &["D", "B", "Q"]);
    let names: Vec<&str> = chosen.shown_courses().iter().map(|c| c.name().as_str()).collect();
    assert_eq!(names, vec!["B", "D"]);
    assert_eq!(chosen.selected(), 0);
    assert!(!chosen.is_exiting());
    assert!(App::from_chosen(sample_courses(), &[]).shown_courses().is_empty());

    let mut empty = App::new(vec![]);
    empty.handle_key_event(Key::Down);
    assert_eq!(empty.selected(), 0);
}

#[test]
fn local_clock_reads_a_time() {
    let now = DefaultTimeProvider.now();
    assert!(now.date().num_days_from_ce() > 700_000);
}
