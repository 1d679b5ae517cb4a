use curriculum::{Course, Days, MockTimeProvider, NaiveDate, NaiveDateTime, NaiveTime, Period, Query, TimeDelta};

fn at(days_after_min: u64, hour: u32) -> NaiveDateTime {
    NaiveDate::min()
        .checked_add_days(Days::new(days_after_min))
        .unwrap()
        .and_hms_opt(hour, 0, 0)
        .unwrap()
}

fn four_hours_from(start: NaiveDateTime) -> Period {
    Period::new(None, start, TimeDelta::hours(4))
}

#[test]
fn calender_test() {
    let time_provider = MockTimeProvider::new(NaiveDateTime::new(
        NaiveDate::min(), // Thursday
        NaiveTime::from_hms_opt(9, 0, 0).unwrap(),
    ));

    let courses0 = [
        Course::new(
            "Chinese",
            None,
            vec![],
            vec![four_hours_from(at(0, 8)), four_hours_from(at(1, 8))],
        ),
        Course::new(
            "English",
            None,
            vec![],
            vec![four_hours_from(at(0, 14)), four_hours_from(at(1, 14))],
        ),
    ];
    let courses1 = [Course::new(
        "Math",
        None,
        vec![],
        vec![four_hours_from(at(1, 8)), four_hours_from(at(3, 8))],
    )];
    let both = || (&courses0[..], &courses1[..]);

    assert_eq!(both().in_progress(&time_provider), vec![&courses0[0]]);
    assert_eq!(both().filter_by_name(&["Math", "History"]), vec![&courses1[0]]);
    assert_eq!(
        both().filter_by_name(&["Chinese", "Math", "History"]),
        vec![&courses0[0], &courses1[0]]
    );
    assert!(both().filter_by_name(&["History"]).is_empty());
    assert_eq!(
        both().filter_by_name(&["Chinese", "Math", "History"]).in_progress(&time_provider),
        vec![&courses0[0]]
    );
    let courses = (Vec::from(courses0), Vec::from(courses1));
    assert!(courses
        .filter_by_name(&["English", "Math", "History"])
        .in_progress(&time_provider)
        .is_empty());
}
