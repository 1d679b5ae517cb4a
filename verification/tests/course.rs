use curriculum::{Course, Days, MockTimeProvider, NaiveDate, NaiveDateTime, Period, TimeDelta};

fn at(days_after_min: u64, hour: u32) -> NaiveDateTime {
    NaiveDate::min()
        .checked_add_days(Days::new(days_after_min))
        .unwrap()
        .and_hms_opt(hour, 0, 0)
        .unwrap()
}

fn four_hours_from(start: NaiveDateTime) -> Period {
    Period::new(None, start, TimeDelta::hours(4))
}

#[test]
fn course_tests() {
    let time_provider = MockTimeProvider::new(NaiveDate::min().and_hms_opt(8, 0, 0).unwrap());

    let course = Course::new(
        "English",
        None,
        vec![],
        vec![four_hours_from(NaiveDate::min().and_hms_opt(8, 0, 0).unwrap())],
    );
    assert!(course.is_in_progress(&time_provider));

    let course = Course::new(
        "Chinese",
        None,
        vec![],
        vec![four_hours_from(NaiveDate::min().and_hms_opt(14, 0, 0).unwrap())],
    );
    assert!(!course.is_in_progress(&time_provider));

    let course = Course::new("Math", None, vec![], vec![four_hours_from(at(1, 8))]);
    assert!(!course.is_in_progress(&time_provider));

    let course = Course::new(
        "History",
        None,
        vec![],
        vec![
            four_hours_from(NaiveDate::min().and_hms_opt(8, 0, 0).unwrap()),
            four_hours_from(at(1, 8)),
        ],
    );
    assert!(course.is_in_progress(&time_provider));

    let mut periods = Vec::new();
    for i in 0..16u64 {
        if let Some(d) = NaiveDate::min().checked_add_days(Days::new(i * 7)) {
            if let Some(ts) = d.and_hms_opt(8, 0, 0) {
                periods.push(four_hours_from(ts));
            }
        }
    }
    let course = Course::new("Chemistry", None, vec![], periods);
    assert!(course.is_in_progress(&time_provider));
}
