use curriculum::weekly::course::{Course, CoursePeriod};
use curriculum::{MockTimeProvider, NaiveDate, NaiveDateTime, NaiveTime, TimeDelta, Weekday};

fn period(day: Weekday, hour: u32) -> CoursePeriod {
    CoursePeriod::new(day, NaiveTime::from_hms_opt(hour, 0, 0).unwrap(), TimeDelta::hours(4))
}

#[test]
fn course_course_tests() {
    let time_provider = MockTimeProvider::new(NaiveDateTime::new(
        NaiveDate::min(), // Thursday
        NaiveTime::from_hms_opt(9, 0, 0).unwrap(),
    ));

    let course = Course::new("English", vec![], vec![period(Weekday::Thu, 8)]);
    assert!(course.is_in_progress(&time_provider));

    let course = Course::new("Chinese", vec![], vec![period(Weekday::Thu, 14)]);
    assert!(!course.is_in_progress(&time_provider));

    let course = Course::new("Math", vec![], vec![period(Weekday::Sun, 8)]);
    assert!(!course.is_in_progress(&time_provider));

    let course = Course::new(
        "History",
        vec![],
        vec![period(Weekday::Mon, 8), period(Weekday::Thu, 8)],
    );
    assert!(course.is_in_progress(&time_provider));
}
