//! A course timetable library: courses made of dated periods, queries over
//! collections of courses (in progress, upcoming, nearest, by name), a weekly
//! timetable variant, and the state of a terminal viewer.

pub mod distinct;
pub mod time;
pub mod period;
pub mod tutor;
pub mod time_provider;
pub mod course;
pub mod query;
pub mod weekly;
pub mod schedule;
pub mod tui;

pub use course::Course;
pub use period::{Holiday, Period};
pub use query::Query;
pub use schedule::{Schedule, course};
pub use time::{Days, NaiveDate, NaiveDateTime, NaiveTime, TimeDelta, Weekday};
pub use time_provider::{DefaultTimeProvider, MockTimeProvider, TimeProvider};
pub use tutor::Tutor;
