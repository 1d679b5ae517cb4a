//! Weekly timetables: courses that recur on given weekdays at given times of day.

pub mod course;
pub mod error;
pub mod tutor;
