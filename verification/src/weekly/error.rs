//! The errors of weekly timetables.

use vstd::prelude::*;

verus! {

/// An error of a weekly timetable. No operation fails yet: the one variant
/// holds a value of a type that has none, so no error can be made.
#[derive(Debug)]
pub enum CourseError {
    Never(core::convert::Infallible),
}

/// The result of a weekly-timetable operation.
pub type Result<T> = core::result::Result<T, CourseError>;

} // verus!
