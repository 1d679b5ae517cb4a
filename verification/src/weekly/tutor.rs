//! A tutor of a weekly course, known by name.

use vstd::prelude::*;
use crate::distinct::SameView;

verus! {

/// A tutor who teaches a weekly course.
#[derive(Debug, PartialEq, Eq, Hash)]
pub struct Tutor {
    name: String,
}

impl View for Tutor {
    type V = Seq<char>;

    /// The tutor's name.
    closed spec fn view(&self) -> Seq<char> {
        self.name@
    }
}

impl Clone for Tutor {
    fn clone(&self) -> (r: Tutor)
        ensures
            r@ == self@,
    {
        Tutor { name: self.name.clone() }
    }
}

impl Tutor {
    /// The tutor with the given name.
    pub fn new(name: &str) -> (r: Tutor)
        ensures
            r@ == name@,
    {
        Tutor { name: name.to_owned() }
    }
}

impl SameView for Tutor {
    fn same_as(&self, other: &Tutor) -> (r: bool) {
        self.name.eq(&other.name)
    }

    fn duplicate(&self) -> (r: Tutor) {
        self.clone()
    }
}

} // verus!
