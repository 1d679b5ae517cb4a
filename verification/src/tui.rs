//! The state of the terminal timetable viewer: the list of courses, the
//! selected position in it, and whether the viewer is to quit; and how a key
//! press changes that state.

use vstd::prelude::*;
use crate::course::Course;
use crate::query::{is_listed, owned_names, str_views};
use crate::time_provider::DefaultTimeProvider;

verus! {

/// A key press, as far as the viewer tells keys apart.
#[derive(Clone, Copy, Debug, PartialEq, Eq)]
pub enum Key {
    Char(char),
    Up,
    Down,
    Other,
}

/// The last position of a list of `len` items (0 for an empty list).
pub open spec fn last_position(len: int) -> int {
    if len > 0 {
        len - 1
    } else {
        0
    }
}

/// Holds for the courses whose name is one of `names`.
pub open spec fn chosen_pred(names: Seq<Seq<char>>) -> spec_fn(Course) -> bool {
    |c: Course| names.contains(c@.name)
}

/// The courses shown and the selected position among them.
#[derive(Debug)]
pub struct CoursesState {
    courses: Vec<Course>,
    position: usize,
}

impl CoursesState {
    #[verifier::type_invariant]
    spec fn inv(self) -> bool {
        self.position <= last_position(self.courses@.len() as int)
    }

    /// The courses shown.
    pub closed spec fn spec_courses(&self) -> Seq<Course> {
        self.courses@
    }

    /// The selected position.
    pub closed spec fn spec_position(&self) -> usize {
        self.position
    }
}

/// The viewer: its clock, whether it is to quit, and the courses shown.
#[derive(Debug)]
pub struct App {
    time_provider: DefaultTimeProvider,
    exit: bool,
    courses_state: CoursesState,
}

impl App {
    /// The viewer showing `courses`, with the first one selected.
    pub fn new(courses: Vec<Course>) -> (r: App)
        ensures
            r.courses() == courses@,
            r.position() == 0,
            !r.exiting(),
    {
        App {
            time_provider: DefaultTimeProvider,
            exit: false,
            courses_state: CoursesState { courses, position: 0 },
        }
    }

    /// The viewer showing those of `courses` whose name is one of `names`,
    /// in their order, with the first one selected.
    pub fn from_chosen(courses: Vec<Course>, names: &[&str]) -> (r: App)
        ensures
            r.courses() == courses@.filter(chosen_pred(str_views(names@))),
            r.position() == 0,
            !r.exiting(),
    {
        let owned = owned_names(names);
        let ghost all = courses@;
        let ghost pred = chosen_pred(str_views(names@));
        let mut rest = courses;
        let mut kept: Vec<Course> = Vec::new();
        let ghost mut i: int = 0;
        while rest.len() > 0
            invariant
                0 <= i <= all.len(),
                rest@ == all.skip(i),
                kept@ == all.take(i).filter(pred),
                crate::query::string_views(owned@) == str_views(names@),
                pred == chosen_pred(str_views(names@)),
            decreases rest@.len(),
        {
            proof {
                assert(all.take(i + 1) =~= all.take(i).push(all[i]));
                all.take(i).lemma_filter_push(all[i], pred);
                assert(rest@[0] == all[i]);
            }
            let c = rest.remove(0);
            if is_listed(&owned, c.name()) {
                kept.push(c);
            }
            proof {
                assert(rest@ =~= all.skip(i + 1));
                i = i + 1;
            }
        }
        assert(all.take(i) =~= all);
        App::new(kept)
    }

    /// The courses shown.
    pub closed spec fn courses(&self) -> Seq<Course> {
        self.courses_state.spec_courses()
    }

    /// The selected position.
    pub closed spec fn position(&self) -> usize {
        self.courses_state.spec_position()
    }

    /// Whether the viewer is to quit.
    pub closed spec fn exiting(&self) -> bool {
        self.exit
    }

    /// Whether the viewer is to quit.
    pub fn is_exiting(&self) -> (r: bool)
        ensures
            r == self.exiting(),
    {
        self.exit
    }

    /// The selected position.
    pub fn selected(&self) -> (r: usize)
        ensures
            r == self.position(),
            r <= last_position(self.courses().len() as int),
    {
        proof { use_type_invariant(&self.courses_state); }
        self.courses_state.position
    }

    /// The courses shown.
    pub fn shown_courses(&self) -> (r: &Vec<Course>)
        ensures
            r@ == self.courses(),
    {
        &self.courses_state.courses
    }

    /// Handles a key press: `q` quits, Up selects the previous course (staying
    /// at the first), Down selects the next (staying at the last); other keys
    /// change nothing.
    pub fn handle_key_event(&mut self, key: Key)
        ensures
            final(self).courses() == old(self).courses(),
            final(self).exiting() == (old(self).exiting() || key == Key::Char('q')),
            final(self).position() == (match key {
                Key::Up => if old(self).position() > 0 {
                    (old(self).position() - 1) as usize
                } else {
                    0
                },
                Key::Down => if old(self).position() + 1 <= last_position(
                    old(self).courses().len() as int,
                ) {
                    (old(self).position() + 1) as usize
                } else {
                    last_position(old(self).courses().len() as int) as usize
                },
                _ => old(self).position(),
            }),
    {
        proof { use_type_invariant(&self.courses_state); }
        match key {
            Key::Char(c) => {
                if c == 'q' {
                    self.exit();
                }
            },
            Key::Up => {
                let p = self.courses_state.position;
                self.courses_state.position = if p > 0 { p - 1 } else { 0 };
            },
            Key::Down => {
                let p = self.courses_state.position;
                let len = self.courses_state.courses.len();
                let last = if len > 0 { len - 1 } else { 0 };
                self.courses_state.position = if p + 1 <= last { p + 1 } else { last };
            },
            Key::Other => {},
        }
    }

    /// Marks the viewer to quit.
    pub fn exit(&mut self)
        ensures
            final(self).exiting(),
            final(self).courses() == old(self).courses(),
            final(self).position() == old(self).position(),
    {
        self.exit = true;
    }

    /// The position of the first course on the page that holds the selected
    /// course, when a page shows `lines` courses.
    pub fn page_start(&self, lines: usize) -> (r: usize)
        requires
            lines > 0,
        ensures
            r == self.position() / lines * lines,
            r <= self.position(),
    {
        let p = self.courses_state.position;
        let q = p / lines;
        assert(q * lines <= p) by (nonlinear_arith)
            requires
                lines > 0,
                q == p / lines,
        ;
        q * lines
    }

    /// The rows of the page that holds the selected course, when a page
    /// shows `lines` courses: for each row, the position of the course it
    /// shows and whether that course is the selected one. The page starts at
    /// `page_start(lines)` and ends at the end of the list or after `lines` rows.
    pub fn page_rows(&self, lines: usize) -> (r: Vec<(usize, bool)>)
        requires
            lines > 0,
        ensures
            r@.len() == (if self.courses().len() - self.position() / lines * lines < lines {
                self.courses().len() - self.position() / lines * lines
            } else {
                lines as int
            }),
            forall|i: int|
                0 <= i < r@.len() ==> #[trigger] r@[i] == (
                    (self.position() / lines * lines + i) as usize,
                    self.position() / lines * lines + i == self.position(),
                ),
    {
        proof { use_type_invariant(&self.courses_state); }
        let skip = self.page_start(lines);
        let len = self.courses_state.courses.len();
        let p = self.courses_state.position;
        let end = if len - skip < lines { len } else { skip + lines };
        let mut rows: Vec<(usize, bool)> = Vec::new();
        let mut k = skip;
        while k < end
            invariant
                skip <= k <= end,
                end <= len,
                end - skip <= lines,
                rows@.len() == k - skip,
                forall|i: int| 0 <= i < rows@.len() ==> #[trigger] rows@[i] == ((skip + i) as usize, skip + i == p),
            decreases end - k,
        {
            rows.push((k, k == p));
            k += 1;
        }
        rows
    }
}

} // verus!
