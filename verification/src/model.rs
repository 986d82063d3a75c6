//! The data that one extraction pass works on: what is observed on the page,
//! what passes the filter, and the goals that come out.

use vstd::prelude::*;

verus! {

/// Into how many parts a layout unit is divided. Edges and sizes are counted
/// in these parts, which is the grain in which pages are laid out, so that
/// nothing is lost to rounding before two edges are compared.
pub const PARTS_PER_UNIT: i64 = 64;

/// The box that a rendered element takes up. Each field counts parts of a
/// layout unit, `PARTS_PER_UNIT` to the unit.
#[derive(Clone, Copy, Debug, PartialEq, Eq)]
pub struct Frame {
    pub left: i32,
    pub top: i32,
    pub width: i32,
    pub height: i32,
}

/// One observation from the page: a line of its text, which has no frame, or
/// the text that an element owns together with the element's frame.
#[derive(Clone, Debug, PartialEq, Eq)]
pub struct RawUnit {
    pub text: String,
    pub frame: Option<Frame>,
}

/// A unit as contracts see it: its text as a sequence of characters.
pub struct RawUnitView {
    pub text: Seq<char>,
    pub frame: Option<Frame>,
}

impl View for RawUnit {
    type V = RawUnitView;

    open spec fn view(&self) -> RawUnitView {
        RawUnitView { text: self.text@, frame: self.frame }
    }
}

impl DeepView for RawUnit {
    type V = RawUnitView;

    open spec fn deep_view(&self) -> RawUnitView {
        self@
    }
}

/// The two ways of reading goals off a page.
#[derive(Clone, Copy, Debug, PartialEq, Eq)]
pub enum Strategy {
    /// By the frames of the rendered elements.
    Geometry,
    /// By the lines of the flattened visible text.
    PlainText,
}

/// A unit that passed the filter, with its title cleaned. A candidate of the
/// plain-text strategy has no place on the page: its `left` and `top` are 0.
#[derive(Clone, Debug, PartialEq, Eq)]
pub struct Candidate {
    pub text: String,
    pub left: i32,
    pub top: i32,
}

/// A candidate as contracts see it: its title as a sequence of characters,
/// its edges as mathematical integers.
pub struct CandidateView {
    pub text: Seq<char>,
    pub left: int,
    pub top: int,
}

impl View for Candidate {
    type V = CandidateView;

    open spec fn view(&self) -> CandidateView {
        CandidateView { text: self.text@, left: self.left as int, top: self.top as int }
    }
}

impl DeepView for Candidate {
    type V = CandidateView;

    open spec fn deep_view(&self) -> CandidateView {
        self@
    }
}

/// A goal as it is handed on: its identifier, its title, whether it is
/// completed, and the identifier of its parent if it has one.
#[derive(Clone, Debug, PartialEq, Eq)]
pub struct Goal {
    pub id: String,
    pub title: String,
    pub completed: bool,
    pub parent_id: Option<String>,
}

/// A goal as contracts see it: its texts as sequences of characters.
pub struct GoalView {
    pub id: Seq<char>,
    pub title: Seq<char>,
    pub completed: bool,
    pub parent_id: Option<Seq<char>>,
}

impl View for Goal {
    type V = GoalView;

    open spec fn view(&self) -> GoalView {
        GoalView {
            id: self.id@,
            title: self.title@,
            completed: self.completed,
            parent_id: match self.parent_id {
                Some(p) => Some(p@),
                None => None,
            },
        }
    }
}

impl DeepView for Goal {
    type V = GoalView;

    open spec fn deep_view(&self) -> GoalView {
        self@
    }
}

/// Whether a frame is there and takes up room: an element without one, or
/// with a width or a height that is not positive, is not rendered.
pub open spec fn is_rendered(frame: Option<Frame>) -> bool {
    match frame {
        Some(f) => f.width > 0 && f.height > 0,
        None => false,
    }
}

/// Whether a frame is there and takes up room.
pub fn rendered(frame: &Option<Frame>) -> (r: bool)
    ensures
        r == is_rendered(*frame),
{
    match frame {
        Some(f) => f.width > 0 && f.height > 0,
        None => false,
    }
}

} // verus!
