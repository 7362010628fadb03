//! The hit tester: maps a pointer position onto the boxes of the most
//! recent layout pass, in document order, and works out what a click or
//! a hover on the struck line does.

use vstd::prelude::*;

use crate::doc::Document;
use crate::layout::{LineBox, LineBoxV};
use crate::line::LineV;
use crate::urlinfo::{join_url, url_join_of};

verus! {

/// A signal from the renderer to its host.
#[derive(Clone, Debug, PartialEq, Eq)]
pub enum Msg {
    /// Navigate to this absolute URL.
    Goto(String),
    /// Show this tooltip text.
    Tooltip(String),
}

/// What a click resolved to.
#[derive(Clone, Debug, PartialEq, Eq)]
pub enum ClickOutcome {
    /// A link was struck and resolved against the base URL.
    Navigate(String),
    /// A link was struck but the document has no base URL yet: a
    /// reportable condition, not a fault.
    NoBaseUrl,
    /// Nothing clickable was struck, or the link target would not
    /// resolve.
    Nothing,
}

/// Whether the box contains the point, bounds inclusive.
pub open spec fn contains_s(b: LineBoxV, px: int, py: int) -> bool {
    b.x <= px <= b.x + b.width && b.y <= py <= b.y + b.height
}

/// The first box in document order that contains the point.
pub fn hit_test(boxes: &Vec<LineBox>, px: u64, py: u64) -> (r: Option<usize>)
    ensures
        match r {
            Some(i) => {
                &&& i < boxes@.len()
                &&& contains_s(boxes.deep_view()[i as int], px as int, py as int)
                &&& forall|k: int|
                    0 <= k < i ==> !contains_s(boxes.deep_view()[k], px as int, py as int)
            },
            None => forall|k: int|
                0 <= k < boxes@.len() ==> !contains_s(
                    boxes.deep_view()[k],
                    px as int,
                    py as int,
                ),
        },
{
    let n = boxes.len();
    let mut i: usize = 0;
    while i < n
        invariant
            0 <= i <= n,
            n == boxes@.len(),
            forall|k: int| 0 <= k < i ==> !contains_s(boxes.deep_view()[k], px as int, py as int),
        decreases n - i,
    {
        let b = boxes[i];
        if b.x <= px && px - b.x <= b.width && b.y <= py && py - b.y <= b.height {
            proof {
                assert(boxes.deep_view()[i as int] == boxes@[i as int]@);
            }
            return Some(i);
        }
        proof {
            assert(boxes.deep_view()[i as int] == boxes@[i as int]@);
        }
        i = i + 1;
    }
    None
}

/// What a click on line `l` of a document with base URL `base` does.
pub open spec fn click_outcome_s(l: LineV, base: Option<Seq<char>>) -> Option<Option<Seq<char>>> {
    match l {
        LineV::Link { target, caption: _ } => match base {
            None => None,
            Some(b) => Some(url_join_of(b, target)),
        },
        _ => Some(None),
    }
}

/// The pointer state the renderer keeps between events.
pub struct Pointer {
    is_mouse_pressed: bool,
}

impl View for Pointer {
    type V = bool;

    closed spec fn view(&self) -> bool {
        self.is_mouse_pressed
    }
}

impl Pointer {
    /// A released pointer.
    pub fn new() -> (r: Self)
        ensures
            !r@,
    {
        Pointer { is_mouse_pressed: false }
    }

    /// A press arms the pointer and signals nothing by itself.
    pub fn on_mouse_press(&mut self, _px: u64, _py: u64) -> (r: Option<Msg>)
        ensures
            final(self)@,
            r is None,
    {
        self.is_mouse_pressed = true;
        None
    }

    /// A move while pressed selects nothing; released, it would show the
    /// struck line's tooltip — no current variant defines one, so no
    /// signal arises.
    pub fn on_mouse_move(&self, _boxes: &Vec<LineBox>, _px: u64, _py: u64) -> (r: Option<Msg>)
        ensures
            r is None,
    {
        None
    }

    /// A release clicks the first line whose box contains the point: a
    /// link resolves its target against the document's base URL; without
    /// a base URL that is reported as such; any other line, a failed
    /// resolution, or empty space does nothing.
    pub fn on_mouse_release(
        &mut self,
        doc: &Document,
        boxes: &Vec<LineBox>,
        lines: &Vec<crate::line::Line>,
        px: u64,
        py: u64,
    ) -> (r: ClickOutcome)
        requires
            boxes@.len() == lines@.len(),
            lines.deep_view() == doc@.lines,
        ensures
            !final(self)@,
            ({
                match hit_index_s(boxes.deep_view(), px as int, py as int) {
                    Some(i) => match click_outcome_s(doc@.lines[i], doc@.base_url) {
                        None => r is NoBaseUrl,
                        Some(None) => r is Nothing,
                        Some(Some(u)) => (r matches ClickOutcome::Navigate(t) && t@ == u),
                    },
                    None => r is Nothing,
                }
            }),
    {
        self.is_mouse_pressed = false;
        let struck = hit_test(boxes, px, py);
        proof {
            lemma_hit_index_s(boxes.deep_view(), px as int, py as int, struck);
        }
        match struck {
            None => ClickOutcome::Nothing,
            Some(i) => match &lines[i] {
                crate::line::Line::Link { target, caption: _ } => match doc.base_url() {
                    None => ClickOutcome::NoBaseUrl,
                    Some(b) => match join_url(b.as_str(), target.as_str()) {
                        Some(u) => ClickOutcome::Navigate(u),
                        None => ClickOutcome::Nothing,
                    },
                },
                _ => ClickOutcome::Nothing,
            },
        }
    }
}

/// The index of the first box containing the point, if any.
pub open spec fn hit_index_s(boxes: Seq<LineBoxV>, px: int, py: int) -> Option<int>
    decreases boxes.len(),
{
    if boxes.len() == 0 {
        None
    } else if contains_s(boxes[0], px, py) {
        Some(0)
    } else {
        match hit_index_s(boxes.drop_first(), px, py) {
            Some(i) => Some(1 + i),
            None => None,
        }
    }
}

proof fn lemma_hit_index_s(boxes: Seq<LineBoxV>, px: int, py: int, r: Option<usize>)
    requires
        match r {
            Some(i) => {
                &&& i < boxes.len()
                &&& contains_s(boxes[i as int], px, py)
                &&& forall|k: int| 0 <= k < i ==> !contains_s(boxes[k], px, py)
            },
            None => forall|k: int| 0 <= k < boxes.len() ==> !contains_s(boxes[k], px, py),
        },
    ensures
        match r {
            Some(i) => hit_index_s(boxes, px, py) == Some(i as int),
            None => hit_index_s(boxes, px, py) is None,
        },
    decreases boxes.len(),
{
    if boxes.len() > 0 {
        let t = boxes.drop_first();
        match r {
            Some(i) => {
                if i == 0 {
                } else {
                    assert(!contains_s(boxes[0], px, py));
                    assert(forall|k: int| 0 <= k < i - 1 ==> !contains_s(#[trigger] t[k], px, py));
                    lemma_hit_index_s(t, px, py, Some((i - 1) as usize));
                }
            },
            None => {
                assert(forall|k: int| 0 <= k < t.len() ==> !contains_s(#[trigger] t[k], px, py));
                lemma_hit_index_s(t, px, py, None);
            },
        }
    }
}

} // verus!
