//! Picking up and putting down one of three movable points.

use vstd::prelude::*;

verus! {

/// The number of movable points.
pub const PRIMARY_POINTS: usize = 3;

/// What a click asks for.
#[derive(Debug, Copy, Clone, PartialEq, Eq, Structural)]
pub enum Click {
    /// Nothing changed.
    Ignored,
    /// The selection changed; no point moved.
    Selected,
    /// The point with this index moves to where the click was.
    Moved(usize),
}

/// Which of the movable points is picked up, if any.
#[derive(Debug, Copy, Clone, PartialEq, Eq, Structural)]
pub struct Selection {
    pub selected_point: Option<usize>,
}

/// The first of the movable points that the click hit, if any.
pub open spec fn spec_first_hit(hits: Seq<bool>) -> Option<usize>
    decreases hits.len(),
{
    if hits.len() == 0 {
        None
    } else {
        match spec_first_hit(hits.drop_last()) {
            Some(index) => Some(index),
            None => if hits.last() {
                Some((hits.len() - 1) as usize)
            } else {
                None
            },
        }
    }
}

/// The selection after a click of the left button: a click on the point that
/// is picked up puts it down, a click on another point picks that one up,
/// and a click elsewhere leaves the selection.
pub open spec fn spec_after_click(selection: Selection, hit: Option<usize>) -> Selection {
    match hit {
        Some(index) => if selection.selected_point == Some(index) {
            Selection { selected_point: None }
        } else {
            Selection { selected_point: Some(index) }
        },
        None => selection,
    }
}

/// What a click of the left button asks for.
pub open spec fn spec_click(selection: Selection, hit: Option<usize>) -> Click {
    match hit {
        Some(_) => Click::Selected,
        None => match selection.selected_point {
            Some(index) => Click::Moved(index),
            None => Click::Ignored,
        },
    }
}

/// The first of the movable points that the click hit.
pub fn first_hit(hits: &Vec<bool>) -> (hit: Option<usize>)
    ensures
        hit == spec_first_hit(hits@),
        hit matches Some(index) ==> index < hits@.len() && hits@[index as int],
{
    let mut index: usize = 0;
    while index < hits.len()
        invariant
            index <= hits@.len(),
            spec_first_hit(hits@.take(index as int)) == None::<usize>,
        decreases hits@.len() - index,
    {
        assert(hits@.take(index + 1).drop_last() =~= hits@.take(index as int));
        if hits[index] {
            proof {
                lemma_first_hit_stays(hits@, index + 1);
            }
            return Some(index);
        }
        index = index + 1;
    }
    assert(hits@.take(hits@.len() as int) =~= hits@);
    None
}

/// A hit among the first `upto` points is the first hit among all.
proof fn lemma_first_hit_stays(hits: Seq<bool>, upto: int)
    requires
        0 <= upto <= hits.len(),
        spec_first_hit(hits.take(upto)).is_some(),
    ensures
        spec_first_hit(hits) == spec_first_hit(hits.take(upto)),
    decreases hits.len() - upto,
{
    if upto < hits.len() {
        assert(hits.take(upto + 1).drop_last() =~= hits.take(upto));
        lemma_first_hit_stays(hits, upto + 1);
    } else {
        assert(hits.take(upto) =~= hits);
    }
}

impl Selection {
    /// Nothing is picked up.
    pub fn new() -> (selection: Self)
        ensures
            selection.selected_point == None::<usize>,
    {
        Selection { selected_point: None }
    }

    /// Handles a click. `hits` says of each movable point whether the click
    /// fell on it. Any button but the left one is ignored.
    pub fn mouse_pressed(&mut self, left_button: bool, hits: &Vec<bool>) -> (click: Click)
        ensures
            !left_button ==> click == Click::Ignored && *final(self) == *old(self),
            left_button ==> click == spec_click(*old(self), spec_first_hit(hits@)) && *final(self)
                == spec_after_click(*old(self), spec_first_hit(hits@)),
    {
        if !left_button {
            return Click::Ignored;
        }
        match first_hit(hits) {
            Some(index) => {
                let same: bool = match self.selected_point {
                    Some(selected) => selected == index,
                    None => false,
                };
                if same {
                    self.selected_point = None;
                } else {
                    self.selected_point = Some(index);
                }
                Click::Selected
            },
            None => match self.selected_point {
                Some(index) => Click::Moved(index),
                None => Click::Ignored,
            },
        }
    }
}

} // verus!
