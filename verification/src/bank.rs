//! The frame bank: the frames of each animation, checked once against the
//! layout of the matrix.

use crate::animation::{Cursor, Lengths, State};
use crate::driver::cell_count;
use crate::error::ConfigError;
use crate::scan::{frame_has_lit, has_lit};
use vstd::prelude::*;

verus! {

/// The frames as sequences of booleans.
pub open spec fn views(frames: Seq<Vec<bool>>) -> Seq<Seq<bool>> {
    Seq::new(frames.len(), |i: int| frames[i]@)
}

/// Every frame of `frames` holds `cells` entries.
pub open spec fn all_fit(frames: Seq<Seq<bool>>, cells: int) -> bool {
    forall|i: int| 0 <= i < frames.len() ==> (#[trigger] frames[i]).len() == cells
}

/// Every frame of `frames` has a lit cell.
pub open spec fn all_lit(frames: Seq<Seq<bool>>) -> bool {
    forall|i: int| 0 <= i < frames.len() ==> has_lit(#[trigger] frames[i])
}

/// What a frame bank holds, as plain values.
pub struct Frames {
    /// The number of rows and of columns of the matrix.
    pub layout: (usize, usize),
    /// The frames of the message.
    pub message: Seq<Seq<bool>>,
    /// The frame that is shown while the sign waits for a button.
    pub waiting: Seq<bool>,
    /// The frames of the accepted animation.
    pub accepted: Seq<Seq<bool>>,
    /// The frames of the rejected animation.
    pub rejected: Seq<Seq<bool>>,
}

impl Frames {
    /// Every animation holds a frame, and no more than can be counted.
    pub open spec fn complete(self) -> bool {
        &&& 1 <= self.message.len() <= usize::MAX
        &&& 1 <= self.accepted.len() <= usize::MAX
        &&& 1 <= self.rejected.len() <= usize::MAX
    }

    /// Every frame holds one entry per cell.
    pub open spec fn fits(self) -> bool {
        &&& all_fit(self.message, cell_count(self.layout))
        &&& self.waiting.len() == cell_count(self.layout)
        &&& all_fit(self.accepted, cell_count(self.layout))
        &&& all_fit(self.rejected, cell_count(self.layout))
    }

    /// Every frame has a lit cell.
    pub open spec fn lit(self) -> bool {
        &&& all_lit(self.message)
        &&& has_lit(self.waiting)
        &&& all_lit(self.accepted)
        &&& all_lit(self.rejected)
    }

    /// The bank can be shown on a matrix of its layout.
    pub open spec fn wf(self) -> bool {
        self.complete() && self.fits() && self.lit()
    }

    /// The number of frames of each animation.
    pub open spec fn lengths(self) -> Lengths {
        Lengths {
            message: self.message.len() as usize,
            accepted: self.accepted.len() as usize,
            rejected: self.rejected.len() as usize,
        }
    }

    /// The number of frames that `state` has.
    pub open spec fn count(self, state: State) -> int {
        match state {
            State::Message => self.message.len() as int,
            State::Waiting => 1,
            State::Accepted => self.accepted.len() as int,
            State::Rejected => self.rejected.len() as int,
        }
    }

    /// The bank has a frame for `cursor`.
    pub open spec fn holds(self, cursor: Cursor) -> bool {
        cursor.index < self.count(cursor.state)
    }

    /// The frame for `cursor`.
    pub open spec fn frame_at(self, cursor: Cursor) -> Seq<bool> {
        match cursor.state {
            State::Message => self.message[cursor.index as int],
            State::Waiting => self.waiting,
            State::Accepted => self.accepted[cursor.index as int],
            State::Rejected => self.rejected[cursor.index as int],
        }
    }
}

/// Whether every frame of `frames` holds `cells` entries.
fn frames_fit(frames: &Vec<Vec<bool>>, cells: usize) -> (fit: bool)
    ensures
        fit == all_fit(views(frames@), cells as int),
{
    let mut i: usize = 0;
    while i < frames.len()
        invariant
            i <= frames.len(),
            forall|k: int| 0 <= k < i ==> (#[trigger] views(frames@)[k]).len() == cells,
        decreases frames.len() - i,
    {
        if frames[i].len() != cells {
            assert(views(frames@)[i as int].len() != cells);
            return false;
        }
        i += 1;
    }
    true
}

/// Whether every frame of `frames` has a lit cell.
fn frames_lit(frames: &Vec<Vec<bool>>) -> (lit: bool)
    ensures
        lit == all_lit(views(frames@)),
{
    let mut i: usize = 0;
    while i < frames.len()
        invariant
            i <= frames.len(),
            forall|k: int| 0 <= k < i ==> has_lit(#[trigger] views(frames@)[k]),
        decreases frames.len() - i,
    {
        if !frame_has_lit(frames[i].as_slice()) {
            assert(!has_lit(views(frames@)[i as int]));
            return false;
        }
        i += 1;
    }
    true
}

/// The frames of the sign, one list per animation.
pub struct FrameBank {
    layout: (usize, usize),
    message: Vec<Vec<bool>>,
    waiting: Vec<bool>,
    accepted: Vec<Vec<bool>>,
    rejected: Vec<Vec<bool>>,
}

impl View for FrameBank {
    type V = Frames;

    closed spec fn view(&self) -> Frames {
        Frames {
            layout: self.layout,
            message: views(self.message@),
            waiting: self.waiting@,
            accepted: views(self.accepted@),
            rejected: views(self.rejected@),
        }
    }
}

impl FrameBank {
    /// The bank is well formed.
    pub open spec fn wf(&self) -> bool {
        self@.wf()
    }

    /// A bank of the given frames for a matrix of `layout.0` rows and
    /// `layout.1` columns.
    ///
    /// It is made exactly when every animation holds a frame, every frame
    /// holds one entry per cell, and every frame has a lit cell. Of several
    /// defects the first in this order is reported.
    pub fn new(
        layout: (usize, usize),
        message: Vec<Vec<bool>>,
        waiting: Vec<bool>,
        accepted: Vec<Vec<bool>>,
        rejected: Vec<Vec<bool>>,
    ) -> (made: Result<FrameBank, ConfigError>)
        ensures
            made is Ok <==> (Frames {
                layout,
                message: views(message@),
                waiting: waiting@,
                accepted: views(accepted@),
                rejected: views(rejected@),
            }).wf(),
            made matches Ok(bank) ==> bank.wf() && bank@ == (Frames {
                layout,
                message: views(message@),
                waiting: waiting@,
                accepted: views(accepted@),
                rejected: views(rejected@),
            }),
            made matches Err(e) ==> e == ({
                let frames = Frames {
                    layout,
                    message: views(message@),
                    waiting: waiting@,
                    accepted: views(accepted@),
                    rejected: views(rejected@),
                };
                if !frames.complete() {
                    ConfigError::EmptySequence
                } else if !frames.fits() {
                    ConfigError::FrameLength
                } else {
                    ConfigError::DarkFrame
                }
            }),
    {
        if message.len() == 0 || accepted.len() == 0 || rejected.len() == 0 {
            return Err(ConfigError::EmptySequence);
        }
        let entries = waiting.len();
        let cells = match layout.0.checked_mul(layout.1) {
            Some(cells) => cells,
            None => {
                return Err(ConfigError::FrameLength);
            },
        };
        if !frames_fit(&message, cells) || entries != cells || !frames_fit(&accepted, cells)
            || !frames_fit(&rejected, cells) {
            return Err(ConfigError::FrameLength);
        }
        if !frames_lit(&message) || !frame_has_lit(waiting.as_slice()) || !frames_lit(&accepted)
            || !frames_lit(&rejected) {
            return Err(ConfigError::DarkFrame);
        }
        Ok(FrameBank { layout, message, waiting, accepted, rejected })
    }

    /// The number of rows and of columns of the matrix.
    pub fn layout(&self) -> (layout: (usize, usize))
        ensures
            layout == self@.layout,
    {
        self.layout
    }

    /// The number of frames of each animation.
    pub fn lengths(&self) -> (lengths: Lengths)
        ensures
            lengths == self@.lengths(),
            forall|state: State| lengths.of(state) == self@.count(state),
    {
        Lengths {
            message: self.message.len(),
            accepted: self.accepted.len(),
            rejected: self.rejected.len(),
        }
    }

    /// The frame for `cursor`.
    pub fn frame(&self, cursor: Cursor) -> (frame: &[bool])
        requires
            self@.holds(cursor),
        ensures
            frame@ == self@.frame_at(cursor),
    {
        match cursor.state {
            State::Message => self.message[cursor.index].as_slice(),
            State::Waiting => self.waiting.as_slice(),
            State::Accepted => self.accepted[cursor.index].as_slice(),
            State::Rejected => self.rejected[cursor.index].as_slice(),
        }
    }
}

} // verus!
