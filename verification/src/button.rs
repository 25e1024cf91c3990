//! Reading a button: how many times in a row its level must read high
//! before the press counts.

use vstd::prelude::*;

verus! {

/// The reading of one button. With `need` at 0 or 1 every high level counts
/// at once; with more, only a level that has read high `need` times in a row.
#[derive(Clone, Copy, Debug, PartialEq, Eq, Structural)]
pub struct Debounce {
    /// The number of high samples in a row that make a press.
    pub need: u32,
    /// The number of high samples in a row so far. It stops counting at the
    /// largest value it can hold.
    pub run: u32,
}

impl Debounce {
    /// The reading after one more sample of the button.
    pub open spec fn after_sample(self, level: bool) -> Debounce {
        Debounce {
            need: self.need,
            run: if !level {
                0
            } else if self.run < u32::MAX {
                (self.run + 1) as u32
            } else {
                self.run
            },
        }
    }

    /// Whether the sample `level` makes a press.
    pub open spec fn pressed_by(self, level: bool) -> bool {
        level && self.after_sample(level).run >= self.need
    }

    /// The reading with nothing counted.
    pub open spec fn cleared(self) -> Debounce {
        Debounce { need: self.need, run: 0 }
    }

    /// The reading after `samples` high samples in a row.
    pub open spec fn after_highs(self, samples: nat) -> Debounce
        decreases samples,
    {
        if samples == 0 {
            self
        } else {
            self.after_highs((samples - 1) as nat).after_sample(true)
        }
    }

    /// A reading that asks for `need` high samples in a row and has counted
    /// none.
    pub fn new(need: u32) -> (made: Debounce)
        ensures
            made == (Debounce { need, run: 0 }),
    {
        Debounce { need, run: 0 }
    }

    /// Takes one sample of the button and says whether it makes a press.
    pub fn sample(&mut self, level: bool) -> (pressed: bool)
        ensures
            *final(self) == old(self).after_sample(level),
            pressed == old(self).pressed_by(level),
    {
        if !level {
            self.run = 0;
            return false;
        }
        if self.run < u32::MAX {
            self.run = self.run + 1;
        }
        self.run >= self.need
    }

    /// Forgets what was counted.
    pub fn clear(&mut self)
        ensures
            *final(self) == old(self).cleared(),
    {
        self.run = 0;
    }
}

/// A reading that asks for no more than one sample passes the level on as it
/// is.
pub proof fn lemma_raw_reading(reading: Debounce, level: bool)
    requires
        reading.need <= 1,
    ensures
        reading.pressed_by(level) == level,
{
}

/// From a cleared reading, the high sample that makes the press is the one
/// that completes a run of `need`: after `before` high samples in a row, one
/// more makes a press exactly when `before + 1` reaches `need`.
pub proof fn lemma_press_after_run(reading: Debounce, before: nat)
    requires
        reading.run == 0,
    ensures
        reading.after_highs(before).need == reading.need,
        reading.after_highs(before).run == (if before < u32::MAX {
            before as int
        } else {
            u32::MAX as int
        }),
        reading.after_highs(before).pressed_by(true) <==> before + 1 >= reading.need,
        !reading.after_highs(before).pressed_by(false),
    decreases before,
{
    if before > 0 {
        lemma_press_after_run(reading, (before - 1) as nat);
    }
}

} // verus!
