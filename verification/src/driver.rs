//! The charlieplex driver: which cell is lit, and what has to happen on the
//! lines to light the next one.

use crate::error::ConfigError;
use crate::line::{push_engage, push_release, push_rest, Deactivation, LineOp, LinePair};
use crate::line::{startup_ops, step_ops};
use crate::scan::{frame_has_lit, has_lit, is_next_lit, next_lit, stop_after};
use vstd::prelude::*;

verus! {

/// The number of cells of a matrix of `layout.0` rows and `layout.1` columns.
pub open spec fn cell_count(layout: (usize, usize)) -> int {
    layout.0 * layout.1
}

/// The number of lines that such a matrix is wired with.
pub open spec fn line_count(layout: (usize, usize)) -> int {
    layout.0 + layout.1
}

/// The lines of the cell `index`. The table `pins` holds the `rows` row lines
/// first and the column lines after them.
pub open spec fn pair_at(pins: Seq<i32>, rows: int, index: int) -> LinePair {
    LinePair { row: pins[index % rows], column: pins[index / rows + rows] }
}

/// What a driver holds, as plain values.
pub struct Grid {
    /// The line of each row, then the line of each column.
    pub pins: Seq<i32>,
    /// The pair that is driven at the moment, if any.
    pub active: Option<LinePair>,
    /// The frame that is being shown.
    pub reference: Seq<bool>,
    /// The number of rows and of columns.
    pub layout: (usize, usize),
    /// The cell at which the scan stands.
    pub index: usize,
    /// How lines are put to rest.
    pub policy: Deactivation,
}

impl Grid {
    /// The table and the frame fit the layout, the scan stands inside the
    /// frame, and the pair in use is that of the cell at which it stands.
    pub open spec fn wf(self) -> bool {
        &&& self.pins.len() == line_count(self.layout)
        &&& self.reference.len() == cell_count(self.layout)
        &&& cell_count(self.layout) <= usize::MAX
        &&& (self.index == 0 || self.index < cell_count(self.layout))
        &&& self.active matches Some(pair) ==> {
            &&& self.index < cell_count(self.layout)
            &&& pair == pair_at(self.pins, self.layout.0 as int, self.index as int)
        }
    }

    /// The cell on which the next step stops.
    pub open spec fn next_index(self) -> int {
        stop_after(self.reference, self.index as int)
    }

    /// The pair of the cell on which the next step stops.
    pub open spec fn next_pair(self) -> LinePair {
        pair_at(self.pins, self.layout.0 as int, self.next_index())
    }

    /// The driver after one step.
    pub open spec fn after_step(self) -> Grid {
        Grid { index: self.next_index() as usize, active: Some(self.next_pair()), ..self }
    }

    /// The line operations of the next step.
    pub open spec fn step_lines(self) -> Seq<LineOp> {
        step_ops(self.policy, self.active, self.next_pair())
    }

    /// The driver with another frame to show.
    pub open spec fn showing(self, reference: Seq<bool>) -> Grid {
        Grid { reference, ..self }
    }
}

/// A charlieplexed matrix that shows one frame by lighting its lit cells one
/// after the other.
pub struct Charlieplex<'a> {
    pins: Vec<i32>,
    active: Option<LinePair>,
    reference: &'a [bool],
    layout: (usize, usize),
    index: usize,
    policy: Deactivation,
}

impl<'a> View for Charlieplex<'a> {
    type V = Grid;

    closed spec fn view(&self) -> Grid {
        Grid {
            pins: self.pins@,
            active: self.active,
            reference: self.reference@,
            layout: self.layout,
            index: self.index,
            policy: self.policy,
        }
    }
}

/// In a frame of `rows` times `columns` cells, the row of a cell lies in the
/// first `rows` places of the pin table and its column in the places after
/// them.
pub proof fn lemma_cell_lines_in_table(rows: int, columns: int, index: int)
    requires
        0 <= rows,
        0 <= columns,
        0 <= index < rows * columns,
    ensures
        0 < rows,
        0 <= index % rows < rows,
        rows <= index / rows + rows < rows + columns,
{
    assert(0 < rows) by (nonlinear_arith)
        requires
            0 <= rows,
            0 <= index < rows * columns,
    ;
    vstd::arithmetic::div_mod::lemma_multiply_divide_lt(index, rows, columns);
    vstd::arithmetic::div_mod::lemma_mod_bound(index, rows);
    vstd::arithmetic::div_mod::lemma_div_pos_is_pos(index, rows);
}

impl<'a> Charlieplex<'a> {
    /// The driver is well formed.
    pub open spec fn wf(&self) -> bool {
        self@.wf()
    }

    /// A driver that rests its lines at inert levels. See `with_policy`.
    pub fn new(pins: Vec<i32>, reference: &'a [bool], layout: (usize, usize)) -> (made: Result<
        (Self, Vec<LineOp>),
        ConfigError,
    >)
        ensures
            made is Ok <==> pins@.len() == line_count(layout) && reference@.len() == cell_count(
                layout,
            ),
            made matches Ok((grid, ops)) ==> {
                &&& grid.wf()
                &&& grid@ == (Grid {
                    pins: pins@,
                    active: None,
                    reference: reference@,
                    layout,
                    index: 0,
                    policy: Deactivation::DriveInert,
                })
                &&& ops@ == startup_ops(Deactivation::DriveInert, pins@, layout.0 as int)
            },
            made matches Err(e) ==> e == (if pins@.len() != line_count(layout) {
                ConfigError::PinCount
            } else {
                ConfigError::FrameLength
            }),
    {
        Self::with_policy(pins, reference, layout, Deactivation::DriveInert)
    }

    /// A driver for the matrix of `layout.0` rows and `layout.1` columns that
    /// is wired to `pins` and shows `reference`.
    ///
    /// It is made exactly when `pins` holds one line per row and column and
    /// `reference` one entry per cell. With the driver come the operations
    /// that put every line to rest under `policy`; no cell is in use yet, and
    /// the scan stands at the first cell.
    pub fn with_policy(
        pins: Vec<i32>,
        reference: &'a [bool],
        layout: (usize, usize),
        policy: Deactivation,
    ) -> (made: Result<(Self, Vec<LineOp>), ConfigError>)
        ensures
            made is Ok <==> pins@.len() == line_count(layout) && reference@.len() == cell_count(
                layout,
            ),
            made matches Ok((grid, ops)) ==> {
                &&& grid.wf()
                &&& grid@ == (Grid {
                    pins: pins@,
                    active: None,
                    reference: reference@,
                    layout,
                    index: 0,
                    policy,
                })
                &&& ops@ == startup_ops(policy, pins@, layout.0 as int)
            },
            made matches Err(e) ==> e == (if pins@.len() != line_count(layout) {
                ConfigError::PinCount
            } else {
                ConfigError::FrameLength
            }),
    {
        let given = pins.len();
        let lines_fit = match layout.0.checked_add(layout.1) {
            Some(lines) => given == lines,
            None => false,
        };
        if !lines_fit {
            return Err(ConfigError::PinCount);
        }
        let entries = reference.len();
        let cells_fit = match layout.0.checked_mul(layout.1) {
            Some(cells) => entries == cells,
            None => false,
        };
        if !cells_fit {
            return Err(ConfigError::FrameLength);
        }
        let mut ops: Vec<LineOp> = Vec::new();
        let mut i: usize = 0;
        while i < pins.len()
            invariant
                i <= pins.len(),
                ops@ == startup_ops(policy, pins@.take(i as int), layout.0 as int),
            decreases pins.len() - i,
        {
            proof {
                let upto = pins@.take(i + 1);
                assert(upto.drop_last() =~= pins@.take(i as int));
                assert(upto.last() == pins@[i as int]);
            }
            push_rest(&mut ops, policy, pins[i], i < layout.0);
            i += 1;
        }
        proof {
            assert(pins@.take(pins@.len() as int) =~= pins@);
        }
        Ok((Charlieplex { pins, active: None, reference, layout, index: 0, policy }, ops))
    }

    /// Shows `reference` from now on.
    ///
    /// The frame is taken exactly when it holds one entry per cell; otherwise
    /// nothing changes. The scan stays where it stands: should the cell be
    /// dark in the new frame, the next step moves on from there.
    pub fn reference(&mut self, reference: &'a [bool]) -> (taken: Result<(), ConfigError>)
        requires
            old(self).wf(),
        ensures
            final(self).wf(),
            taken is Ok <==> reference@.len() == cell_count(old(self)@.layout),
            taken is Ok ==> final(self)@ == old(self)@.showing(reference@),
            taken matches Err(e) ==> e == ConfigError::FrameLength,
            taken is Err ==> final(self)@ == old(self)@,
    {
        if reference.len() != self.reference.len() {
            return Err(ConfigError::FrameLength);
        }
        self.reference = reference;
        Ok(())
    }

    /// Whether the frame that is being shown has a lit cell, so that the
    /// scan can step.
    pub fn can_step(&self) -> (lit: bool)
        ensures
            lit == has_lit(self@.reference),
    {
        frame_has_lit(self.reference)
    }

    /// Moves the light to the next lit cell of the frame.
    ///
    /// The pair in use is taken out of use, the scan advances by one cell and
    /// skips the dark ones, wrapping after the last cell, and the pair of the
    /// cell it stops on is driven: column high, row low. The result holds the
    /// line operations for this, in order.
    ///
    /// The frame must have a lit cell: on a dark frame the scan would never
    /// stop.
    pub fn step(&mut self) -> (ops: Vec<LineOp>)
        requires
            old(self).wf(),
            has_lit(old(self)@.reference),
        ensures
            final(self).wf(),
            final(self)@ == old(self)@.after_step(),
            ops@ == old(self)@.step_lines(),
            is_next_lit(old(self)@.reference, old(self)@.index as int, final(self)@.index as int),
            final(self)@.reference[final(self)@.index as int],
    {
        let mut ops: Vec<LineOp> = Vec::new();
        if let Some(pair) = self.active {
            push_release(&mut ops, self.policy, pair);
        }
        let at = next_lit(self.reference, self.index);
        let rows = self.layout.0;
        proof {
            lemma_cell_lines_in_table(rows as int, self.layout.1 as int, at as int);
            assert(self.pins.len() <= usize::MAX);
        }
        let row_place = at % rows;
        let column_place = at / rows + rows;
        let pair = LinePair { row: self.pins[row_place], column: self.pins[column_place] };
        push_engage(&mut ops, self.policy, pair);
        self.index = at;
        self.active = Some(pair);
        proof {
            assert(ops@ =~= step_ops(old(self)@.policy, old(self)@.active, pair));
        }
        ops
    }

    /// The cell at which the scan stands.
    pub fn index(&self) -> (index: usize)
        ensures
            index == self@.index,
    {
        self.index
    }

    /// The number of rows and of columns.
    pub fn layout(&self) -> (layout: (usize, usize))
        ensures
            layout == self@.layout,
    {
        self.layout
    }

    /// The pair that is driven at the moment, if any.
    pub fn active(&self) -> (active: Option<LinePair>)
        ensures
            active == self@.active,
    {
        self.active
    }

    /// How the driver puts lines to rest.
    pub fn policy(&self) -> (policy: Deactivation)
        ensures
            policy == self@.policy,
    {
        self.policy
    }

    /// The frame that is being shown.
    pub fn frame(&self) -> (frame: &'a [bool])
        ensures
            frame@ == self@.reference,
    {
        self.reference
    }
}

} // verus!
