//! What the driver asks of the GPIO lines.
//!
//! The driver never touches a line itself. It hands out `LineOp`s, in the
//! order in which they are to be carried out, and whoever owns the hardware
//! performs them. Which operations put a line to rest is a matter of the
//! `Deactivation` policy.

use vstd::prelude::*;

verus! {

/// The direction of a line.
#[derive(Clone, Copy, Debug, PartialEq, Eq, Structural)]
pub enum LineMode {
    Output,
    Input,
    InputOutput,
}

/// The pull resistor of a line.
#[derive(Clone, Copy, Debug, PartialEq, Eq, Structural)]
pub enum Pull {
    Floating,
    Up,
    Down,
}

/// One operation on one line.
#[derive(Clone, Copy, Debug, PartialEq, Eq, Structural)]
pub enum LineOp {
    /// Switch the line to `mode`.
    Configure { pin: i32, mode: LineMode },
    /// Select the pull resistor of the line.
    SetPull { pin: i32, pull: Pull },
    /// Set the output level of the line: high if `high`, else low.
    SetLevel { pin: i32, high: bool },
}

/// How a line is put to rest once its cell has had its turn.
#[derive(Clone, Copy, Debug, PartialEq, Eq, Structural)]
pub enum Deactivation {
    /// Drive the column low and the row high.
    DriveInert,
    /// Switch both lines to floating inputs.
    TriState,
    /// Drive the row low and the column high.
    InvertedRest,
}

/// The two lines of one cell. To light the cell the column is driven high
/// and the row low.
#[derive(Clone, Copy, Debug, PartialEq, Eq, Structural)]
pub struct LinePair {
    pub row: i32,
    pub column: i32,
}

/// The level at which `policy` rests a driven line: `true` for high.
/// `TriState` does not drive a resting line, so the level is of no account
/// there.
pub open spec fn rest_level(policy: Deactivation, is_row: bool) -> bool {
    match policy {
        Deactivation::DriveInert => is_row,
        Deactivation::TriState => is_row,
        Deactivation::InvertedRest => !is_row,
    }
}

/// The operations that put the line `pin` to rest for the first time.
pub open spec fn rest_ops(policy: Deactivation, pin: i32, is_row: bool) -> Seq<LineOp> {
    match policy {
        Deactivation::TriState => seq![
            LineOp::Configure { pin, mode: LineMode::Input },
            LineOp::SetPull { pin, pull: Pull::Floating },
        ],
        _ => seq![
            LineOp::Configure { pin, mode: LineMode::Output },
            LineOp::SetPull { pin, pull: Pull::Floating },
            LineOp::SetLevel { pin, high: rest_level(policy, is_row) },
        ],
    }
}

/// The operations that put every line of the table `pins` to rest, line by
/// line in the order of the table. The first `rows` lines are rows.
pub open spec fn startup_ops(policy: Deactivation, pins: Seq<i32>, rows: int) -> Seq<LineOp>
    decreases pins.len(),
{
    if pins.len() == 0 {
        Seq::empty()
    } else {
        startup_ops(policy, pins.drop_last(), rows) + rest_ops(
            policy,
            pins.last(),
            pins.len() - 1 < rows,
        )
    }
}

/// The operations that take the pair `pair` out of use.
pub open spec fn release_ops(policy: Deactivation, pair: LinePair) -> Seq<LineOp> {
    match policy {
        Deactivation::DriveInert => seq![
            LineOp::SetLevel { pin: pair.column, high: false },
            LineOp::SetLevel { pin: pair.row, high: true },
        ],
        Deactivation::TriState => seq![
            LineOp::Configure { pin: pair.column, mode: LineMode::Input },
            LineOp::Configure { pin: pair.row, mode: LineMode::Input },
        ],
        Deactivation::InvertedRest => seq![
            LineOp::SetLevel { pin: pair.column, high: true },
            LineOp::SetLevel { pin: pair.row, high: false },
        ],
    }
}

/// The operations that light the cell of `pair`: the column goes high, the
/// row low. Lines that rest as inputs are switched to outputs first.
pub open spec fn engage_ops(policy: Deactivation, pair: LinePair) -> Seq<LineOp> {
    match policy {
        Deactivation::TriState => seq![
            LineOp::Configure { pin: pair.column, mode: LineMode::Output },
            LineOp::Configure { pin: pair.row, mode: LineMode::Output },
            LineOp::SetLevel { pin: pair.column, high: true },
            LineOp::SetLevel { pin: pair.row, high: false },
        ],
        _ => seq![
            LineOp::SetLevel { pin: pair.column, high: true },
            LineOp::SetLevel { pin: pair.row, high: false },
        ],
    }
}

/// The operations of one scan step: take `previous` out of use, if a pair was
/// in use, then light `next`.
pub open spec fn step_ops(
    policy: Deactivation,
    previous: Option<LinePair>,
    next: LinePair,
) -> Seq<LineOp> {
    match previous {
        Some(pair) => release_ops(policy, pair) + engage_ops(policy, next),
        None => engage_ops(policy, next),
    }
}

/// Appends to `ops` what puts the line `pin` to rest for the first time.
pub fn push_rest(ops: &mut Vec<LineOp>, policy: Deactivation, pin: i32, is_row: bool)
    ensures
        final(ops)@ == old(ops)@ + rest_ops(policy, pin, is_row),
{
    match policy {
        Deactivation::TriState => {
            ops.push(LineOp::Configure { pin, mode: LineMode::Input });
            ops.push(LineOp::SetPull { pin, pull: Pull::Floating });
        },
        Deactivation::DriveInert => {
            ops.push(LineOp::Configure { pin, mode: LineMode::Output });
            ops.push(LineOp::SetPull { pin, pull: Pull::Floating });
            ops.push(LineOp::SetLevel { pin, high: is_row });
        },
        Deactivation::InvertedRest => {
            ops.push(LineOp::Configure { pin, mode: LineMode::Output });
            ops.push(LineOp::SetPull { pin, pull: Pull::Floating });
            ops.push(LineOp::SetLevel { pin, high: !is_row });
        },
    }
    assert(ops@ =~= old(ops)@ + rest_ops(policy, pin, is_row));
}

/// Appends to `ops` what takes `pair` out of use.
pub fn push_release(ops: &mut Vec<LineOp>, policy: Deactivation, pair: LinePair)
    ensures
        final(ops)@ == old(ops)@ + release_ops(policy, pair),
{
    match policy {
        Deactivation::DriveInert => {
            ops.push(LineOp::SetLevel { pin: pair.column, high: false });
            ops.push(LineOp::SetLevel { pin: pair.row, high: true });
        },
        Deactivation::TriState => {
            ops.push(LineOp::Configure { pin: pair.column, mode: LineMode::Input });
            ops.push(LineOp::Configure { pin: pair.row, mode: LineMode::Input });
        },
        Deactivation::InvertedRest => {
            ops.push(LineOp::SetLevel { pin: pair.column, high: true });
            ops.push(LineOp::SetLevel { pin: pair.row, high: false });
        },
    }
    assert(ops@ =~= old(ops)@ + release_ops(policy, pair));
}

/// Appends to `ops` what lights the cell of `pair`.
pub fn push_engage(ops: &mut Vec<LineOp>, policy: Deactivation, pair: LinePair)
    ensures
        final(ops)@ == old(ops)@ + engage_ops(policy, pair),
{
    match policy {
        Deactivation::TriState => {
            ops.push(LineOp::Configure { pin: pair.column, mode: LineMode::Output });
            ops.push(LineOp::Configure { pin: pair.row, mode: LineMode::Output });
        },
        _ => {},
    }
    ops.push(LineOp::SetLevel { pin: pair.column, high: true });
    ops.push(LineOp::SetLevel { pin: pair.row, high: false });
    assert(ops@ =~= old(ops)@ + engage_ops(policy, pair));
}

} // verus!
