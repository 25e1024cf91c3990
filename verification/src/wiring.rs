//! What the line operations do to the lines.
//!
//! Nothing here runs on the sign. It is the account of why the operations
//! that the driver hands out are the right ones: carried out in order, on a
//! matrix whose lines are all different, they leave the pair of the cell in
//! turn driven and every other line at rest.

use crate::driver::{lemma_cell_lines_in_table, pair_at, Grid};
use crate::line::{engage_ops, release_ops, rest_level, rest_ops, startup_ops};
use crate::line::{Deactivation, LineMode, LineOp, LinePair, Pull};
use crate::scan::{has_lit, is_next_lit, lemma_scan_reaches_lit};
use vstd::prelude::*;

verus! {

/// The state of one line.
pub struct Line {
    pub mode: LineMode,
    pub pull: Pull,
    /// The output level: high if set. An input does not drive it.
    pub high: bool,
}

/// What a line of the table has to do at the moment.
pub enum Duty {
    /// A row that is not in use.
    RestRow,
    /// A column that is not in use.
    RestColumn,
    /// The row of the cell in turn: it takes the current in.
    Sink,
    /// The column of the cell in turn: it gives the current out.
    Source,
}

/// The lines after `op` was carried out.
pub open spec fn apply(lines: Map<i32, Line>, op: LineOp) -> Map<i32, Line> {
    match op {
        LineOp::Configure { pin, mode } => lines.insert(pin, Line { mode, ..lines[pin] }),
        LineOp::SetPull { pin, pull } => lines.insert(pin, Line { pull, ..lines[pin] }),
        LineOp::SetLevel { pin, high } => lines.insert(pin, Line { high, ..lines[pin] }),
    }
}

/// The lines after `ops` were carried out in order.
pub open spec fn run(lines: Map<i32, Line>, ops: Seq<LineOp>) -> Map<i32, Line>
    decreases ops.len(),
{
    if ops.len() == 0 {
        lines
    } else {
        apply(run(lines, ops.drop_last()), ops.last())
    }
}

/// The line is driven high.
pub open spec fn drives_high(line: Line) -> bool {
    line.mode != LineMode::Input && line.high
}

/// The line is driven low.
pub open spec fn drives_low(line: Line) -> bool {
    line.mode != LineMode::Input && !line.high
}

/// Current flows through the cell of `pair`: its column is driven high and
/// its row low.
pub open spec fn conducts(lines: Map<i32, Line>, pair: LinePair) -> bool {
    drives_high(lines[pair.column]) && drives_low(lines[pair.row])
}

/// The line does its duty under `policy`.
pub open spec fn fulfils(policy: Deactivation, line: Line, duty: Duty) -> bool {
    &&& line.pull == Pull::Floating
    &&& match duty {
        Duty::Sink => line.mode == LineMode::Output && !line.high,
        Duty::Source => line.mode == LineMode::Output && line.high,
        Duty::RestRow => match policy {
            Deactivation::TriState => line.mode == LineMode::Input,
            _ => line.mode == LineMode::Output && line.high == rest_level(policy, true),
        },
        Duty::RestColumn => match policy {
            Deactivation::TriState => line.mode == LineMode::Input,
            _ => line.mode == LineMode::Output && line.high == rest_level(policy, false),
        },
    }
}

/// The duty of an idle line at `place` of the table.
pub open spec fn rest_duty(rows: int, place: int) -> Duty {
    if place < rows {
        Duty::RestRow
    } else {
        Duty::RestColumn
    }
}

/// The duty of the line at `place` of the table of `grid`.
pub open spec fn duty(grid: Grid, place: int) -> Duty {
    let rows = grid.layout.0 as int;
    if grid.active is Some && place == grid.index as int % rows {
        Duty::Sink
    } else if grid.active is Some && place == grid.index as int / rows + rows {
        Duty::Source
    } else {
        rest_duty(rows, place)
    }
}

/// No line stands twice in the table.
pub open spec fn distinct(pins: Seq<i32>) -> bool {
    forall|i: int, j: int| 0 <= i < j < pins.len() ==> pins[i] != pins[j]
}

/// Every line of the table of `grid` does its duty.
pub open spec fn settled(lines: Map<i32, Line>, grid: Grid) -> bool {
    forall|place: int|
        0 <= place < grid.pins.len() ==> fulfils(
            grid.policy,
            #[trigger] lines[grid.pins[place]],
            duty(grid, place),
        )
}

/// Every line of the table `pins` is at rest.
pub open spec fn all_rest(
    lines: Map<i32, Line>,
    policy: Deactivation,
    pins: Seq<i32>,
    rows: int,
) -> bool {
    forall|place: int|
        0 <= place < pins.len() ==> fulfils(
            policy,
            #[trigger] lines[pins[place]],
            rest_duty(rows, place),
        )
}

/// Operations that follow one another are carried out one after the other.
pub proof fn lemma_run_concat(lines: Map<i32, Line>, first: Seq<LineOp>, then: Seq<LineOp>)
    ensures
        run(lines, first + then) == run(run(lines, first), then),
    decreases then.len(),
{
    if then.len() == 0 {
        assert(first + then =~= first);
    } else {
        assert((first + then).drop_last() =~= first + then.drop_last());
        assert((first + then).last() == then.last());
        lemma_run_concat(lines, first, then.drop_last());
    }
}

/// Two operations, carried out.
proof fn lemma_run_two(lines: Map<i32, Line>, a: LineOp, b: LineOp)
    ensures
        run(lines, seq![a, b]) == apply(apply(lines, a), b),
{
    let ops = seq![a, b];
    assert(ops.drop_last() =~= seq![a]);
    assert(seq![a].drop_last() =~= Seq::<LineOp>::empty());
    assert(run(lines, Seq::<LineOp>::empty()) == lines);
    assert(run(lines, seq![a]) == apply(lines, a));
}

/// Three operations, carried out.
proof fn lemma_run_three(lines: Map<i32, Line>, a: LineOp, b: LineOp, c: LineOp)
    ensures
        run(lines, seq![a, b, c]) == apply(apply(apply(lines, a), b), c),
{
    let ops = seq![a, b, c];
    assert(ops.drop_last() =~= seq![a, b]);
    lemma_run_two(lines, a, b);
}

/// Four operations, carried out.
proof fn lemma_run_four(lines: Map<i32, Line>, a: LineOp, b: LineOp, c: LineOp, d: LineOp)
    ensures
        run(lines, seq![a, b, c, d]) == apply(apply(apply(apply(lines, a), b), c), d),
{
    let ops = seq![a, b, c, d];
    assert(ops.drop_last() =~= seq![a, b, c]);
    lemma_run_three(lines, a, b, c);
}

/// Putting one line to rest leaves it at rest with a floating pull and
/// touches no other line.
pub proof fn lemma_rest_ops(lines: Map<i32, Line>, policy: Deactivation, pin: i32, is_row: bool)
    ensures
        fulfils(
            policy,
            run(lines, rest_ops(policy, pin, is_row))[pin],
            if is_row {
                Duty::RestRow
            } else {
                Duty::RestColumn
            },
        ),
        forall|other: i32|
            other != pin ==> #[trigger] run(lines, rest_ops(policy, pin, is_row))[other]
                == lines[other],
{
    match policy {
        Deactivation::TriState => {
            lemma_run_two(
                lines,
                LineOp::Configure { pin, mode: LineMode::Input },
                LineOp::SetPull { pin, pull: Pull::Floating },
            );
        },
        _ => {
            lemma_run_three(
                lines,
                LineOp::Configure { pin, mode: LineMode::Output },
                LineOp::SetPull { pin, pull: Pull::Floating },
                LineOp::SetLevel { pin, high: rest_level(policy, is_row) },
            );
        },
    }
}

/// After the start-up operations every line of the table is at rest,
/// whatever state the lines were in.
pub proof fn lemma_startup_rests_all(
    lines: Map<i32, Line>,
    policy: Deactivation,
    pins: Seq<i32>,
    rows: int,
)
    requires
        distinct(pins),
    ensures
        all_rest(run(lines, startup_ops(policy, pins, rows)), policy, pins, rows),
    decreases pins.len(),
{
    if pins.len() > 0 {
        let head = pins.drop_last();
        let last_place = pins.len() - 1;
        let before = run(lines, startup_ops(policy, head, rows));
        let after = run(lines, startup_ops(policy, pins, rows));
        assert(distinct(head));
        lemma_startup_rests_all(lines, policy, head, rows);
        lemma_run_concat(
            lines,
            startup_ops(policy, head, rows),
            rest_ops(policy, pins.last(), last_place < rows),
        );
        lemma_rest_ops(before, policy, pins.last(), last_place < rows);
        assert forall|place: int| 0 <= place < pins.len() implies fulfils(
            policy,
            #[trigger] after[pins[place]],
            rest_duty(rows, place),
        ) by {
            if place < last_place {
                assert(pins[place] != pins[last_place]);
                assert(head[place] == pins[place]);
                assert(fulfils(policy, before[head[place]], rest_duty(rows, place)));
            }
        }
    }
}

/// A driver that was just made, with the start-up operations carried out,
/// has every line doing its duty.
pub proof fn lemma_startup_settles(lines: Map<i32, Line>, grid: Grid)
    requires
        grid.wf(),
        grid.active is None,
        distinct(grid.pins),
    ensures
        settled(
            run(lines, startup_ops(grid.policy, grid.pins, grid.layout.0 as int)),
            grid,
        ),
{
    lemma_startup_rests_all(lines, grid.policy, grid.pins, grid.layout.0 as int);
}

/// After the start-up operations of a driver that rests its lines inert or
/// floating, no current flows through any cell.
pub proof fn lemma_startup_is_dark(lines: Map<i32, Line>, grid: Grid, cell: int)
    requires
        grid.wf(),
        grid.active is None,
        grid.policy != Deactivation::InvertedRest,
        distinct(grid.pins),
        0 <= cell < grid.reference.len(),
    ensures
        !conducts(
            run(lines, startup_ops(grid.policy, grid.pins, grid.layout.0 as int)),
            pair_at(grid.pins, grid.layout.0 as int, cell),
        ),
{
    let rested = run(lines, startup_ops(grid.policy, grid.pins, grid.layout.0 as int));
    lemma_startup_settles(lines, grid);
    lemma_one_cell_conducts(rested, grid, cell);
}

/// Taking a pair out of use puts both its lines to rest, provided they were
/// outputs with floating pulls, and touches no other line.
proof fn lemma_release_ops(lines: Map<i32, Line>, policy: Deactivation, pair: LinePair)
    requires
        pair.row != pair.column,
        lines[pair.row].mode == LineMode::Output,
        lines[pair.column].mode == LineMode::Output,
        lines[pair.row].pull == Pull::Floating,
        lines[pair.column].pull == Pull::Floating,
    ensures
        fulfils(policy, run(lines, release_ops(policy, pair))[pair.row], Duty::RestRow),
        fulfils(policy, run(lines, release_ops(policy, pair))[pair.column], Duty::RestColumn),
        forall|other: i32|
            other != pair.row && other != pair.column ==> #[trigger] run(
                lines,
                release_ops(policy, pair),
            )[other] == lines[other],
{
    match policy {
        Deactivation::DriveInert => {
            lemma_run_two(
                lines,
                LineOp::SetLevel { pin: pair.column, high: false },
                LineOp::SetLevel { pin: pair.row, high: true },
            );
        },
        Deactivation::TriState => {
            lemma_run_two(
                lines,
                LineOp::Configure { pin: pair.column, mode: LineMode::Input },
                LineOp::Configure { pin: pair.row, mode: LineMode::Input },
            );
        },
        Deactivation::InvertedRest => {
            lemma_run_two(
                lines,
                LineOp::SetLevel { pin: pair.column, high: true },
                LineOp::SetLevel { pin: pair.row, high: false },
            );
        },
    }
}

/// Lighting a pair drives its column high and its row low, provided both
/// lines were at rest, and touches no other line.
proof fn lemma_engage_ops(lines: Map<i32, Line>, policy: Deactivation, pair: LinePair)
    requires
        pair.row != pair.column,
        fulfils(policy, lines[pair.row], Duty::RestRow),
        fulfils(policy, lines[pair.column], Duty::RestColumn),
    ensures
        fulfils(policy, run(lines, engage_ops(policy, pair))[pair.row], Duty::Sink),
        fulfils(policy, run(lines, engage_ops(policy, pair))[pair.column], Duty::Source),
        forall|other: i32|
            other != pair.row && other != pair.column ==> #[trigger] run(
                lines,
                engage_ops(policy, pair),
            )[other] == lines[other],
{
    match policy {
        Deactivation::TriState => {
            lemma_run_four(
                lines,
                LineOp::Configure { pin: pair.column, mode: LineMode::Output },
                LineOp::Configure { pin: pair.row, mode: LineMode::Output },
                LineOp::SetLevel { pin: pair.column, high: true },
                LineOp::SetLevel { pin: pair.row, high: false },
            );
        },
        _ => {
            lemma_run_two(
                lines,
                LineOp::SetLevel { pin: pair.column, high: true },
                LineOp::SetLevel { pin: pair.row, high: false },
            );
        },
    }
}

/// Where two places of a table without doubles hold the same line, they are
/// the same place.
proof fn lemma_same_line_same_place(pins: Seq<i32>, i: int, j: int)
    requires
        distinct(pins),
        0 <= i < pins.len(),
        0 <= j < pins.len(),
        pins[i] == pins[j],
    ensures
        i == j,
{
    if i < j {
        assert(pins[i] != pins[j]);
    } else if j < i {
        assert(pins[j] != pins[i]);
    }
}

/// The two lines of a cell stand at different places of the table: the row
/// among the rows, the column among the columns. In a table without doubles
/// they are different lines.
pub proof fn lemma_pair_is_two_lines(grid: Grid, index: int)
    requires
        grid.wf(),
        0 <= index < grid.reference.len(),
    ensures
        0 <= index % (grid.layout.0 as int) < grid.layout.0,
        grid.layout.0 <= index / (grid.layout.0 as int) + grid.layout.0 < grid.pins.len(),
        distinct(grid.pins) ==> pair_at(grid.pins, grid.layout.0 as int, index).row != pair_at(
            grid.pins,
            grid.layout.0 as int,
            index,
        ).column,
{
    lemma_cell_lines_in_table(grid.layout.0 as int, grid.layout.1 as int, index);
}

/// A step keeps the lines settled: where every line does its duty before the
/// operations of the step, every line does its duty after them.
pub proof fn lemma_step_keeps_settled(lines: Map<i32, Line>, grid: Grid)
    requires
        grid.wf(),
        has_lit(grid.reference),
        0 <= grid.index < grid.reference.len(),
        distinct(grid.pins),
        settled(lines, grid),
    ensures
        settled(run(lines, grid.step_lines()), grid.after_step()),
{
    let rows = grid.layout.0 as int;
    let pins = grid.pins;
    let policy = grid.policy;
    let next = grid.next_index();
    lemma_scan_reaches_lit(grid.reference, grid.index as int);
    assert(is_next_lit(grid.reference, grid.index as int, next));
    lemma_pair_is_two_lines(grid, next);
    let pair = grid.next_pair();
    let next_row = next % rows;
    let next_column = next / rows + rows;
    assert(pair.row == pins[next_row] && pair.column == pins[next_column]);
    let after_grid = grid.after_step();
    assert(after_grid.index as int == next);
    let released = match grid.active {
        Some(old_pair) => run(lines, release_ops(policy, old_pair)),
        None => lines,
    };
    assert(all_rest(released, policy, pins, rows)) by {
        match grid.active {
            Some(old_pair) => {
                lemma_pair_is_two_lines(grid, grid.index as int);
                let old_row = grid.index as int % rows;
                let old_column = grid.index as int / rows + rows;
                assert(old_pair.row == pins[old_row] && old_pair.column == pins[old_column]);
                assert(fulfils(policy, lines[pins[old_row]], duty(grid, old_row)));
                assert(fulfils(policy, lines[pins[old_column]], duty(grid, old_column)));
                lemma_release_ops(lines, policy, old_pair);
                assert forall|place: int| 0 <= place < pins.len() implies fulfils(
                    policy,
                    #[trigger] released[pins[place]],
                    rest_duty(rows, place),
                ) by {
                    if place == old_row || place == old_column {
                    } else {
                        if pins[place] == pins[old_row] {
                            lemma_same_line_same_place(pins, place, old_row);
                        }
                        if pins[place] == pins[old_column] {
                            lemma_same_line_same_place(pins, place, old_column);
                        }
                        assert(fulfils(policy, lines[pins[place]], duty(grid, place)));
                    }
                }
            },
            None => {
                assert forall|place: int| 0 <= place < pins.len() implies fulfils(
                    policy,
                    #[trigger] released[pins[place]],
                    rest_duty(rows, place),
                ) by {
                    assert(fulfils(policy, lines[pins[place]], duty(grid, place)));
                }
            },
        }
    }
    let after = run(released, engage_ops(policy, pair));
    assert(after == run(lines, grid.step_lines())) by {
        match grid.active {
            Some(old_pair) => {
                lemma_run_concat(lines, release_ops(policy, old_pair), engage_ops(policy, pair));
            },
            None => {},
        }
    }
    assert(fulfils(policy, released[pins[next_row]], rest_duty(rows, next_row)));
    assert(fulfils(policy, released[pins[next_column]], rest_duty(rows, next_column)));
    lemma_engage_ops(released, policy, pair);
    assert forall|place: int| 0 <= place < after_grid.pins.len() implies fulfils(
        after_grid.policy,
        #[trigger] after[after_grid.pins[place]],
        duty(after_grid, place),
    ) by {
        if place == next_row || place == next_column {
        } else {
            if pins[place] == pins[next_row] {
                lemma_same_line_same_place(pins, place, next_row);
            }
            if pins[place] == pins[next_column] {
                lemma_same_line_same_place(pins, place, next_column);
            }
            assert(fulfils(policy, released[pins[place]], rest_duty(rows, place)));
        }
    }
}

/// With settled lines that rest inert or floating, current flows through
/// the cell in turn and through no other: a cell conducts exactly when a
/// pair is in use and the scan stands on that cell.
pub proof fn lemma_one_cell_conducts(lines: Map<i32, Line>, grid: Grid, cell: int)
    requires
        grid.wf(),
        grid.policy != Deactivation::InvertedRest,
        distinct(grid.pins),
        settled(lines, grid),
        0 <= cell < grid.reference.len(),
    ensures
        conducts(lines, pair_at(grid.pins, grid.layout.0 as int, cell)) <==> (grid.active is Some
            && cell == grid.index),
{
    let rows = grid.layout.0 as int;
    let columns = grid.layout.1 as int;
    lemma_pair_is_two_lines(grid, cell);
    let row = cell % rows;
    let column = cell / rows + rows;
    assert(fulfils(grid.policy, lines[grid.pins[row]], duty(grid, row)));
    assert(fulfils(grid.policy, lines[grid.pins[column]], duty(grid, column)));
    if grid.active is Some {
        lemma_pair_is_two_lines(grid, grid.index as int);
        if row == grid.index as int % rows && column == grid.index as int / rows + rows {
            vstd::arithmetic::div_mod::lemma_fundamental_div_mod(cell, rows);
            vstd::arithmetic::div_mod::lemma_fundamental_div_mod(grid.index as int, rows);
        }
    }
}

} // verus!
