//! The order in which the cells of a frame are lit.
//!
//! A frame is a sequence of booleans, one per matrix cell. The scan walks the
//! frame as a cycle: after the last cell comes the first. It only ever stops
//! on a lit cell.

use vstd::prelude::*;

verus! {

/// Some cell of `frame` is lit.
pub open spec fn has_lit(frame: Seq<bool>) -> bool {
    exists|i: int| 0 <= i < frame.len() && frame[i]
}

/// Exactly the cell `only` of `frame` is lit.
pub open spec fn sole_lit(frame: Seq<bool>, only: int) -> bool {
    &&& 0 <= only < frame.len()
    &&& forall|i: int| 0 <= i < frame.len() ==> (frame[i] <==> i == only)
}

/// On the way round the cycle from `from` to `to`, the scan passes over `k`:
/// `k` comes after `from` and before `to`. When `to` is not ahead of `from`
/// the way leads over the end of the frame and on from its start.
pub open spec fn passes_over(from: int, to: int, k: int) -> bool {
    if from < to {
        from < k < to
    } else {
        k > from || k < to
    }
}

/// `to` is the lit cell that the scan of `frame` reaches first when it leaves
/// `from`: it is lit, and every cell passed over on the way is dark. A scan
/// that finds no other lit cell comes back to `from` itself.
pub open spec fn is_next_lit(frame: Seq<bool>, from: int, to: int) -> bool {
    &&& 0 <= to < frame.len()
    &&& frame[to]
    &&& forall|k: int| 0 <= k < frame.len() && passes_over(from, to, k) ==> !frame[k]
}

/// The cell on which the scan of `frame` stops when it leaves `from`. On a
/// frame without a lit cell there is no such cell, and the value says
/// nothing.
pub open spec fn stop_after(frame: Seq<bool>, from: int) -> int {
    choose|to: int| is_next_lit(frame, from, to)
}

/// The cell on which the scan of `frame` stands after `steps` steps from
/// `from`.
pub open spec fn after_steps(frame: Seq<bool>, from: int, steps: nat) -> int
    decreases steps,
{
    if steps == 0 {
        from
    } else {
        stop_after(frame, after_steps(frame, from, (steps - 1) as nat))
    }
}

/// How many cells the scan has to go from `from` to reach `to`: between 1
/// and the number of cells, a full round where `to` is `from` itself.
pub open spec fn ahead(cells: int, from: int, to: int) -> int {
    if from < to {
        to - from
    } else {
        to - from + cells
    }
}

/// Whether `frame` has a lit cell.
pub fn frame_has_lit(frame: &[bool]) -> (lit: bool)
    ensures
        lit == has_lit(frame@),
{
    let mut i: usize = 0;
    while i < frame.len()
        invariant
            i <= frame.len(),
            forall|k: int| 0 <= k < i ==> !frame@[k],
        decreases frame.len() - i,
    {
        if frame[i] {
            return true;
        }
        i += 1;
    }
    false
}

/// The cell after `at` on the cycle of `cells` cells.
fn successor(at: usize, cells: usize) -> (next: usize)
    requires
        at < cells,
    ensures
        next == (if at + 1 == cells { 0 } else { at + 1 }),
        next < cells,
{
    if at >= cells - 1 {
        0
    } else {
        at + 1
    }
}

/// Advances from `from` by one cell and then skips forward, wrapping from the
/// last cell to the first, until it stands on a lit cell.
///
/// A frame without a lit cell would keep the scan going round for ever, so
/// such a frame must not be handed in.
pub fn next_lit(frame: &[bool], from: usize) -> (to: usize)
    requires
        has_lit(frame@),
        from < frame@.len(),
    ensures
        is_next_lit(frame@, from as int, to as int),
        to == stop_after(frame@, from as int),
{
    let cells = frame.len();
    let mut at = successor(from, cells);
    let mut wrapped = at == 0;
    while !frame[at]
        invariant
            cells == frame@.len(),
            from < cells,
            at < cells,
            has_lit(frame@),
            wrapped ==> at <= from,
            !wrapped ==> from < at,
            forall|k: int| 0 <= k < cells && passes_over(from as int, at as int, k) ==> !frame@[k],
        decreases (if wrapped { 0 } else { cells as int }) + from - at,
    {
        proof {
            if wrapped && at == from {
                assert forall|k: int| 0 <= k < cells implies !frame@[k] by {
                    if k != at {
                        assert(passes_over(from as int, at as int, k));
                    }
                }
                assert(false);
            }
        }
        let ghost before = at as int;
        at = successor(at, cells);
        if at == 0 {
            wrapped = true;
        }
        assert forall|k: int| 0 <= k < cells && passes_over(from as int, at as int, k)
            implies !frame@[k] by {
            if k != before {
                assert(passes_over(from as int, before, k));
            }
        }
    }
    proof {
        lemma_stop_after_is_next_lit(frame@, from as int, at as int);
    }
    at
}

/// The scan has one way to go: two cells that are both the next lit cell
/// after `from` are the same cell.
pub proof fn lemma_next_lit_unique(frame: Seq<bool>, from: int, a: int, b: int)
    requires
        is_next_lit(frame, from, a),
        is_next_lit(frame, from, b),
    ensures
        a == b,
{
    if a < b {
        assert(passes_over(from, b, a) || passes_over(from, a, b));
    } else if b < a {
        assert(passes_over(from, a, b) || passes_over(from, b, a));
    }
}

/// Where a cell is the next lit cell after `from`, it is the cell on which
/// the scan stops.
pub proof fn lemma_stop_after_is_next_lit(frame: Seq<bool>, from: int, to: int)
    requires
        is_next_lit(frame, from, to),
    ensures
        stop_after(frame, from) == to,
        is_next_lit(frame, from, stop_after(frame, from)),
{
    lemma_next_lit_unique(frame, from, to, stop_after(frame, from));
}

/// The first lit cell of `frame` from `low` on, given that there is one
/// before `high`.
proof fn first_lit_from(frame: Seq<bool>, low: int, high: int) -> (first: int)
    requires
        0 <= low < high <= frame.len(),
        exists|k: int| low <= k < high && frame[k],
    ensures
        low <= first < high,
        frame[first],
        forall|k: int| low <= k < first ==> !frame[k],
    decreases high - low,
{
    if frame[low] {
        low
    } else {
        let k = choose|k: int| low <= k < high && frame[k];
        assert(low + 1 <= k < high && frame[k]);
        first_lit_from(frame, low + 1, high)
    }
}

/// On a frame with a lit cell the scan stops, wherever it starts.
pub proof fn lemma_scan_reaches_lit(frame: Seq<bool>, from: int)
    requires
        has_lit(frame),
        0 <= from < frame.len(),
    ensures
        is_next_lit(frame, from, stop_after(frame, from)),
{
    let to = if exists|k: int| from + 1 <= k < frame.len() && frame[k] {
        first_lit_from(frame, from + 1, frame.len() as int)
    } else {
        let lit = choose|i: int| 0 <= i < frame.len() && frame[i];
        assert(0 <= lit < from + 1 && frame[lit]);
        first_lit_from(frame, 0, from + 1)
    };
    assert(is_next_lit(frame, from, to));
    lemma_stop_after_is_next_lit(frame, from, to);
}

/// On a frame whose only lit cell is `only`, the scan comes back to `only`
/// from wherever it starts, also from `only` itself.
pub proof fn lemma_sole_lit_is_fixed(frame: Seq<bool>, only: int, from: int, to: int)
    requires
        sole_lit(frame, only),
        is_next_lit(frame, from, to),
    ensures
        to == only,
{
}

/// On a frame whose only lit cell is `only`, `only` is the next lit cell
/// after every cell.
pub proof fn lemma_sole_lit_is_next(frame: Seq<bool>, only: int, from: int)
    requires
        sole_lit(frame, only),
    ensures
        is_next_lit(frame, from, only),
{
    assert forall|k: int| 0 <= k < frame.len() && passes_over(from, only, k) implies !frame[k] by {
        assert(k != only);
    }
}

/// The scan visits the lit cells in ascending order and wraps after the last:
/// while a lit cell lies beyond `from`, the next stop is the nearest of them;
/// when none does, the next stop is the first lit cell of the frame.
pub proof fn lemma_scan_ascends_then_wraps(frame: Seq<bool>, from: int, to: int)
    requires
        0 <= from < frame.len(),
        is_next_lit(frame, from, to),
    ensures
        (exists|k: int| from < k < frame.len() && frame[k]) ==> {
            &&& from < to
            &&& forall|k: int| from < k < to ==> !frame[k]
        },
        !(exists|k: int| from < k < frame.len() && frame[k]) ==> {
            &&& to <= from
            &&& forall|k: int| 0 <= k < to ==> !frame[k]
        },
{
    if exists|k: int| from < k < frame.len() && frame[k] {
        let k = choose|k: int| from < k < frame.len() && frame[k];
        if to <= from {
            assert(passes_over(from, to, k));
        }
        assert forall|j: int| from < j < to implies !frame[j] by {
            assert(passes_over(from, to, j));
        }
    } else {
        if from < to {
            assert(frame[to]);
        }
        assert forall|j: int| 0 <= j < to implies !frame[j] by {
            assert(passes_over(from, to, j));
        }
    }
}

/// Steps from `from` are a first step and then steps from where it stops.
pub proof fn lemma_steps_after_first(frame: Seq<bool>, from: int, steps: nat)
    ensures
        after_steps(frame, from, steps + 1) == after_steps(frame, stop_after(frame, from), steps),
    decreases steps,
{
    if steps > 0 {
        lemma_steps_after_first(frame, from, (steps - 1) as nat);
    } else {
        assert(after_steps(frame, from, 1) == stop_after(frame, after_steps(frame, from, 0)));
    }
}

/// Every lit cell gets its turn: from wherever the scan stands, it stops on
/// the lit cell `cell` after some steps, and they are no more than the cells
/// that lie between. The result is the number of steps.
pub proof fn lemma_lit_cell_gets_its_turn(frame: Seq<bool>, from: int, cell: int) -> (steps: nat)
    requires
        0 <= from < frame.len(),
        0 <= cell < frame.len(),
        frame[cell],
    ensures
        1 <= steps <= ahead(frame.len() as int, from, cell),
        after_steps(frame, from, steps) == cell,
    decreases ahead(frame.len() as int, from, cell),
{
    lemma_scan_reaches_lit(frame, from);
    let to = stop_after(frame, from);
    if to == cell {
        assert(after_steps(frame, from, 1) == stop_after(frame, after_steps(frame, from, 0)));
        1
    } else {
        assert(!passes_over(from, to, cell));
        let rest = lemma_lit_cell_gets_its_turn(frame, to, cell);
        lemma_steps_after_first(frame, from, rest);
        rest + 1
    }
}

} // verus!
