//! The sparkling star border of the title and game-over screens, on the
//! 80-column text grid: which cells show a star in each phase of the
//! animation.

use vstd::prelude::*;
use vstd::seq_lib::lemma_seq_concat_contains_all_elements;

verus! {

/// The border repeats every this many phases.
pub const BORDER_SPARKLE_PERIOD: usize = 5;

/// A star in column `column` (from 0) of the top row.
pub open spec fn top_star(phase: int, column: int) -> bool {
    (column + phase) % 5 == 0
}

/// A star in column `column` (from 0) of the bottom row: the top row's
/// pattern running the other way.
pub open spec fn bottom_star(phase: int, column: int) -> bool {
    (column + 9 - phase) % 5 == 0
}

/// A star in row `row` of the right edge, and in row `23 - row` of the left
/// edge.
pub open spec fn side_star(phase: int, row: int) -> bool {
    (phase + 1 + row) % 5 == 1
}

/// The star cells, as (text column from 1, text row from 1), of the top and
/// bottom rows over the first `n` columns, column by column.
pub open spec fn edge_row_cells(phase: int, n: int) -> Seq<(usize, i32)>
    decreases n,
{
    if n <= 0 {
        Seq::empty()
    } else {
        edge_row_cells(phase, n - 1) + (if top_star(phase, n - 1) {
            seq![(n as usize, 1i32)]
        } else {
            Seq::empty()
        }) + (if bottom_star(phase, n - 1) {
            seq![(n as usize, 22i32)]
        } else {
            Seq::empty()
        })
    }
}

/// The star cells of the right and left edges for the rows from 2 to `last`,
/// row by row.
pub open spec fn edge_column_cells(phase: int, last: int) -> Seq<(usize, i32)>
    decreases last,
{
    if last < 2 {
        Seq::empty()
    } else {
        edge_column_cells(phase, last - 1) + (if side_star(phase, last) {
            seq![(80usize, last as i32), (1usize, (23 - last) as i32)]
        } else {
            Seq::empty()
        })
    }
}

/// All star cells of the border in phase `phase`, in drawing order: the top
/// and bottom rows across the 80 columns, then the two edges down rows 2 to
/// 21.
pub open spec fn border_stars_spec(phase: int) -> Seq<(usize, i32)> {
    edge_row_cells(phase, 80) + edge_column_cells(phase, 21)
}

/// The cells of the border that show a star in phase `phase`.
pub fn border_stars(phase: usize) -> (r: Vec<(usize, i32)>)
    requires
        phase <= 9,
    ensures
        r@ == border_stars_spec(phase as int),
{
    let mut cells: Vec<(usize, i32)> = Vec::new();
    let mut column: usize = 0;
    while column < 80
        invariant
            column <= 80,
            phase <= 9,
            cells@ == edge_row_cells(phase as int, column as int),
        decreases 80 - column,
    {
        let top = (column + phase) % BORDER_SPARKLE_PERIOD == 0;
        let bottom = (column + BORDER_SPARKLE_PERIOD - 1 + BORDER_SPARKLE_PERIOD - phase) % BORDER_SPARKLE_PERIOD == 0;
        if top {
            cells.push((column + 1, 1));
        }
        if bottom {
            cells.push((column + 1, 22));
        }
        proof {
            assert(cells@ =~= edge_row_cells(phase as int, column + 1));
        }
        column = column + 1;
    }
    let ghost rows = cells@;
    let phase_step = phase as i32 + 1;
    let mut row: i32 = 2;
    while row <= 21
        invariant
            2 <= row <= 22,
            phase <= 9,
            phase_step == phase + 1,
            rows == edge_row_cells(phase as int, 80),
            cells@ == rows + edge_column_cells(phase as int, row - 1),
        decreases 22 - row,
    {
        if (phase_step + row) % 5 == 1 {
            cells.push((80, row));
            cells.push((1, 23 - row));
        }
        proof {
            assert(cells@ =~= rows + edge_column_cells(phase as int, row as int));
        }
        row = row + 1;
    }
    cells
}

proof fn lemma_edge_rows_period(phase: int, n: int)
    ensures
        edge_row_cells(phase, n) == edge_row_cells(phase + 5, n),
    decreases n,
{
    if n > 0 {
        lemma_edge_rows_period(phase, n - 1);
        assert((n - 1 + phase) % 5 == (n - 1 + phase + 5) % 5);
        assert((n - 1 + 9 - phase) % 5 == (n - 1 + 9 - (phase + 5)) % 5);
    }
}

proof fn lemma_edge_columns_period(phase: int, last: int)
    ensures
        edge_column_cells(phase, last) == edge_column_cells(phase + 5, last),
    decreases last,
{
    if last >= 2 {
        lemma_edge_columns_period(phase, last - 1);
        assert((phase + 1 + last) % 5 == (phase + 5 + 1 + last) % 5);
    }
}

/// The border animation repeats every five phases.
pub proof fn lemma_border_period(phase: int)
    ensures
        border_stars_spec(phase) == border_stars_spec(phase + BORDER_SPARKLE_PERIOD),
{
    lemma_edge_rows_period(phase, 80);
    lemma_edge_columns_period(phase, 21);
}


proof fn lemma_one_cell(a: (usize, i32), cell: (usize, i32))
    ensures
        seq![a].contains(cell) <==> cell == a,
{
    if cell == a {
        assert(seq![a][0] == cell);
    }
}

proof fn lemma_two_cells(a: (usize, i32), b: (usize, i32), cell: (usize, i32))
    ensures
        seq![a, b].contains(cell) <==> cell == a || cell == b,
{
    if cell == a {
        assert(seq![a, b][0] == cell);
    }
    if cell == b {
        assert(seq![a, b][1] == cell);
    }
}

proof fn lemma_edge_row_cells_contain(phase: int, n: int, cell: (usize, i32))
    requires
        0 <= n <= 80,
    ensures
        edge_row_cells(phase, n).contains(cell) <==> (1 <= cell.0 <= n && ((cell.1 == 1 && top_star(phase, cell.0 - 1))
            || (cell.1 == 22 && bottom_star(phase, cell.0 - 1)))),
    decreases n,
{
    if n > 0 {
        lemma_edge_row_cells_contain(phase, n - 1, cell);
        let a = edge_row_cells(phase, n - 1);
        let b: Seq<(usize, i32)> = if top_star(phase, n - 1) {
            seq![(n as usize, 1i32)]
        } else {
            Seq::empty()
        };
        let c: Seq<(usize, i32)> = if bottom_star(phase, n - 1) {
            seq![(n as usize, 22i32)]
        } else {
            Seq::empty()
        };
        assert(edge_row_cells(phase, n) == a + b + c);
        lemma_seq_concat_contains_all_elements(a + b, c, cell);
        lemma_seq_concat_contains_all_elements(a, b, cell);
        lemma_one_cell((n as usize, 1i32), cell);
        lemma_one_cell((n as usize, 22i32), cell);
    }
}

proof fn lemma_edge_column_cells_contain(phase: int, last: int, cell: (usize, i32))
    requires
        1 <= last <= 21,
    ensures
        edge_column_cells(phase, last).contains(cell) <==> ((cell.0 == 80 && 2 <= cell.1 <= last && side_star(
            phase,
            cell.1 as int,
        )) || (cell.0 == 1 && 2 <= 23 - cell.1 <= last && side_star(phase, 23 - cell.1))),
    decreases last,
{
    if last >= 2 {
        lemma_edge_column_cells_contain(phase, last - 1, cell);
        let a = edge_column_cells(phase, last - 1);
        let b: Seq<(usize, i32)> = if side_star(phase, last) {
            seq![(80usize, last as i32), (1usize, (23 - last) as i32)]
        } else {
            Seq::empty()
        };
        assert(edge_column_cells(phase, last) == a + b);
        lemma_seq_concat_contains_all_elements(a, b, cell);
        lemma_two_cells((80usize, last as i32), (1usize, (23 - last) as i32), cell);
    }
}

/// Where the border shows its stars in phase `phase`, on the text grid of
/// columns 1 to 80 and rows 1 to 22: in column `c` of the top row exactly
/// when `(c - 1 + phase) % 5 == 0`; in column `c` of the bottom row exactly
/// when `(c + 8 - phase) % 5 == 0`; in row `r` (2 to 21) of the right edge
/// exactly when `(phase + 1 + r) % 5 == 1`; and in row `r` of the left edge
/// exactly when `(phase + 24 - r) % 5 == 1`. No other cell shows a star.
pub proof fn lemma_border_cells(phase: int)
    ensures
        forall|c: int|
            1 <= c <= 80 ==> (#[trigger] border_stars_spec(phase).contains((c as usize, 1i32)) <==> (c - 1 + phase) % 5
                == 0),
        forall|c: int|
            1 <= c <= 80 ==> (#[trigger] border_stars_spec(phase).contains((c as usize, 22i32)) <==> (c + 8 - phase) % 5
                == 0),
        forall|r: int|
            2 <= r <= 21 ==> (#[trigger] border_stars_spec(phase).contains((80usize, r as i32)) <==> (phase + 1 + r) % 5
                == 1),
        forall|r: int|
            2 <= r <= 21 ==> (#[trigger] border_stars_spec(phase).contains((1usize, r as i32)) <==> (phase + 24 - r) % 5
                == 1),
        forall|cell: (usize, i32)|
            #[trigger] border_stars_spec(phase).contains(cell) ==> (cell.1 == 1 || cell.1 == 22 || cell.0 == 1
                || cell.0 == 80) && 1 <= cell.0 <= 80 && 1 <= cell.1 <= 22,
{
    assert forall|cell: (usize, i32)|
        #[trigger] border_stars_spec(phase).contains(cell) <==> ((1 <= cell.0 <= 80 && ((cell.1 == 1 && top_star(
            phase,
            cell.0 - 1,
        )) || (cell.1 == 22 && bottom_star(phase, cell.0 - 1)))) || (cell.0 == 80 && 2 <= cell.1 <= 21 && side_star(
            phase,
            cell.1 as int,
        )) || (cell.0 == 1 && 2 <= 23 - cell.1 <= 21 && side_star(phase, 23 - cell.1))) by {
        lemma_edge_row_cells_contain(phase, 80, cell);
        lemma_edge_column_cells_contain(phase, 21, cell);
        lemma_seq_concat_contains_all_elements(edge_row_cells(phase, 80), edge_column_cells(phase, 21), cell);
    }
}

/// From one phase to the next the stars circle the screen: the top row moves
/// one column left, the right edge one row up, the bottom row one column
/// right and the left edge one row down.
pub proof fn lemma_border_stars_circle(phase: int)
    ensures
        forall|c: int|
            1 <= c < 80 ==> (#[trigger] border_stars_spec(phase + 1).contains((c as usize, 1i32))
                <==> border_stars_spec(phase).contains(((c + 1) as usize, 1i32))),
        forall|r: int|
            2 <= r < 21 ==> (#[trigger] border_stars_spec(phase + 1).contains((80usize, r as i32))
                <==> border_stars_spec(phase).contains((80usize, (r + 1) as i32))),
        forall|c: int|
            1 <= c < 80 ==> (#[trigger] border_stars_spec(phase + 1).contains(((c + 1) as usize, 22i32))
                <==> border_stars_spec(phase).contains((c as usize, 22i32))),
        forall|r: int|
            2 <= r < 21 ==> (#[trigger] border_stars_spec(phase + 1).contains((1usize, (r + 1) as i32))
                <==> border_stars_spec(phase).contains((1usize, r as i32))),
{
    lemma_border_cells(phase);
    lemma_border_cells(phase + 1);
    assert forall|c: int| 1 <= c < 80 implies (#[trigger] border_stars_spec(phase + 1).contains((c as usize, 1i32))
        <==> border_stars_spec(phase).contains(((c + 1) as usize, 1i32))) by {
        assert(border_stars_spec(phase + 1).contains((c as usize, 1i32)) <==> (c - 1 + phase + 1) % 5 == 0);
        assert(border_stars_spec(phase).contains(((c + 1) as usize, 1i32)) <==> (c + 1 - 1 + phase) % 5 == 0);
    }
    assert forall|r: int| 2 <= r < 21 implies (#[trigger] border_stars_spec(phase + 1).contains((80usize, r as i32))
        <==> border_stars_spec(phase).contains((80usize, (r + 1) as i32))) by {
        assert(border_stars_spec(phase + 1).contains((80usize, r as i32)) <==> (phase + 1 + 1 + r) % 5 == 1);
        assert(border_stars_spec(phase).contains((80usize, (r + 1) as i32)) <==> (phase + 1 + r + 1) % 5 == 1);
    }
    assert forall|c: int| 1 <= c < 80 implies (#[trigger] border_stars_spec(phase + 1).contains(((c + 1) as usize, 22i32))
        <==> border_stars_spec(phase).contains((c as usize, 22i32))) by {
        assert(border_stars_spec(phase + 1).contains(((c + 1) as usize, 22i32)) <==> (c + 1 + 8 - (phase + 1)) % 5 == 0);
        assert(border_stars_spec(phase).contains((c as usize, 22i32)) <==> (c + 8 - phase) % 5 == 0);
    }
    assert forall|r: int| 2 <= r < 21 implies (#[trigger] border_stars_spec(phase + 1).contains((1usize, (r + 1) as i32))
        <==> border_stars_spec(phase).contains((1usize, r as i32))) by {
        assert(border_stars_spec(phase + 1).contains((1usize, (r + 1) as i32)) <==> (phase + 1 + 24 - (r + 1)) % 5 == 1);
        assert(border_stars_spec(phase).contains((1usize, r as i32)) <==> (phase + 24 - r) % 5 == 1);
    }
}

}
