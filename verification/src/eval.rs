//! Material evaluation: positive where white is ahead, negative where
//! black is.

use vstd::prelude::*;
use crate::board::{
    cell_at, column_coords, coords_upto, empty_cells, grid_coords, has_shape, in_range,
    lemma_row_counts, lemma_setup_shape, lemma_shapes, setup_cells, setup_piece,
    starting_column, startpos_cells,
    Board, Cells, Coord, Variant,
};
use crate::piece::Piece;

verus! {

/// The value of what stands on the square `c`: that of the piece, 0 for an
/// empty square.
pub open spec fn value_at(cells: Cells, c: Coord) -> int {
    match cell_at(cells, c.col as int, c.row as int) {
        Some(Some(piece)) => piece.spec_value(),
        _ => 0,
    }
}

/// The sum of the values on the first `n` of the squares `coords`.
pub open spec fn material_over(cells: Cells, coords: Seq<Coord>, n: int) -> int
    decreases n,
{
    if n <= 0 {
        0
    } else {
        material_over(cells, coords, n - 1) + value_at(cells, coords[n - 1])
    }
}

/// The sum of the values of all pieces on the board.
pub open spec fn material(cells: Cells) -> int {
    material_over(cells, grid_coords(cells), grid_coords(cells).len() as int)
}

/// The material balance of the board.
pub fn evaluate(board: &Board) -> (r: i32)
    requires
        board.wf(),
    ensures
        r == material(board@.cells),
{
    let coords: Vec<Coord> = board.all_coords();
    let mut score: i32 = 0;
    let mut i: usize = 0;
    while i < coords.len()
        invariant
            i <= coords.len(),
            coords.len() == 91,
            coords@ == grid_coords(board@.cells),
            score == material_over(board@.cells, coords@, i as int),
            -9 * i <= score <= 9 * i,
        decreases coords.len() - i,
    {
        match board.at_coord(coords[i]) {
            Some(Some(piece)) => {
                score += piece.value();
            },
            _ => {},
        }
        i += 1;
    }
    score
}

/// Squares without pieces sum to 0.
pub proof fn lemma_no_pieces(cells: Cells, coords: Seq<Coord>, n: int)
    requires
        forall|c: int, r: int| in_range(cells, c, r) ==> (#[trigger] cells[c][r]) is None,
    ensures
        material_over(cells, coords, n) == 0,
    decreases n,
{
    if n > 0 {
        lemma_no_pieces(cells, coords, n - 1);
    }
}

/// The empty board of every variant has material 0.
pub proof fn lemma_empty_material(v: Variant)
    ensures
        material(empty_cells(v)) == 0,
{
    let cells = empty_cells(v);
    lemma_no_pieces(cells, grid_coords(cells), grid_coords(cells).len() as int);
}

/// The value of what a square holds.
pub open spec fn cell_value(cell: Option<Piece>) -> int {
    match cell {
        Some(piece) => piece.spec_value(),
        None => 0,
    }
}

/// The sum of the values on the first `n` squares of a column.
pub open spec fn column_material(column: Seq<Option<Piece>>, n: int) -> int
    decreases n,
{
    if n <= 0 {
        0
    } else {
        column_material(column, n - 1) + cell_value(column[n - 1])
    }
}

/// The sum of the values on the first `k` columns.
pub open spec fn columns_material(cells: Cells, k: int) -> int
    decreases k,
{
    if k <= 0 {
        0
    } else {
        columns_material(cells, k - 1) + column_material(cells[k - 1], cells[k - 1].len() as int)
    }
}

/// The sum of the values that the first `n` characters of a column of a
/// starting position put on the board.
pub open spec fn text_material(column: Seq<char>, n: int) -> int
    decreases n,
{
    if n <= 0 {
        0
    } else {
        text_material(column, n - 1) + letter_value(column[n - 1])
    }
}

/// The value that a character of a starting position puts on the board.
pub open spec fn letter_value(ch: char) -> int {
    if ch == 'P' {
        1
    } else if ch == 'p' {
        -1
    } else if ch == 'N' || ch == 'B' {
        3
    } else if ch == 'n' || ch == 'b' {
        -3
    } else if ch == 'R' {
        5
    } else if ch == 'r' {
        -5
    } else if ch == 'Q' {
        9
    } else if ch == 'q' {
        -9
    } else {
        0
    }
}

/// The value of a character is that of the piece it stands for.
pub proof fn lemma_letter_value(ch: char)
    ensures
        letter_value(ch) == cell_value(setup_piece(ch)),
{
}

/// The material of a variant's starting position in column `col`.
pub open spec fn column_balance(v: Variant, col: int) -> int {
    if v == Variant::Hexofen && col == 4 {
        -6
    } else if v == Variant::Hexofen && col == 6 {
        6
    } else {
        0
    }
}

/// Lists that agree on their first `k` squares sum to the same over them.
pub proof fn lemma_material_prefix(cells: Cells, x: Seq<Coord>, y: Seq<Coord>, k: int)
    requires
        0 <= k <= x.len(),
        k <= y.len(),
        forall|i: int| 0 <= i < k ==> x[i] == y[i],
    ensures
        material_over(cells, x, k) == material_over(cells, y, k),
    decreases k,
{
    if k > 0 {
        lemma_material_prefix(cells, x, y, k - 1);
    }
}

/// The sum over one list of squares followed by another is the sum of
/// their sums.
pub proof fn lemma_material_concat(cells: Cells, a: Seq<Coord>, b: Seq<Coord>, n: int)
    requires
        0 <= n <= b.len(),
    ensures
        material_over(cells, a + b, a.len() + n) == material_over(cells, a, a.len() as int)
            + material_over(cells, b, n),
    decreases n,
{
    if n == 0 {
        lemma_material_prefix(cells, a + b, a, a.len() as int);
    } else {
        lemma_material_concat(cells, a, b, n - 1);
        assert((a + b)[a.len() + n - 1] == b[n - 1]);
    }
}

/// Over the squares of one column, the sum is that of the column.
pub proof fn lemma_column_material(cells: Cells, v: Variant, c: int, n: int)
    requires
        has_shape(cells, v),
        0 <= c < 11,
        0 <= n <= cells[c].len(),
    ensures
        material_over(cells, column_coords(c, cells[c].len() as int), n) == column_material(
            cells[c],
            n,
        ),
    decreases n,
{
    lemma_row_counts(v, c);
    if n > 0 {
        lemma_column_material(cells, v, c, n - 1);
        let coord = column_coords(c, cells[c].len() as int)[n - 1];
        assert(coord.col == c && coord.row == n - 1);
        assert(in_range(cells, c, n - 1));
    }
}

/// The material of a board is the sum over its columns.
pub proof fn lemma_material_by_columns(cells: Cells, v: Variant, k: int)
    requires
        has_shape(cells, v),
        0 <= k <= 11,
    ensures
        material_over(cells, coords_upto(cells, k), coords_upto(cells, k).len() as int)
            == columns_material(cells, k),
    decreases k,
{
    if k > 0 {
        lemma_material_by_columns(cells, v, k - 1);
        let a = coords_upto(cells, k - 1);
        let b = column_coords(k - 1, cells[k - 1].len() as int);
        lemma_material_concat(cells, a, b, b.len() as int);
        lemma_column_material(cells, v, k - 1, cells[k - 1].len() as int);
    }
}

/// A column of squares sums to what its characters put on the board.
pub proof fn lemma_text_material(column: Seq<char>, n: int)
    requires
        0 <= n <= column.len(),
    ensures
        column_material(setup_cells(column), n) == text_material(column, n),
    decreases n,
{
    if n > 0 {
        lemma_text_material(column, n - 1);
        lemma_letter_value(column[n - 1]);
    }
}

/// The material of each column of the starting position of Glinski.
pub proof fn lemma_glinski_columns(col: int)
    requires
        0 <= col < 11,
    ensures
        text_material(
            starting_column(Variant::Glinski, col),
            starting_column(Variant::Glinski, col).len() as int,
        ) == column_balance(Variant::Glinski, col),
{
    lemma_row_counts(Variant::Glinski, col);
    lemma_setup_shape(Variant::Glinski);
    assert(text_material("      "@, 6) == 0) by {
        reveal_strlit("      ");
        reveal_with_fuel(text_material, 12);
    }
    assert(text_material("P     p"@, 7) == 0) by {
        reveal_strlit("P     p");
        reveal_with_fuel(text_material, 12);
    }
    assert(text_material("RP    pr"@, 8) == 0) by {
        reveal_strlit("RP    pr");
        reveal_with_fuel(text_material, 12);
    }
    assert(text_material("N P   p n"@, 9) == 0) by {
        reveal_strlit("N P   p n");
        reveal_with_fuel(text_material, 12);
    }
    assert(text_material("Q  P  p  q"@, 10) == 0) by {
        reveal_strlit("Q  P  p  q");
        reveal_with_fuel(text_material, 12);
    }
    assert(text_material("BBB P p bbb"@, 11) == 0) by {
        reveal_strlit("BBB P p bbb");
        reveal_with_fuel(text_material, 12);
    }
    assert(text_material("K  P  p  k"@, 10) == 0) by {
        reveal_strlit("K  P  p  k");
        reveal_with_fuel(text_material, 12);
    }
}

/// The material of each column of the starting position of McCooey.
pub proof fn lemma_mccooey_columns(col: int)
    requires
        0 <= col < 11,
    ensures
        text_material(
            starting_column(Variant::McCooey, col),
            starting_column(Variant::McCooey, col).len() as int,
        ) == column_balance(Variant::McCooey, col),
{
    lemma_row_counts(Variant::McCooey, col);
    lemma_setup_shape(Variant::McCooey);
    assert(text_material("      "@, 6) == 0) by {
        reveal_strlit("      ");
        reveal_with_fuel(text_material, 12);
    }
    assert(text_material("       "@, 7) == 0) by {
        reveal_strlit("       ");
        reveal_with_fuel(text_material, 12);
    }
    assert(text_material("P      p"@, 8) == 0) by {
        reveal_strlit("P      p");
        reveal_with_fuel(text_material, 12);
    }
    assert(text_material("RP     pr"@, 9) == 0) by {
        reveal_strlit("RP     pr");
        reveal_with_fuel(text_material, 12);
    }
    assert(text_material("QNP    pnq"@, 10) == 0) by {
        reveal_strlit("QNP    pnq");
        reveal_with_fuel(text_material, 12);
    }
    assert(text_material("BBBP   pbbb"@, 11) == 0) by {
        reveal_strlit("BBBP   pbbb");
        reveal_with_fuel(text_material, 12);
    }
    assert(text_material("KNP    pnk"@, 10) == 0) by {
        reveal_strlit("KNP    pnk");
        reveal_with_fuel(text_material, 12);
    }
}

/// The material of each column of the starting position of Hexofen.
pub proof fn lemma_hexofen_columns(col: int)
    requires
        0 <= col < 11,
    ensures
        text_material(
            starting_column(Variant::Hexofen, col),
            starting_column(Variant::Hexofen, col).len() as int,
        ) == column_balance(Variant::Hexofen, col),
{
    lemma_row_counts(Variant::Hexofen, col);
    lemma_setup_shape(Variant::Hexofen);
    assert(text_material("P    p"@, 6) == 0) by {
        reveal_strlit("P    p");
        reveal_with_fuel(text_material, 12);
    }
    assert(text_material("P     p"@, 7) == 0) by {
        reveal_strlit("P     p");
        reveal_with_fuel(text_material, 12);
    }
    assert(text_material("NP    pb"@, 8) == 0) by {
        reveal_strlit("NP    pb");
        reveal_with_fuel(text_material, 12);
    }
    assert(text_material("RP     pr"@, 9) == 0) by {
        reveal_strlit("RP     pr");
        reveal_with_fuel(text_material, 12);
    }
    assert(text_material("BNP    pnq"@, 10) == -6) by {
        reveal_strlit("BNP    pnq");
        reveal_with_fuel(text_material, 12);
    }
    assert(text_material("KBP     pbk"@, 11) == 0) by {
        reveal_strlit("KBP     pbk");
        reveal_with_fuel(text_material, 12);
    }
    assert(text_material("QNP    pnb"@, 10) == 6) by {
        reveal_strlit("QNP    pnb");
        reveal_with_fuel(text_material, 12);
    }
    assert(text_material("BP    pn"@, 8) == 0) by {
        reveal_strlit("BP    pn");
        reveal_with_fuel(text_material, 12);
    }
}

/// The material of each column of each starting position.
pub proof fn lemma_starting_columns(v: Variant, col: int)
    requires
        0 <= col < 11,
    ensures
        text_material(starting_column(v, col), starting_column(v, col).len() as int)
            == column_balance(v, col),
{
    match v {
        Variant::Glinski => lemma_glinski_columns(col),
        Variant::McCooey => lemma_mccooey_columns(col),
        Variant::Hexofen => lemma_hexofen_columns(col),
    }
}

/// The starting position of every variant is balanced: its material is 0.
pub proof fn lemma_startpos_material(v: Variant)
    ensures
        material(startpos_cells(v)) == 0,
{
    let cells = startpos_cells(v);
    lemma_shapes(v);
    lemma_material_by_columns(cells, v, 11);
    assert forall|c: int| 0 <= c < 11 implies column_material(
        #[trigger] cells[c],
        cells[c].len() as int,
    ) == column_balance(v, c) by {
        lemma_text_material(starting_column(v, c), starting_column(v, c).len() as int);
        lemma_starting_columns(v, c);
    }
    reveal_with_fuel(columns_material, 12);
    assert(columns_material(cells, 11) == 0);
}

} // verus!
