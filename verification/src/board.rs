//! The board: variants, coordinates and their notation, the grid of squares.

use vstd::prelude::*;
use vstd::string::*;
use crate::piece::Piece;
use crate::text::{
    ascii_uppercase, back_space, decimal, decimal_chars, digits, is_digit,
    is_white_space, lemma_digits_read_back, lower_form, parse_positive, positive_number,
    skip_space, slice_of, spells, texts, to_chars, to_lower, to_text, to_upper, trim, trimmed,
    upper_form,
};

verus! {

/// The three kinds of hexagonal chess.
#[derive(Debug, Clone, Copy, PartialEq, Eq, Structural)]
pub enum Variant {
    Glinski,
    McCooey,
    Hexofen,
}

impl Variant {
    /// The variant that a lower-case name or number stands for.
    pub open spec fn of_lowered(t: Seq<char>) -> Option<Variant> {
        if t == "glinski"@ || t == "0"@ {
            Some(Variant::Glinski)
        } else if t == "mccooey"@ || t == "1"@ {
            Some(Variant::McCooey)
        } else if t == "hexofen"@ || t == "2"@ {
            Some(Variant::Hexofen)
        } else {
            None
        }
    }

    /// The variant that a name stands for, in any case of its letters.
    pub open spec fn spec_from_str(s: Seq<char>) -> Option<Variant> {
        Self::of_lowered(lower_form(s))
    }

    /// Reads a variant from the characters of a lower-case name or number.
    pub fn from_lowered(t: &Vec<char>) -> (r: Option<Variant>)
        ensures
            r == Self::of_lowered(t@),
    {
        if spells(t, "glinski") || spells(t, "0") {
            Some(Variant::Glinski)
        } else if spells(t, "mccooey") || spells(t, "1") {
            Some(Variant::McCooey)
        } else if spells(t, "hexofen") || spells(t, "2") {
            Some(Variant::Hexofen)
        } else {
            None
        }
    }

    /// Reads a variant from its name or number; the case of letters does
    /// not count.
    pub fn from_str(s: &str) -> (r: Option<Variant>)
        ensures
            r == Self::spec_from_str(s@),
    {
        let low: Vec<char> = to_lower(s);
        Self::from_lowered(&low)
    }
}

/// A square: its column, from 0 to 10, and its storage row.
#[derive(Debug, Clone, Copy, PartialEq, Eq, Hash, Structural)]
pub struct Coord {
    pub col: i32,
    pub row: i32,
}

impl Coord {
    /// The name of a square: the letter of its column, then the number of
    /// its row, counted from 1.
    pub open spec fn spec_notation(self) -> Seq<char> {
        seq![(65 + self.col) as char] + decimal(self.row + 1)
    }

    /// The square that a trimmed, upper-case name stands for: an ASCII
    /// character for the column, `A` and all before it being column 0, then
    /// the row as a number from 1.
    pub open spec fn of_normalized(t: Seq<char>) -> Option<Coord> {
        if t.len() < 1 || (t[0] as u32) >= 128 {
            None
        } else {
            match positive_number(t.subrange(1, t.len() as int)) {
                Some(n) => Some(
                    Coord {
                        col: if (t[0] as u32) >= 65 {
                            ((t[0] as u32) - 65) as i32
                        } else {
                            0i32
                        },
                        row: (n - 1) as i32,
                    },
                ),
                None => None,
            }
        }
    }

    /// The square that a name stands for: white space around it and the
    /// case of its letters do not count.
    pub open spec fn spec_from_notation(s: Seq<char>) -> Option<Coord> {
        Self::of_normalized(upper_form(trimmed(s)))
    }

    /// The square in column `col` and storage row `row`.
    pub fn new(col: i32, row: i32) -> (r: Coord)
        ensures
            r == (Coord { col, row }),
    {
        Coord { col, row }
    }

    /// The name of the square.
    pub fn to_notation(&self) -> (r: String)
        requires
            0 <= self.col <= 10,
            self.row < i32::MAX,
        ensures
            r@ == self.spec_notation(),
    {
        let letter: char = (65u8 + (self.col as u8)) as char;
        let mut name: Vec<char> = Vec::new();
        name.push(letter);
        let mut number: Vec<char> = decimal_chars(self.row + 1);
        name.append(&mut number);
        assert(name@ =~= self.spec_notation());
        to_text(&name)
    }

    /// Reads a square from the characters of a trimmed, upper-case name.
    pub fn from_normalized(t: &Vec<char>) -> (r: Option<Coord>)
        ensures
            r == Self::of_normalized(t@),
    {
        if t.len() < 1 {
            return None;
        }
        let first: u32 = t[0] as u32;
        if first >= 128 {
            return None;
        }
        let rest: Vec<char> = slice_of(t, 1, t.len());
        match parse_positive(&rest) {
            Some(n) => {
                let col: i32 = if first >= 65 { (first - 65) as i32 } else { 0 };
                Some(Coord { col, row: n - 1 })
            },
            None => None,
        }
    }

    /// Reads a square from its name.
    pub fn from_notation(s: &str) -> (r: Option<Coord>)
        ensures
            r == Self::spec_from_notation(s@),
    {
        let chars: Vec<char> = to_chars(s);
        let inner: String = to_text(&trim(&chars));
        let upper: Vec<char> = to_upper(inner.as_str());
        Self::from_normalized(&upper)
    }

    /// A square's name reads back as the square.
    pub proof fn lemma_notation_round_trip(self)
        requires
            0 <= self.col <= 10,
            0 <= self.row < i32::MAX,
        ensures
            Self::spec_from_notation(self.spec_notation()) == Some(self),
    {
        let name = self.spec_notation();
        let number = digits((self.row + 1) as nat);
        lemma_digits_read_back((self.row + 1) as nat);
        assert(name =~= seq![(65 + self.col) as char] + number);
        assert(is_digit(number[number.len() - 1]));
        assert(name[name.len() - 1] == number[number.len() - 1]);
        assert(!is_white_space(name[0]));
        assert(!is_white_space(name[name.len() - 1]));
        assert(skip_space(name, 0) == 0);
        assert(back_space(name, 0, name.len() as int) == name.len());
        assert(trimmed(name) =~= name);
        assert forall|i: int| 0 <= i < name.len() implies (#[trigger] name[i] as u32) < 128
            && !('a' <= name[i] && name[i] <= 'z') by {
            if i > 0 {
                assert(is_digit(number[i - 1]));
            }
        }
        assert(ascii_uppercase(name) =~= name);
        assert(name.subrange(1, name.len() as int) =~= number);
        assert(is_digit(number[0]));
    }
}

/// The row to reckon directions with, from a column and a storage row.
pub open spec fn spec_logical_row(col: int, storage_row: int) -> int {
    if col <= 5 {
        storage_row
    } else {
        storage_row + (col - 5)
    }
}

/// The storage row, from a column and a logical row.
pub open spec fn spec_storage_row(col: int, logical_row: int) -> int {
    if col <= 5 {
        logical_row
    } else {
        logical_row - (col - 5)
    }
}

/// The logical row of a square, given its column and storage row.
pub fn logical_row(col: i32, storage_row: i32) -> (r: i32)
    requires
        i32::MIN <= spec_logical_row(col as int, storage_row as int) <= i32::MAX,
    ensures
        r == spec_logical_row(col as int, storage_row as int),
{
    if col <= 5 {
        storage_row
    } else {
        storage_row + (col - 5)
    }
}

/// The storage row of a square, given its column and logical row.
pub fn storage_row(col: i32, logical_row: i32) -> (r: i32)
    requires
        i32::MIN <= spec_storage_row(col as int, logical_row as int) <= i32::MAX,
    ensures
        r == spec_storage_row(col as int, logical_row as int),
{
    if col <= 5 {
        logical_row
    } else {
        logical_row - (col - 5)
    }
}

/// In each column, logical and storage rows are inverse to each other.
pub proof fn lemma_rows_inverse(col: int, row: int)
    ensures
        spec_storage_row(col, spec_logical_row(col, row)) == row,
        spec_logical_row(col, spec_storage_row(col, row)) == row,
{
}

/// The number of rows in each of the eleven columns.
pub open spec fn row_counts(v: Variant) -> Seq<int> {
    match v {
        Variant::Glinski => seq![6, 7, 8, 9, 10, 11, 10, 9, 8, 7, 6],
        Variant::McCooey => seq![6, 7, 8, 9, 10, 11, 10, 9, 8, 7, 6],
        Variant::Hexofen => seq![6, 7, 8, 9, 10, 11, 10, 9, 8, 7, 6],
    }
}

/// Column `col` of a variant's starting position, from row 0 up: a space
/// for an empty square, a letter for a piece.
pub open spec fn starting_column(v: Variant, col: int) -> Seq<char> {
    match v {
        Variant::Glinski => {
            if col == 0 {
                "      "@
            } else if col == 1 {
                "P     p"@
            } else if col == 2 {
                "RP    pr"@
            } else if col == 3 {
                "N P   p n"@
            } else if col == 4 {
                "Q  P  p  q"@
            } else if col == 5 {
                "BBB P p bbb"@
            } else if col == 6 {
                "K  P  p  k"@
            } else if col == 7 {
                "N P   p n"@
            } else if col == 8 {
                "RP    pr"@
            } else if col == 9 {
                "P     p"@
            } else {
                "      "@
            }
        },
        Variant::McCooey => {
            if col == 0 {
                "      "@
            } else if col == 1 {
                "       "@
            } else if col == 2 {
                "P      p"@
            } else if col == 3 {
                "RP     pr"@
            } else if col == 4 {
                "QNP    pnq"@
            } else if col == 5 {
                "BBBP   pbbb"@
            } else if col == 6 {
                "KNP    pnk"@
            } else if col == 7 {
                "RP     pr"@
            } else if col == 8 {
                "P      p"@
            } else if col == 9 {
                "       "@
            } else {
                "      "@
            }
        },
        Variant::Hexofen => {
            if col == 0 {
                "P    p"@
            } else if col == 1 {
                "P     p"@
            } else if col == 2 {
                "NP    pb"@
            } else if col == 3 {
                "RP     pr"@
            } else if col == 4 {
                "BNP    pnq"@
            } else if col == 5 {
                "KBP     pbk"@
            } else if col == 6 {
                "QNP    pnb"@
            } else if col == 7 {
                "RP     pr"@
            } else if col == 8 {
                "BP    pn"@
            } else if col == 9 {
                "P     p"@
            } else {
                "P    p"@
            }
        },
    }
}

/// The starting position of a variant, column by column.
pub open spec fn starting_setup(v: Variant) -> Seq<Seq<char>> {
    Seq::new(11, |c: int| starting_column(v, c))
}

/// The board is a hexagon: from six rows at its edges each column is one
/// longer up to the middle one.
pub proof fn lemma_row_counts(v: Variant, col: int)
    requires
        0 <= col < 11,
    ensures
        row_counts(v).len() == 11,
        row_counts(v)[col] == if col <= 5 { 6 + col } else { 16 - col },
{
}

/// Each column of a starting position has as many squares as the board.
pub proof fn lemma_setup_shape(v: Variant)
    ensures
        forall|c: int| 0 <= c < 11 ==> (#[trigger] starting_column(v, c)).len() == row_counts(v)[c],
{
    reveal_strlit("      ");
    reveal_strlit("       ");
    reveal_strlit("BBB P p bbb");
    reveal_strlit("BBBP   pbbb");
    reveal_strlit("BNP    pnq");
    reveal_strlit("BP    pn");
    reveal_strlit("K  P  p  k");
    reveal_strlit("KBP     pbk");
    reveal_strlit("KNP    pnk");
    reveal_strlit("N P   p n");
    reveal_strlit("NP    pb");
    reveal_strlit("P      p");
    reveal_strlit("P     p");
    reveal_strlit("P    p");
    reveal_strlit("Q  P  p  q");
    reveal_strlit("QNP    pnb");
    reveal_strlit("QNP    pnq");
    reveal_strlit("RP     pr");
    reveal_strlit("RP    pr");
}

/// One column of a starting position; an index past the last column
/// gives the last.
fn setup_column(v: Variant, col: usize) -> (r: &'static str)
    ensures
        r@ == starting_column(v, col as int),
{
    match v {
        Variant::Glinski => {
            if col == 0 {
                "      "
            } else if col == 1 {
                "P     p"
            } else if col == 2 {
                "RP    pr"
            } else if col == 3 {
                "N P   p n"
            } else if col == 4 {
                "Q  P  p  q"
            } else if col == 5 {
                "BBB P p bbb"
            } else if col == 6 {
                "K  P  p  k"
            } else if col == 7 {
                "N P   p n"
            } else if col == 8 {
                "RP    pr"
            } else if col == 9 {
                "P     p"
            } else {
                "      "
            }
        },
        Variant::McCooey => {
            if col == 0 {
                "      "
            } else if col == 1 {
                "       "
            } else if col == 2 {
                "P      p"
            } else if col == 3 {
                "RP     pr"
            } else if col == 4 {
                "QNP    pnq"
            } else if col == 5 {
                "BBBP   pbbb"
            } else if col == 6 {
                "KNP    pnk"
            } else if col == 7 {
                "RP     pr"
            } else if col == 8 {
                "P      p"
            } else if col == 9 {
                "       "
            } else {
                "      "
            }
        },
        Variant::Hexofen => {
            if col == 0 {
                "P    p"
            } else if col == 1 {
                "P     p"
            } else if col == 2 {
                "NP    pb"
            } else if col == 3 {
                "RP     pr"
            } else if col == 4 {
                "BNP    pnq"
            } else if col == 5 {
                "KBP     pbk"
            } else if col == 6 {
                "QNP    pnb"
            } else if col == 7 {
                "RP     pr"
            } else if col == 8 {
                "BP    pn"
            } else if col == 9 {
                "P     p"
            } else {
                "P    p"
            }
        },
    }
}

/// The number of rows in each of the eleven columns of the board.
pub fn variant_row_counts(v: Variant) -> (r: Vec<i32>)
    ensures
        r@.len() == 11,
        forall|c: int| 0 <= c < 11 ==> r@[c] as int == #[trigger] row_counts(v)[c],
{
    match v {
        Variant::Glinski => vec![6, 7, 8, 9, 10, 11, 10, 9, 8, 7, 6],
        Variant::McCooey => vec![6, 7, 8, 9, 10, 11, 10, 9, 8, 7, 6],
        Variant::Hexofen => vec![6, 7, 8, 9, 10, 11, 10, 9, 8, 7, 6],
    }
}

/// The starting position of a variant: its eleven columns of characters.
pub fn variant_starting_setup(v: Variant) -> (r: Vec<Vec<char>>)
    ensures
        texts(r@) == starting_setup(v),
{
    let mut out: Vec<Vec<char>> = Vec::new();
    let mut col: usize = 0;
    while col < 11
        invariant
            col <= 11,
            out.len() == col,
            forall|c: int| 0 <= c < col ==> (#[trigger] out@[c])@ == starting_column(v, c),
        decreases 11 - col,
    {
        out.push(to_chars(setup_column(v, col)));
        col += 1;
    }
    assert(texts(out@) =~= starting_setup(v));
    out
}

/// The squares of a board: each column from row 0 up, `None` for an empty
/// square.
pub type Cells = Seq<Seq<Option<Piece>>>;

/// Whether the columns have the lengths of the variant's board.
pub open spec fn has_shape(cells: Cells, v: Variant) -> bool {
    &&& cells.len() == 11
    &&& forall|c: int| 0 <= c < 11 ==> (#[trigger] cells[c]).len() == row_counts(v)[c]
}

/// Whether column `col` has a row `row`.
pub open spec fn in_range(cells: Cells, col: int, row: int) -> bool {
    0 <= col < cells.len() && 0 <= row < cells[col].len()
}

/// What stands on a square; `None` where the board has no such square.
pub open spec fn cell_at(cells: Cells, col: int, row: int) -> Option<Option<Piece>> {
    if in_range(cells, col, row) {
        Some(cells[col][row])
    } else {
        None
    }
}

/// The squares after `piece` was put on one of them; the same squares
/// where the board has no such square.
pub open spec fn with_cell(cells: Cells, col: int, row: int, piece: Option<Piece>) -> Cells {
    if in_range(cells, col, row) {
        cells.update(col, cells[col].update(row, piece))
    } else {
        cells
    }
}

/// The squares of a variant's board, all empty.
pub open spec fn empty_cells(v: Variant) -> Cells {
    Seq::new(11, |c: int| Seq::new(row_counts(v)[c] as nat, |r: int| None::<Piece>))
}

/// What a character of a starting position puts on its square.
pub open spec fn setup_piece(ch: char) -> Option<Piece> {
    if ch == ' ' {
        None
    } else {
        Piece::spec_from_char(ch)
    }
}

/// A column of squares from a column of characters.
pub open spec fn setup_cells(column: Seq<char>) -> Seq<Option<Piece>> {
    Seq::new(column.len(), |r: int| setup_piece(column[r]))
}

/// The squares of a variant's starting position.
pub open spec fn startpos_cells(v: Variant) -> Cells {
    Seq::new(11, |c: int| setup_cells(starting_column(v, c)))
}

/// The squares of column `col`, which has `n` rows, from row 0 up.
pub open spec fn column_coords(col: int, n: int) -> Seq<Coord> {
    Seq::new(n as nat, |r: int| Coord { col: col as i32, row: r as i32 })
}

/// The squares of the first `k` columns: column after column, and each
/// from row 0 up.
pub open spec fn coords_upto(cells: Cells, k: int) -> Seq<Coord>
    decreases k,
{
    if k <= 0 {
        Seq::empty()
    } else {
        coords_upto(cells, k - 1) + column_coords(k - 1, cells[k - 1].len() as int)
    }
}

/// Every square of the board.
pub open spec fn grid_coords(cells: Cells) -> Seq<Coord> {
    coords_upto(cells, cells.len() as int)
}

/// The name of a variant.
pub open spec fn variant_name(v: Variant) -> Seq<char> {
    match v {
        Variant::Glinski => "Glinski"@,
        Variant::McCooey => "McCooey"@,
        Variant::Hexofen => "Hexofen"@,
    }
}

/// The name of a truth value.
pub open spec fn truth_name(b: bool) -> Seq<char> {
    if b {
        "true"@
    } else {
        "false"@
    }
}

/// A board: its variant, its squares and the side to move.
pub struct Board {
    pub variant: Variant,
    /// Eleven columns, each from row 0 up; `None` is an empty square.
    pub grid: Vec<Vec<Option<Piece>>>,
    pub white_to_play: bool,
}

/// What a board holds.
pub ghost struct BoardView {
    pub variant: Variant,
    pub cells: Cells,
    pub white_to_play: bool,
}

impl View for Board {
    type V = BoardView;

    open spec fn view(&self) -> BoardView {
        BoardView {
            variant: self.variant,
            cells: Seq::new(self.grid@.len(), |c: int| self.grid@[c]@),
            white_to_play: self.white_to_play,
        }
    }
}

impl Board {
    /// The grid has the shape of the variant's board.
    pub open spec fn wf(&self) -> bool {
        has_shape(self@.cells, self.variant)
    }

    /// A board of the variant without pieces, white to move.
    pub fn empty(variant: Variant) -> (r: Board)
        ensures
            r@ == (BoardView { variant, cells: empty_cells(variant), white_to_play: true }),
            r.wf(),
    {
        let counts: Vec<i32> = variant_row_counts(variant);
        let mut grid: Vec<Vec<Option<Piece>>> = Vec::new();
        let mut col: usize = 0;
        while col < 11
            invariant
                col <= 11,
                grid.len() == col,
                counts.len() == 11,
                forall|c: int|
                    0 <= c < 11 ==> counts@[c] as int == #[trigger] row_counts(variant)[c],
                forall|c: int| 0 <= c < col ==> (#[trigger] grid@[c])@ == empty_cells(variant)[c],
            decreases 11 - col,
        {
            proof {
                lemma_row_counts(variant, col as int);
            }
            let n: i32 = counts[col];
            let mut column: Vec<Option<Piece>> = Vec::new();
            let mut row: i32 = 0;
            while row < n
                invariant
                    0 <= row <= n,
                    column.len() == row,
                    forall|r: int| 0 <= r < row ==> (#[trigger] column@[r]) == None::<Piece>,
                decreases n - row,
            {
                column.push(None);
                row += 1;
            }
            assert(column@ =~= empty_cells(variant)[col as int]);
            grid.push(column);
            col += 1;
        }
        let board = Board { variant, grid, white_to_play: true };
        assert(board@.cells =~= empty_cells(variant));
        board
    }

    /// The starting position of the variant, white to move.
    pub fn new_startpos(variant: Variant) -> (r: Board)
        ensures
            r@ == (BoardView { variant, cells: startpos_cells(variant), white_to_play: true }),
            r.wf(),
    {
        let setup: Vec<Vec<char>> = variant_starting_setup(variant);
        let mut grid: Vec<Vec<Option<Piece>>> = Vec::new();
        let mut col: usize = 0;
        assert(setup.len() == 11) by {
            assert(texts(setup@).len() == 11);
        }
        while col < 11
            invariant
                col <= 11,
                grid.len() == col,
                setup.len() == 11,
                texts(setup@) == starting_setup(variant),
                forall|c: int|
                    0 <= c < col ==> (#[trigger] grid@[c])@ == startpos_cells(variant)[c],
            decreases 11 - col,
        {
            let rows: &Vec<char> = &setup[col];
            assert(rows@ == starting_column(variant, col as int)) by {
                assert(texts(setup@)[col as int] == rows@);
            }
            let mut column: Vec<Option<Piece>> = Vec::new();
            let mut row: usize = 0;
            while row < rows.len()
                invariant
                    row <= rows.len(),
                    column.len() == row,
                    forall|r: int|
                        0 <= r < row ==> (#[trigger] column@[r]) == setup_piece(rows@[r]),
                decreases rows.len() - row,
            {
                let pc: char = rows[row];
                let cell: Option<Piece> = if pc != ' ' {
                    Piece::from_char(pc)
                } else {
                    None
                };
                column.push(cell);
                row += 1;
            }
            assert(column@ =~= startpos_cells(variant)[col as int]);
            grid.push(column);
            col += 1;
        }
        let board = Board { variant, grid, white_to_play: true };
        assert(board@.cells =~= startpos_cells(variant));
        proof {
            lemma_setup_shape(variant);
        }
        board
    }

    /// Whether the grid has the shape of the variant's board.
    pub fn is_well_formed(&self) -> (r: bool)
        ensures
            r == self.wf(),
    {
        if self.grid.len() != 11 {
            return false;
        }
        let counts: Vec<i32> = variant_row_counts(self.variant);
        let mut col: usize = 0;
        while col < 11
            invariant
                col <= 11,
                self.grid.len() == 11,
                counts.len() == 11,
                forall|c: int|
                    0 <= c < 11 ==> counts@[c] as int == #[trigger] row_counts(self.variant)[c],
                forall|c: int|
                    0 <= c < col ==> (#[trigger] self@.cells[c]).len() == row_counts(
                        self.variant,
                    )[c],
            decreases 11 - col,
        {
            proof {
                lemma_row_counts(self.variant, col as int);
            }
            if self.grid[col].len() != counts[col] as usize {
                assert(self@.cells[col as int].len() != row_counts(self.variant)[col as int]);
                return false;
            }
            assert(self@.cells[col as int].len() == row_counts(self.variant)[col as int]);
            col += 1;
        }
        true
    }

    /// The variant and the side to move, in words.
    pub fn summary(&self) -> (r: String)
        ensures
            r@ == "Board("@ + variant_name(self.variant) + ", white_to_play="@ + truth_name(
                self.white_to_play,
            ) + ")"@,
    {
        let mut out: String = String::from_str("Board(");
        out.append(
            match self.variant {
                Variant::Glinski => "Glinski",
                Variant::McCooey => "McCooey",
                Variant::Hexofen => "Hexofen",
            },
        );
        out.append(", white_to_play=");
        out.append(if self.white_to_play { "true" } else { "false" });
        out.append(")");
        out
    }

    /// What stands on the square; `None` where the board has no such
    /// square, `Some(None)` where the square is empty.
    pub fn at(&self, col: i32, row: i32) -> (r: Option<Option<Piece>>)
        ensures
            r == cell_at(self@.cells, col as int, row as int),
    {
        if col < 0 || col as usize >= self.grid.len() {
            return None;
        }
        let column: &Vec<Option<Piece>> = &self.grid[col as usize];
        if row < 0 || row as usize >= column.len() {
            return None;
        }
        Some(column[row as usize])
    }

    /// What stands on the square `c`.
    pub fn at_coord(&self, c: Coord) -> (r: Option<Option<Piece>>)
        ensures
            r == cell_at(self@.cells, c.col as int, c.row as int),
    {
        self.at(c.col, c.row)
    }

    /// Puts `piece` on the square, or empties it; changes nothing where the
    /// board has no such square.
    pub fn set(&mut self, col: i32, row: i32, piece: Option<Piece>)
        ensures
            final(self)@ == (BoardView {
                cells: with_cell(old(self)@.cells, col as int, row as int, piece),
                ..old(self)@
            }),
            !in_range(old(self)@.cells, col as int, row as int) ==> final(self)@ == old(self)@,
            old(self).wf() ==> final(self).wf(),
    {
        if col < 0 || col as usize >= self.grid.len() {
            return ;
        }
        if row < 0 || row as usize >= self.grid[col as usize].len() {
            return ;
        }
        self.grid[col as usize][row as usize] = piece;
        assert(self@.cells =~= with_cell(old(self)@.cells, col as int, row as int, piece));
    }

    /// Every square of the board: column after column, each from row 0 up.
    pub fn all_coords(&self) -> (r: Vec<Coord>)
        requires
            self.wf(),
        ensures
            r@ == grid_coords(self@.cells),
            r@.len() == 91,
    {
        let mut out: Vec<Coord> = Vec::new();
        let mut col: usize = 0;
        proof {
            lemma_square_count(self@.cells, self.variant);
        }
        while col < 11
            invariant
                col <= 11,
                self.wf(),
                out@ == coords_upto(self@.cells, col as int),
            decreases 11 - col,
        {
            proof {
                lemma_row_counts(self.variant, col as int);
            }
            let n: usize = self.grid[col].len();
            assert(n == self@.cells[col as int].len());
            let ghost before = out@;
            let mut row: usize = 0;
            while row < n
                invariant
                    row <= n <= 11,
                    col < 11,
                    out@ == before + column_coords(col as int, row as int),
                decreases n - row,
            {
                out.push(Coord { col: col as i32, row: row as i32 });
                row += 1;
                assert(out@ =~= before + column_coords(col as int, row as int));
            }
            col += 1;
        }
        out
    }
}

/// A board of any variant has 91 squares.
pub proof fn lemma_square_count(cells: Cells, v: Variant)
    requires
        has_shape(cells, v),
    ensures
        grid_coords(cells).len() == 91,
{
    reveal_with_fuel(coords_upto, 12);
    assert(row_counts(v) =~= seq![6, 7, 8, 9, 10, 11, 10, 9, 8, 7, 6]);
    assert(cells[0].len() == row_counts(v)[0]);
    assert(cells[1].len() == row_counts(v)[1]);
    assert(cells[2].len() == row_counts(v)[2]);
    assert(cells[3].len() == row_counts(v)[3]);
    assert(cells[4].len() == row_counts(v)[4]);
    assert(cells[5].len() == row_counts(v)[5]);
    assert(cells[6].len() == row_counts(v)[6]);
    assert(cells[7].len() == row_counts(v)[7]);
    assert(cells[8].len() == row_counts(v)[8]);
    assert(cells[9].len() == row_counts(v)[9]);
    assert(cells[10].len() == row_counts(v)[10]);
}

/// The empty board and the starting position have the board's shape.
pub proof fn lemma_shapes(v: Variant)
    ensures
        has_shape(empty_cells(v), v),
        has_shape(startpos_cells(v), v),
{
    lemma_setup_shape(v);
}

/// Putting a piece on a square keeps the shape of the board, and changes
/// no square but that one.
pub proof fn lemma_with_cell(cells: Cells, v: Variant, col: int, row: int, piece: Option<Piece>)
    requires
        has_shape(cells, v),
    ensures
        has_shape(with_cell(cells, col, row, piece), v),
        grid_coords(with_cell(cells, col, row, piece)) == grid_coords(cells),
        !in_range(cells, col, row) ==> with_cell(cells, col, row, piece) == cells,
        forall|c: int, r: int|
            cell_at(with_cell(cells, col, row, piece), c, r) == if c == col && r == row
                && in_range(cells, col, row) {
                Some(piece)
            } else {
                cell_at(cells, c, r)
            },
{
    let next = with_cell(cells, col, row, piece);
    lemma_same_coords(cells, next, 11);
}

/// Boards with columns of the same lengths have the same squares.
pub proof fn lemma_same_coords(a: Cells, b: Cells, k: int)
    requires
        a.len() == b.len(),
        k <= a.len(),
        forall|c: int| 0 <= c < a.len() ==> (#[trigger] a[c]).len() == b[c].len(),
    ensures
        coords_upto(a, k) == coords_upto(b, k),
    decreases k,
{
    if k > 0 {
        lemma_same_coords(a, b, k - 1);
    }
}

} // verus!
