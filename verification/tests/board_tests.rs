use hexchess::board::{logical_row, storage_row, variant_row_counts, variant_starting_setup};
use hexchess::{evaluate, Board, Coord, Piece, PieceKind, Variant};

const VARIANTS: [Variant; 3] = [Variant::Glinski, Variant::McCooey, Variant::Hexofen];

#[test]
fn variant_names_and_numbers() {
    assert_eq!(Variant::from_str("glinski"), Some(Variant::Glinski));
    assert_eq!(Variant::from_str("0"), Some(Variant::Glinski));
    assert_eq!(Variant::from_str("mccooey"), Some(Variant::McCooey));
    assert_eq!(Variant::from_str("1"), Some(Variant::McCooey));
    assert_eq!(Variant::from_str("hexofen"), Some(Variant::Hexofen));
    assert_eq!(Variant::from_str("2"), Some(Variant::Hexofen));
}

#[test]
fn variant_name_in_any_case() {
    assert_eq!(Variant::from_str("GLINSKI"), Some(Variant::Glinski));
    assert_eq!(Variant::from_str("McCooey"), Some(Variant::McCooey));
    assert_eq!(Variant::from_str("HexoFen"), Some(Variant::Hexofen));
    assert_eq!(Variant::from_str("GLINS\u{212A}I"), Some(Variant::Glinski));
}

#[test]
fn variant_unknown_is_none() {
    for s in ["", "3", "chess", " glinski", "glinski ", "glinsk", "00"] {
        assert_eq!(Variant::from_str(s), None, "{:?}", s);
    }
}

#[test]
fn variant_from_lowered_text() {
    let glinski: Vec<char> = "glinski".chars().collect();
    let upper: Vec<char> = "GLINSKI".chars().collect();
    assert_eq!(Variant::from_lowered(&glinski), Some(Variant::Glinski));
    assert_eq!(Variant::from_lowered(&upper), None);
    assert_eq!(Variant::from_lowered(&vec!['2']), Some(Variant::Hexofen));
    assert_eq!(Variant::from_lowered(&Vec::new()), None);
}

#[test]
fn coord_new_keeps_fields() {
    let c = Coord::new(3, 4);
    assert_eq!(c.col, 3);
    assert_eq!(c.row, 4);
}

#[test]
fn notation_of_squares() {
    assert_eq!(Coord::new(0, 0).to_notation(), "A1");
    assert_eq!(Coord::new(1, 1).to_notation(), "B2");
    assert_eq!(Coord::new(5, 5).to_notation(), "F6");
    assert_eq!(Coord::new(5, 10).to_notation(), "F11");
    assert_eq!(Coord::new(10, 5).to_notation(), "K6");
    assert_eq!(Coord::new(10, 99).to_notation(), "K100");
    assert_eq!(Coord::new(0, -1).to_notation(), "A0");
    assert_eq!(Coord::new(0, -5).to_notation(), "A-4");
}

#[test]
fn squares_from_notation() {
    assert_eq!(Coord::from_notation("A1"), Some(Coord::new(0, 0)));
    assert_eq!(Coord::from_notation("B2"), Some(Coord::new(1, 1)));
    assert_eq!(Coord::from_notation("F11"), Some(Coord::new(5, 10)));
    assert_eq!(Coord::from_notation("K6"), Some(Coord::new(10, 5)));
    assert_eq!(Coord::from_notation("b2"), Some(Coord::new(1, 1)));
    assert_eq!(Coord::from_notation("  f6\t"), Some(Coord::new(5, 5)));
    assert_eq!(Coord::from_notation("A+3"), Some(Coord::new(0, 2)));
    assert_eq!(Coord::from_notation("A01"), Some(Coord::new(0, 0)));
    assert_eq!(Coord::from_notation("Z9"), Some(Coord::new(25, 8)));
    assert_eq!(Coord::from_notation("@1"), Some(Coord::new(0, 0)));
    assert_eq!(Coord::from_notation("11"), Some(Coord::new(0, 0)));
    assert_eq!(Coord::from_notation("A2147483647"), Some(Coord::new(0, 2147483646)));
    assert_eq!(Coord::from_notation("\u{131}1"), Some(Coord::new(8, 0)));
}

#[test]
fn malformed_notation_is_refused() {
    for s in ["", " ", "A", "1", "A0", "A-1", "Ax", "A1x", "A 1", "AA", "A2147483648", "A1:K",
        "é1", "\u{3b1}1"] {
        assert_eq!(Coord::from_notation(s), None, "{:?}", s);
    }
}

#[test]
fn normalized_notation_is_read_as_it_stands() {
    let name: Vec<char> = "C4".chars().collect();
    let lower: Vec<char> = "c4".chars().collect();
    assert_eq!(Coord::from_normalized(&name), Some(Coord::new(2, 3)));
    assert_eq!(Coord::from_normalized(&lower), Some(Coord::new(34, 3)));
    assert_eq!(Coord::from_normalized(&Vec::new()), None);
}

#[test]
fn notation_round_trip_over_every_square() {
    for v in VARIANTS {
        let board = Board::empty(v);
        for c in board.all_coords() {
            assert_eq!(Coord::from_notation(&c.to_notation()), Some(c));
        }
    }
    let far = Coord::new(10, 2147483646);
    assert_eq!(Coord::from_notation(&far.to_notation()), Some(far));
}

#[test]
fn logical_rows_shift_right_of_the_middle() {
    assert_eq!(logical_row(0, 3), 3);
    assert_eq!(logical_row(5, 10), 10);
    assert_eq!(logical_row(6, 0), 1);
    assert_eq!(logical_row(10, 5), 10);
    assert_eq!(storage_row(0, 3), 3);
    assert_eq!(storage_row(5, 10), 10);
    assert_eq!(storage_row(6, 1), 0);
    assert_eq!(storage_row(10, 10), 5);
    assert_eq!(logical_row(-3, 7), 7);
    assert_eq!(storage_row(7, 0), -2);
}

#[test]
fn logical_and_storage_rows_are_inverse() {
    for v in VARIANTS {
        let board = Board::empty(v);
        for c in board.all_coords() {
            assert_eq!(storage_row(c.col, logical_row(c.col, c.row)), c.row);
            assert_eq!(logical_row(c.col, storage_row(c.col, c.row)), c.row);
        }
    }
}

#[test]
fn row_counts_are_the_hexagon() {
    for v in VARIANTS {
        assert_eq!(variant_row_counts(v), vec![6, 7, 8, 9, 10, 11, 10, 9, 8, 7, 6]);
        assert_eq!(variant_row_counts(v).iter().sum::<i32>(), 91);
    }
}

#[test]
fn starting_setup_has_the_shape_of_the_board() {
    for v in VARIANTS {
        let setup = variant_starting_setup(v);
        let lens: Vec<i32> = setup.iter().map(|c| c.len() as i32).collect();
        assert_eq!(lens, variant_row_counts(v));
    }
}

#[test]
fn starting_setup_columns() {
    let text = |v: Variant, col: usize| -> String {
        variant_starting_setup(v)[col].iter().collect()
    };
    assert_eq!(text(Variant::Glinski, 0), "      ");
    assert_eq!(text(Variant::Glinski, 3), "N P   p n");
    assert_eq!(text(Variant::Glinski, 4), "Q  P  p  q");
    assert_eq!(text(Variant::Glinski, 5), "BBB P p bbb");
    assert_eq!(text(Variant::Glinski, 6), "K  P  p  k");
    assert_eq!(text(Variant::McCooey, 1), "       ");
    assert_eq!(text(Variant::McCooey, 4), "QNP    pnq");
    assert_eq!(text(Variant::McCooey, 5), "BBBP   pbbb");
    assert_eq!(text(Variant::McCooey, 6), "KNP    pnk");
    assert_eq!(text(Variant::Hexofen, 0), "P    p");
    assert_eq!(text(Variant::Hexofen, 2), "NP    pb");
    assert_eq!(text(Variant::Hexofen, 4), "BNP    pnq");
    assert_eq!(text(Variant::Hexofen, 5), "KBP     pbk");
    assert_eq!(text(Variant::Hexofen, 6), "QNP    pnb");
    assert_eq!(text(Variant::Hexofen, 8), "BP    pn");
}

#[test]
fn empty_board_has_no_pieces() {
    for v in VARIANTS {
        let board = Board::empty(v);
        assert_eq!(board.variant, v);
        assert!(board.white_to_play);
        assert!(board.is_well_formed());
        let lens: Vec<i32> = board.grid.iter().map(|c| c.len() as i32).collect();
        assert_eq!(lens, vec![6, 7, 8, 9, 10, 11, 10, 9, 8, 7, 6]);
        for c in board.all_coords() {
            assert_eq!(board.at_coord(c), Some(None));
        }
    }
}

#[test]
fn all_coords_go_column_by_column() {
    for v in VARIANTS {
        let coords = Board::empty(v).all_coords();
        assert_eq!(coords.len(), 91);
        assert_eq!(coords[0], Coord::new(0, 0));
        assert_eq!(coords[5], Coord::new(0, 5));
        assert_eq!(coords[6], Coord::new(1, 0));
        assert_eq!(coords[90], Coord::new(10, 5));
        let mut want = Vec::new();
        for (col, n) in variant_row_counts(v).iter().enumerate() {
            for row in 0..*n {
                want.push(Coord::new(col as i32, row));
            }
        }
        assert_eq!(coords, want);
    }
}

#[test]
fn at_tells_empty_from_out_of_range() {
    let board = Board::new_startpos(Variant::Glinski);
    assert_eq!(board.at(0, 0), Some(None));
    assert_eq!(board.at(1, 0), Some(Some(Piece::new(PieceKind::Pawn, true))));
    assert_eq!(board.at(4, 9), Some(Some(Piece::new(PieceKind::Queen, false))));
    assert_eq!(board.at(6, 0), Some(Some(Piece::new(PieceKind::King, true))));
    assert_eq!(board.at(5, 10), Some(Some(Piece::new(PieceKind::Bishop, false))));
    assert_eq!(board.at(-1, 0), None);
    assert_eq!(board.at(11, 0), None);
    assert_eq!(board.at(0, -1), None);
    assert_eq!(board.at(0, 6), None);
    assert_eq!(board.at(5, 11), None);
    assert_eq!(board.at(i32::MAX, i32::MAX), None);
    assert_eq!(board.at(i32::MIN, i32::MIN), None);
    assert_eq!(board.at_coord(Coord::new(2, 0)), Some(Some(Piece::new(PieceKind::Rook, true))));
    assert_eq!(board.at_coord(Coord::new(10, 6)), None);
}

#[test]
fn startpos_follows_the_setup() {
    for v in VARIANTS {
        let board = Board::new_startpos(v);
        let setup = variant_starting_setup(v);
        assert!(board.white_to_play);
        assert_eq!(board.variant, v);
        assert!(board.is_well_formed());
        for c in board.all_coords() {
            let ch = setup[c.col as usize][c.row as usize];
            let want = if ch == ' ' { None } else { Piece::from_char(ch) };
            assert_eq!(board.at_coord(c), Some(want));
        }
    }
}

#[test]
fn set_writes_one_square() {
    let mut board = Board::empty(Variant::McCooey);
    let king = Piece::new(PieceKind::King, true);
    board.set(5, 10, Some(king));
    for c in board.all_coords() {
        let want = if c == Coord::new(5, 10) { Some(king) } else { None };
        assert_eq!(board.at_coord(c), Some(want));
    }
    board.set(5, 10, None);
    assert_eq!(board.at(5, 10), Some(None));
    assert!(board.is_well_formed());
}

#[test]
fn set_out_of_range_changes_nothing() {
    let mut board = Board::new_startpos(Variant::Hexofen);
    let before_coords = board.all_coords();
    let before: Vec<Option<Option<Piece>>> =
        before_coords.iter().map(|c| board.at_coord(*c)).collect();
    let queen = Some(Piece::new(PieceKind::Queen, true));
    for (col, row) in [(-1, 0), (11, 0), (0, 6), (0, -1), (5, 11), (10, 6), (i32::MAX, 0), (0, i32::MIN)] {
        board.set(col, row, queen);
    }
    let after_coords = board.all_coords();
    let after: Vec<Option<Option<Piece>>> =
        after_coords.iter().map(|c| board.at_coord(*c)).collect();
    assert_eq!(before_coords, after_coords);
    assert_eq!(before, after);
    assert!(board.white_to_play);
}

#[test]
fn evaluate_empty_board_is_zero() {
    for v in VARIANTS {
        assert_eq!(evaluate(&Board::empty(v)), 0);
    }
}

#[test]
fn evaluate_startpos_is_balanced() {
    for v in VARIANTS {
        assert_eq!(evaluate(&Board::new_startpos(v)), 0);
    }
}

#[test]
fn glinski_white_material() {
    let mut board = Board::new_startpos(Variant::Glinski);
    for c in board.all_coords() {
        if let Some(Some(piece)) = board.at_coord(c) {
            if !piece.is_white {
                board.set(c.col, c.row, None);
            }
        }
    }
    assert_eq!(evaluate(&board), 43);
}

#[test]
fn evaluate_sums_signed_values() {
    let mut board = Board::empty(Variant::Glinski);
    board.set(0, 0, Some(Piece::new(PieceKind::King, true)));
    board.set(1, 1, Some(Piece::new(PieceKind::Queen, false)));
    assert_eq!(evaluate(&board), -9);
    board.set(5, 5, Some(Piece::new(PieceKind::Rook, true)));
    board.set(10, 5, Some(Piece::new(PieceKind::Pawn, true)));
    assert_eq!(evaluate(&board), -3);
}

#[test]
fn evaluate_full_board_of_queens() {
    let mut board = Board::empty(Variant::Glinski);
    for c in board.all_coords() {
        board.set(c.col, c.row, Some(Piece::new(PieceKind::Queen, false)));
    }
    assert_eq!(evaluate(&board), -819);
}

#[test]
fn board_summary_names_variant_and_side() {
    let mut board = Board::empty(Variant::McCooey);
    assert_eq!(board.summary(), "Board(McCooey, white_to_play=true)");
    board.white_to_play = false;
    assert_eq!(board.summary(), "Board(McCooey, white_to_play=false)");
    assert_eq!(Board::empty(Variant::Glinski).summary(), "Board(Glinski, white_to_play=true)");
    assert_eq!(Board::empty(Variant::Hexofen).summary(), "Board(Hexofen, white_to_play=true)");
}

#[test]
fn misshapen_grid_is_not_well_formed() {
    let mut board = Board::empty(Variant::Glinski);
    board.grid[3].pop();
    assert!(!board.is_well_formed());
    let mut short = Board::empty(Variant::Glinski);
    short.grid.pop();
    assert!(!short.is_well_formed());
}
