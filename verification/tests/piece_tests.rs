use hexchess::{Piece, PieceKind};

const KINDS: [PieceKind; 6] = [
    PieceKind::Pawn,
    PieceKind::Knight,
    PieceKind::Bishop,
    PieceKind::Rook,
    PieceKind::Queen,
    PieceKind::King,
];

#[test]
fn kind_from_upper_case_letters() {
    assert_eq!(PieceKind::from_char('P'), Some(PieceKind::Pawn));
    assert_eq!(PieceKind::from_char('N'), Some(PieceKind::Knight));
    assert_eq!(PieceKind::from_char('B'), Some(PieceKind::Bishop));
    assert_eq!(PieceKind::from_char('R'), Some(PieceKind::Rook));
    assert_eq!(PieceKind::from_char('Q'), Some(PieceKind::Queen));
    assert_eq!(PieceKind::from_char('K'), Some(PieceKind::King));
}

#[test]
fn kind_from_lower_case_letters() {
    assert_eq!(PieceKind::from_char('p'), Some(PieceKind::Pawn));
    assert_eq!(PieceKind::from_char('n'), Some(PieceKind::Knight));
    assert_eq!(PieceKind::from_char('b'), Some(PieceKind::Bishop));
    assert_eq!(PieceKind::from_char('r'), Some(PieceKind::Rook));
    assert_eq!(PieceKind::from_char('q'), Some(PieceKind::Queen));
    assert_eq!(PieceKind::from_char('k'), Some(PieceKind::King));
}

#[test]
fn kind_from_other_characters_is_none() {
    for c in ['Z', 'z', ' ', '1', ':', 'A', '\u{212A}', '\u{0}', 'é'] {
        assert_eq!(PieceKind::from_char(c), None, "{:?}", c);
    }
}

#[test]
fn kind_letters() {
    assert_eq!(PieceKind::Pawn.to_char(true), 'P');
    assert_eq!(PieceKind::Pawn.to_char(false), 'p');
    assert_eq!(PieceKind::Knight.to_char(true), 'N');
    assert_eq!(PieceKind::Knight.to_char(false), 'n');
    assert_eq!(PieceKind::Bishop.to_char(false), 'b');
    assert_eq!(PieceKind::Rook.to_char(true), 'R');
    assert_eq!(PieceKind::Queen.to_char(false), 'q');
    assert_eq!(PieceKind::King.to_char(true), 'K');
}

#[test]
fn kind_values() {
    assert_eq!(PieceKind::Pawn.value(), 1);
    assert_eq!(PieceKind::Knight.value(), 3);
    assert_eq!(PieceKind::Bishop.value(), 3);
    assert_eq!(PieceKind::Rook.value(), 5);
    assert_eq!(PieceKind::Queen.value(), 9);
    assert_eq!(PieceKind::King.value(), 0);
}

#[test]
fn piece_colour_follows_letter_case() {
    assert_eq!(Piece::from_char('Q'), Some(Piece::new(PieceKind::Queen, true)));
    assert_eq!(Piece::from_char('q'), Some(Piece::new(PieceKind::Queen, false)));
    assert_eq!(Piece::from_char('Z'), None);
    assert_eq!(Piece::from_char(' '), None);
}

#[test]
fn piece_value_is_signed() {
    assert_eq!(Piece::new(PieceKind::Queen, true).value(), 9);
    assert_eq!(Piece::new(PieceKind::Queen, false).value(), -9);
    assert_eq!(Piece::new(PieceKind::Rook, false).value(), -5);
    assert_eq!(Piece::new(PieceKind::King, false).value(), 0);
    assert_eq!(Piece::new(PieceKind::Pawn, true).value(), 1);
}

#[test]
fn piece_letter_reads_back() {
    for kind in KINDS {
        for white in [true, false] {
            let piece = Piece::new(kind, white);
            assert_eq!(PieceKind::from_char(kind.to_char(white)), Some(kind));
            assert_eq!(Piece::from_char(kind.to_char(white)), Some(piece));
            assert_eq!(piece.to_string(), format!("{}", kind.to_char(white)));
        }
    }
}

#[test]
fn piece_new_keeps_fields() {
    let piece = Piece::new(PieceKind::Bishop, false);
    assert_eq!(piece.kind, PieceKind::Bishop);
    assert!(!piece.is_white);
}
