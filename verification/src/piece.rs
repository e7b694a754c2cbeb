//! Pieces: kind, colour, letter and point value.

use vstd::prelude::*;
use crate::text::{ascii_upper, to_ascii_lower, to_ascii_upper, to_text};

verus! {

/// What a piece is, without its colour.
#[derive(Debug, Clone, Copy, PartialEq, Eq, Hash, Structural)]
pub enum PieceKind {
    Pawn,
    Knight,
    Bishop,
    Rook,
    Queen,
    King,
}

impl PieceKind {
    /// The kind that the letter `c` stands for, in either case.
    pub open spec fn spec_from_char(c: char) -> Option<PieceKind> {
        let u = ascii_upper(c);
        if u == 'P' {
            Some(PieceKind::Pawn)
        } else if u == 'N' {
            Some(PieceKind::Knight)
        } else if u == 'B' {
            Some(PieceKind::Bishop)
        } else if u == 'R' {
            Some(PieceKind::Rook)
        } else if u == 'Q' {
            Some(PieceKind::Queen)
        } else if u == 'K' {
            Some(PieceKind::King)
        } else {
            None
        }
    }

    /// The letter of a kind: upper case for white, lower case for black.
    pub open spec fn spec_to_char(self, is_white: bool) -> char {
        match self {
            PieceKind::Pawn => if is_white { 'P' } else { 'p' },
            PieceKind::Knight => if is_white { 'N' } else { 'n' },
            PieceKind::Bishop => if is_white { 'B' } else { 'b' },
            PieceKind::Rook => if is_white { 'R' } else { 'r' },
            PieceKind::Queen => if is_white { 'Q' } else { 'q' },
            PieceKind::King => if is_white { 'K' } else { 'k' },
        }
    }

    /// The point value of a kind.
    pub open spec fn spec_value(self) -> int {
        match self {
            PieceKind::Pawn => 1,
            PieceKind::Knight => 3,
            PieceKind::Bishop => 3,
            PieceKind::Rook => 5,
            PieceKind::Queen => 9,
            PieceKind::King => 0,
        }
    }

    /// Reads a kind from its letter, in either case.
    pub fn from_char(c: char) -> (r: Option<PieceKind>)
        ensures
            r == Self::spec_from_char(c),
    {
        let u: char = to_ascii_upper(c);
        if u == 'P' {
            Some(PieceKind::Pawn)
        } else if u == 'N' {
            Some(PieceKind::Knight)
        } else if u == 'B' {
            Some(PieceKind::Bishop)
        } else if u == 'R' {
            Some(PieceKind::Rook)
        } else if u == 'Q' {
            Some(PieceKind::Queen)
        } else if u == 'K' {
            Some(PieceKind::King)
        } else {
            None
        }
    }

    /// The letter of the kind for a piece of the given colour.
    pub fn to_char(self, is_white: bool) -> (r: char)
        ensures
            r == self.spec_to_char(is_white),
    {
        let c: char = match self {
            PieceKind::Pawn => 'P',
            PieceKind::Knight => 'N',
            PieceKind::Bishop => 'B',
            PieceKind::Rook => 'R',
            PieceKind::Queen => 'Q',
            PieceKind::King => 'K',
        };
        if is_white {
            c
        } else {
            to_ascii_lower(c)
        }
    }

    /// The point value of the kind.
    pub fn value(self) -> (r: i32)
        ensures
            r == self.spec_value(),
    {
        match self {
            PieceKind::Pawn => 1,
            PieceKind::Knight => 3,
            PieceKind::Bishop => 3,
            PieceKind::Rook => 5,
            PieceKind::Queen => 9,
            PieceKind::King => 0,
        }
    }

    /// Reading a kind's letter, of either colour, gives the kind back.
    pub proof fn lemma_letter_round_trip(self, is_white: bool)
        ensures
            Self::spec_from_char(self.spec_to_char(is_white)) == Some(self),
    {
    }
}

/// A piece of one colour.
#[derive(Debug, Clone, Copy, PartialEq, Eq, Structural)]
pub struct Piece {
    pub kind: PieceKind,
    pub is_white: bool,
}

impl Piece {
    /// The piece that the letter `c` stands for: its kind from the letter,
    /// white where the letter is upper case.
    pub open spec fn spec_from_char(c: char) -> Option<Piece> {
        match PieceKind::spec_from_char(c) {
            Some(kind) => Some(Piece { kind, is_white: 'A' <= c && c <= 'Z' }),
            None => None,
        }
    }

    /// The signed point value: positive for white, negative for black.
    pub open spec fn spec_value(self) -> int {
        if self.is_white {
            self.kind.spec_value()
        } else {
            -self.kind.spec_value()
        }
    }

    /// A piece of the given kind and colour.
    pub fn new(kind: PieceKind, is_white: bool) -> (r: Piece)
        ensures
            r == (Piece { kind, is_white }),
    {
        Piece { kind, is_white }
    }

    /// Reads a piece from its letter: white from a capital, black from a
    /// small letter.
    pub fn from_char(c: char) -> (r: Option<Piece>)
        ensures
            r == Self::spec_from_char(c),
    {
        match PieceKind::from_char(c) {
            Some(kind) => Some(Piece { kind, is_white: 'A' <= c && c <= 'Z' }),
            None => None,
        }
    }

    /// The signed point value of the piece.
    pub fn value(self) -> (r: i32)
        ensures
            r == self.spec_value(),
            -9 <= r <= 9,
    {
        let v: i32 = self.kind.value();
        if self.is_white {
            v
        } else {
            -v
        }
    }

    /// The letter of the piece, as a text of one character.
    pub fn to_string(&self) -> (r: String)
        ensures
            r@ == seq![self.kind.spec_to_char(self.is_white)],
    {
        let mut letter: Vec<char> = Vec::new();
        letter.push(self.kind.to_char(self.is_white));
        assert(letter@ =~= seq![self.kind.spec_to_char(self.is_white)]);
        to_text(&letter)
    }

    /// A piece's letter reads back as the piece.
    pub proof fn lemma_letter_round_trip(self)
        ensures
            Self::spec_from_char(self.kind.spec_to_char(self.is_white)) == Some(self),
    {
    }
}

} // verus!
