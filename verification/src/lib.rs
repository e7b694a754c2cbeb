//! Hexagonal chess: board geometry, square notation, material evaluation and
//! a line-based text protocol.

pub mod text;
pub mod piece;
pub mod board;
pub mod eval;
pub mod protocol;

pub use board::{Board, Coord, Variant};
pub use eval::evaluate;
pub use piece::{Piece, PieceKind};
pub use protocol::{handle_command, parse_position};
