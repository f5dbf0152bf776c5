//! The plain enumerations shared by every other module.

use vstd::prelude::*;

verus! {

/// The two sides of a game.
#[derive(Copy, Clone, Debug, PartialEq, Eq, Structural)]
pub enum Color {
    White,
    Black,
}

impl Color {
    /// The other side.
    pub open spec fn other(self) -> Color {
        match self {
            Color::White => Color::Black,
            Color::Black => Color::White,
        }
    }

    /// Returns the other side.
    pub fn opposite(&self) -> (r: Self)
        ensures
            r == self.other(),
            r != *self,
    {
        match self {
            Color::White => Color::Black,
            Color::Black => Color::White,
        }
    }
}

/// The six kinds of chess pieces.
#[derive(Copy, Clone, Debug, PartialEq, Eq, Structural)]
pub enum PieceType {
    King,
    Queen,
    Rook,
    Bishop,
    Knight,
    Pawn,
}

/// The side of the board on which a king castles.
#[derive(Copy, Clone, Debug, PartialEq, Eq, Structural)]
pub enum Castle {
    KingSide,
    QueenSide,
}

/// The annotation that a move in notation may carry at its end.
#[derive(Copy, Clone, Debug, PartialEq, Eq, Structural)]
pub enum Check {
    Check,
    Checkmate,
}

/// Where a game stands. `Check` carries the side whose king is attacked,
/// `Checkmate` the side that delivered the mate.
#[derive(Copy, Clone, Debug, PartialEq, Eq, Structural)]
pub enum GameState {
    InProgress,
    Checkmate(Color),
    Check(Color),
    Stalemate,
}

/// Why a move was refused.
#[derive(Copy, Clone, Debug, PartialEq, Eq, Structural)]
pub enum ChessError {
    /// The move does not fit the position: the capture marker disagrees with
    /// the destination square, no piece can make it, or castling is not possible.
    InvalidMove,
    /// The move would leave the mover's own king attacked.
    InCheck,
}

/// A piece: its kind and the side it belongs to.
#[derive(Copy, Clone, Debug, PartialEq, Eq, Structural)]
pub struct Piece {
    pub piece_type: PieceType,
    pub color: Color,
}

impl Piece {
    /// A piece of the given kind and side.
    pub fn new(piece_type: PieceType, color: Color) -> (r: Self)
        ensures
            r == (Piece { piece_type, color }),
    {
        Self { piece_type, color }
    }

    /// The upper-case letter that stands for a kind of piece.
    pub open spec fn kind_letter(kind: PieceType) -> char {
        match kind {
            PieceType::Knight => 'N',
            PieceType::Pawn => 'P',
            PieceType::Queen => 'Q',
            PieceType::Rook => 'R',
            PieceType::Bishop => 'B',
            PieceType::King => 'K',
        }
    }

    /// The letter of this piece's kind, the same for both sides.
    pub fn letter(&self) -> (r: char)
        ensures
            r == Self::kind_letter(self.piece_type),
    {
        match self.piece_type {
            PieceType::Knight => 'N',
            PieceType::Pawn => 'P',
            PieceType::Queen => 'Q',
            PieceType::Rook => 'R',
            PieceType::Bishop => 'B',
            PieceType::King => 'K',
        }
    }
}

} // verus!
