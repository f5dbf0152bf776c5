//! A single move as the notation describes it, and the builder that
//! assembles one field by field.

use crate::geometry::Square;
use crate::types::{Castle, Check, PieceType};
use vstd::prelude::*;

verus! {

/// One move. `from` holds what is known of the origin square: its file, its
/// rank, both or neither. A castling move is marked by `castle`; its `to`
/// and `takes` carry no meaning. `check` is an annotation only.
#[derive(Copy, Clone, Debug, PartialEq, Eq)]
pub struct Command {
    pub piece: PieceType,
    pub from: (Option<usize>, Option<usize>),
    pub to: Square,
    pub takes: bool,
    pub check: Option<Check>,
    pub castle: Option<Castle>,
}

/// Collects the fields of a [`Command`]. Only the piece has to be given
/// before [`CommandBuilder::build`].
#[derive(Copy, Clone)]
pub struct CommandBuilder {
    piece: Option<PieceType>,
    from: Option<(Option<usize>, Option<usize>)>,
    to: Option<Square>,
    takes: Option<bool>,
    check: Option<Check>,
    castle: Option<Castle>,
}

impl CommandBuilder {
    /// The piece given so far.
    pub closed spec fn chosen_piece(self) -> Option<PieceType> {
        self.piece
    }

    /// The origin hints given so far.
    pub closed spec fn chosen_from(self) -> Option<(Option<usize>, Option<usize>)> {
        self.from
    }

    /// The destination given so far.
    pub closed spec fn chosen_to(self) -> Option<Square> {
        self.to
    }

    /// The capture flag given so far.
    pub closed spec fn chosen_takes(self) -> Option<bool> {
        self.takes
    }

    /// The annotation given so far.
    pub closed spec fn chosen_check(self) -> Option<Check> {
        self.check
    }

    /// The castling side given so far.
    pub closed spec fn chosen_castle(self) -> Option<Castle> {
        self.castle
    }

    /// The command that `build` returns once a piece has been given: a field
    /// that was not given is `(0, 0)` for the destination, no hint for the
    /// origin, `false` for the capture flag, and absent for the rest.
    pub open spec fn outcome(self) -> Command {
        Command {
            piece: self.chosen_piece()->0,
            from: match self.chosen_from() {
                Some(from) => from,
                None => (None, None),
            },
            to: match self.chosen_to() {
                Some(to) => to,
                None => (0, 0),
            },
            takes: match self.chosen_takes() {
                Some(takes) => takes,
                None => false,
            },
            check: self.chosen_check(),
            castle: self.chosen_castle(),
        }
    }

    /// A builder with no field given.
    pub fn new() -> (r: Self)
        ensures
            r.chosen_piece() is None,
            r.chosen_from() is None,
            r.chosen_to() is None,
            r.chosen_takes() is None,
            r.chosen_check() is None,
            r.chosen_castle() is None,
    {
        Self { piece: None, from: None, to: None, takes: None, check: None, castle: None }
    }

    /// Sets the piece that moves.
    pub fn piece(self, piece: PieceType) -> (r: Self)
        ensures
            r.chosen_piece() == Some(piece),
            r.chosen_from() == self.chosen_from(),
            r.chosen_to() == self.chosen_to(),
            r.chosen_takes() == self.chosen_takes(),
            r.chosen_check() == self.chosen_check(),
            r.chosen_castle() == self.chosen_castle(),
    {
        Self { piece: Some(piece), ..self }
    }

    /// Sets the origin hints.
    pub fn from(self, from: (Option<usize>, Option<usize>)) -> (r: Self)
        ensures
            r.chosen_piece() == self.chosen_piece(),
            r.chosen_from() == Some(from),
            r.chosen_to() == self.chosen_to(),
            r.chosen_takes() == self.chosen_takes(),
            r.chosen_check() == self.chosen_check(),
            r.chosen_castle() == self.chosen_castle(),
    {
        Self { from: Some(from), ..self }
    }

    /// Sets the destination square.
    pub fn to(self, to: Square) -> (r: Self)
        ensures
            r.chosen_piece() == self.chosen_piece(),
            r.chosen_from() == self.chosen_from(),
            r.chosen_to() == Some(to),
            r.chosen_takes() == self.chosen_takes(),
            r.chosen_check() == self.chosen_check(),
            r.chosen_castle() == self.chosen_castle(),
    {
        Self { to: Some(to), ..self }
    }

    /// Sets the capture flag.
    pub fn takes(self, takes: bool) -> (r: Self)
        ensures
            r.chosen_piece() == self.chosen_piece(),
            r.chosen_from() == self.chosen_from(),
            r.chosen_to() == self.chosen_to(),
            r.chosen_takes() == Some(takes),
            r.chosen_check() == self.chosen_check(),
            r.chosen_castle() == self.chosen_castle(),
    {
        Self { takes: Some(takes), ..self }
    }

    /// Sets or clears the castling side.
    pub fn castle(self, castle: Option<Castle>) -> (r: Self)
        ensures
            r.chosen_piece() == self.chosen_piece(),
            r.chosen_from() == self.chosen_from(),
            r.chosen_to() == self.chosen_to(),
            r.chosen_takes() == self.chosen_takes(),
            r.chosen_check() == self.chosen_check(),
            r.chosen_castle() == castle,
    {
        Self { castle: castle, ..self }
    }

    /// Sets or clears the annotation.
    pub fn check(self, check: Option<Check>) -> (r: Self)
        ensures
            r.chosen_piece() == self.chosen_piece(),
            r.chosen_from() == self.chosen_from(),
            r.chosen_to() == self.chosen_to(),
            r.chosen_takes() == self.chosen_takes(),
            r.chosen_check() == check,
            r.chosen_castle() == self.chosen_castle(),
    {
        Self { check: check, ..self }
    }

    /// The command made of the fields given, with the defaults that
    /// [`CommandBuilder::outcome`] names for the others.
    pub fn build(self) -> (r: Command)
        requires
            self.chosen_piece() is Some,
        ensures
            r == self.outcome(),
    {
        let piece = match self.piece {
            Some(piece) => piece,
            None => PieceType::Pawn,
        };
        Command {
            piece,
            to: match self.to {
                Some(to) => to,
                None => (0, 0),
            },
            from: match self.from {
                Some(from) => from,
                None => (None, None),
            },
            takes: match self.takes {
                Some(takes) => takes,
                None => false,
            },
            check: self.check,
            castle: self.castle,
        }
    }
}

} // verus!
