//! The board: at most one piece on each of the 64 squares.

use crate::geometry::{on_board, square_index, Square};
use crate::types::Piece;
use vstd::prelude::*;

verus! {

/// The pieces of a position, by square. A square without an entry is empty.
pub type Position = Map<Square, Piece>;

/// What stands on a square of a position, if anything.
pub open spec fn piece_at(position: Position, sq: Square) -> Option<Piece> {
    if position.contains_key(sq) {
        Some(position[sq])
    } else {
        None
    }
}

/// A position that has moved what stood on `from` to `to`, replacing what
/// stood there. Where `from` is empty nothing changes.
pub open spec fn relocate(position: Position, from: Square, to: Square) -> Position {
    if position.contains_key(from) {
        position.remove(from).insert(to, position[from])
    } else {
        position
    }
}

/// Whether a list holds exactly the occupied squares of a position, each
/// with its piece, rank by rank from a1 to h8.
pub open spec fn lists(entries: Seq<(Square, Piece)>, position: Position) -> bool {
    &&& forall|i: int|
        0 <= i < entries.len() ==> on_board((#[trigger] entries[i]).0) && piece_at(
            position,
            entries[i].0,
        ) == Some(entries[i].1)
    &&& forall|i: int, j: int|
        0 <= i < j < entries.len() ==> square_index((#[trigger] entries[i]).0) < square_index(
            (#[trigger] entries[j]).0,
        )
    &&& forall|sq: Square|
        position.contains_key(sq) ==> exists|i: int|
            0 <= i < entries.len() && (#[trigger] entries[i]).0 == sq
}

/// A chess board. Viewed as a [`Position`], it maps each occupied square to
/// the piece on it; only squares of the board are ever occupied.
#[derive(Copy, Clone, Debug, PartialEq, Eq)]
pub struct Board {
    cells: [Option<Piece>; 64],
}

impl View for Board {
    type V = Position;

    closed spec fn view(&self) -> Position {
        Map::new(
            |sq: Square| on_board(sq) && self.cells@[square_index(sq)] is Some,
            |sq: Square| self.cells@[square_index(sq)]->0,
        )
    }
}

impl Board {
    /// Every occupied square lies on the board.
    pub proof fn lemma_occupied_on_board(&self)
        ensures
            forall|sq: Square| #[trigger] self@.contains_key(sq) ==> on_board(sq),
    {
    }

    /// The empty board.
    pub fn new() -> (r: Board)
        ensures
            r@ == Map::<Square, Piece>::empty(),
    {
        let board = Board { cells: [None;64] };
        assert(board@ =~= Map::<Square, Piece>::empty());
        board
    }

    /// The piece on a square, or `None` where the square is empty or off the board.
    pub fn get(&self, sq: Square) -> (r: Option<Piece>)
        ensures
            r == piece_at(self@, sq),
    {
        if 1 <= sq.0 && sq.0 <= 8 && 1 <= sq.1 && sq.1 <= 8 {
            self.cells[(sq.1 - 1) * 8 + (sq.0 - 1)]
        } else {
            None
        }
    }

    /// Tells whether a piece stands on a square.
    pub fn contains_key(&self, sq: Square) -> (r: bool)
        ensures
            r == self@.contains_key(sq),
    {
        self.get(sq).is_some()
    }

    /// Puts a piece on a square of the board and returns what stood there before.
    pub fn insert(&mut self, sq: Square, piece: Piece) -> (r: Option<Piece>)
        requires
            on_board(sq),
        ensures
            final(self)@ == old(self)@.insert(sq, piece),
            r == piece_at(old(self)@, sq),
    {
        let index: usize = (sq.1 - 1) * 8 + (sq.0 - 1);
        let before = self.cells[index];
        self.cells[index] = Some(piece);
        proof {
            lemma_index_injective();
            assert(self@ =~= old(self)@.insert(sq, piece));
        }
        before
    }

    /// Empties a square and returns what stood there. A square off the
    /// board holds nothing, so nothing changes.
    pub fn remove(&mut self, sq: Square) -> (r: Option<Piece>)
        ensures
            final(self)@ == old(self)@.remove(sq),
            r == piece_at(old(self)@, sq),
    {
        if 1 <= sq.0 && sq.0 <= 8 && 1 <= sq.1 && sq.1 <= 8 {
            let index: usize = (sq.1 - 1) * 8 + (sq.0 - 1);
            let before = self.cells[index];
            self.cells[index] = None;
            proof {
                lemma_index_injective();
                assert(self@ =~= old(self)@.remove(sq));
            }
            before
        } else {
            proof {
                assert(self@ =~= old(self)@.remove(sq));
            }
            None
        }
    }

    /// The occupied squares with their pieces, rank by rank from a1 to h8.
    pub fn entries(&self) -> (r: Vec<(Square, Piece)>)
        ensures
            lists(r@, self@),
    {
        let mut list: Vec<(Square, Piece)> = Vec::new();
        let mut index: usize = 0;
        while index < 64
            invariant
                index <= 64,
                forall|i: int|
                    0 <= i < list@.len() ==> on_board((#[trigger] list@[i]).0) && piece_at(
                        self@,
                        list@[i].0,
                    ) == Some(list@[i].1) && square_index(list@[i].0) < index,
                forall|i: int, j: int|
                    0 <= i < j < list@.len() ==> square_index((#[trigger] list@[i]).0)
                        < square_index((#[trigger] list@[j]).0),
                forall|sq: Square|
                    self@.contains_key(sq) && square_index(sq) < index ==> exists|i: int|
                        0 <= i < list@.len() && (#[trigger] list@[i]).0 == sq,
            decreases 64 - index,
        {
            let sq: Square = (index % 8 + 1, index / 8 + 1);
            let ghost before = list@;
            match self.cells[index] {
                Some(piece) => {
                    list.push((sq, piece));
                    proof {
                        assert(list@[before.len() as int].0 == sq);
                        assert forall|other: Square|
                            self@.contains_key(other) && square_index(other) < index
                                + 1 implies exists|i: int|
                            0 <= i < list@.len() && (#[trigger] list@[i]).0 == other by {
                            if square_index(other) < index {
                                let i = choose|i: int|
                                    0 <= i < before.len() && (#[trigger] before[i]).0 == other;
                                assert(list@[i].0 == other);
                            } else {
                                assert(other == sq);
                            }
                        }
                    }
                },
                None => {
                    proof {
                        assert forall|other: Square|
                            self@.contains_key(other) && square_index(other) < index
                                + 1 implies exists|i: int|
                            0 <= i < list@.len() && (#[trigger] list@[i]).0 == other by {
                            if square_index(other) == index {
                                assert(other == sq);
                            }
                        }
                    }
                },
            }
            index += 1;
        }
        list
    }
}

/// Two squares of the board with the same index are the same square.
pub proof fn lemma_index_injective()
    ensures
        forall|a: Square, b: Square|
            on_board(a) && on_board(b) && #[trigger] square_index(a) == #[trigger] square_index(b)
                ==> a == b,
        forall|a: Square| on_board(a) ==> 0 <= #[trigger] square_index(a) < 64,
{
}

} // verus!
