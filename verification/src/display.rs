//! Text for people: the board as a grid of letters, and the reasons for
//! which a move is refused.

use crate::board::{piece_at, Position};
use crate::game::Game;
use crate::geometry::Square;
use crate::text::push_char;
use crate::types::{ChessError, Piece};
use vstd::prelude::*;

verus! {

/// The line of dashes that separates two ranks.
pub open spec fn rule_text() -> Seq<char> {
    Seq::new(17, |i: int| '-')
}

/// The character that stands for a square: the letter of the piece on it,
/// the same for both sides, or a blank.
pub open spec fn square_char(position: Position, sq: Square) -> char {
    match piece_at(position, sq) {
        Some(piece) => Piece::kind_letter(piece.piece_type),
        None => ' ',
    }
}

/// One rank as text: its eight squares from file a to file h, each between
/// two bars.
pub open spec fn rank_text(position: Position, rank: usize) -> Seq<char> {
    Seq::new(
        17,
        |i: int|
            if i % 2 == 0 {
                '|'
            } else {
                square_char(position, (((i + 1) / 2) as usize, rank))
            },
    )
}

/// The first `count` ranks from the top of the board, rank 8 first, each
/// followed by a line of dashes.
pub open spec fn ranks_text(position: Position, count: nat) -> Seq<char>
    decreases count,
{
    if count == 0 {
        Seq::empty()
    } else {
        ranks_text(position, (count - 1) as nat) + rank_text(position, (9 - count) as usize)
            + seq!['\n'] + rule_text() + seq!['\n']
    }
}

/// The board as text: a line of dashes, the eight ranks from rank 8 down to
/// rank 1, and an empty line.
pub open spec fn board_text(position: Position) -> Seq<char> {
    rule_text() + seq!['\n'] + ranks_text(position, 8) + seq!['\n']
}

/// The sentence that explains an error.
pub open spec fn error_text(error: ChessError) -> Seq<char> {
    match error {
        ChessError::InvalidMove => "Invalid move"@,
        ChessError::InCheck =>
            "Cannot move into check. If you are in check, you must move out of check"@,
    }
}

/// Appends a line of dashes.
fn push_rule(text: &mut String)
    ensures
        final(text)@ == old(text)@ + rule_text(),
{
    let mut i: usize = 0;
    while i < 17
        invariant
            i <= 17,
            text@ == old(text)@ + rule_text().take(i as int),
        decreases 17 - i,
    {
        push_char(text, '-');
        assert(text@ =~= old(text)@ + rule_text().take(i + 1));
        i += 1;
    }
    assert(rule_text().take(17) =~= rule_text());
}

impl ChessError {
    /// The sentence that explains the error.
    pub fn message(&self) -> (r: String)
        ensures
            r@ == error_text(*self),
    {
        match self {
            ChessError::InvalidMove => "Invalid move".to_owned(),
            ChessError::InCheck => {
                let text =
                    "Cannot move into check. If you are in check, you must move out of check";
                text.to_owned()
            },
        }
    }
}

impl Game {
    /// Appends one rank of the board.
    fn push_rank(&self, text: &mut String, rank: usize)
        ensures
            final(text)@ == old(text)@ + rank_text(self.pieces@, rank),
    {
        push_char(text, '|');
        assert(text@ =~= old(text)@ + rank_text(self.pieces@, rank).take(1));
        let mut col: usize = 1;
        while col <= 8
            invariant
                1 <= col <= 9,
                text@ == old(text)@ + rank_text(self.pieces@, rank).take(2 * col - 1),
            decreases 9 - col,
        {
            let c = match self.pieces.get((col, rank)) {
                Some(piece) => piece.letter(),
                None => ' ',
            };
            push_char(text, c);
            push_char(text, '|');
            assert(text@ =~= old(text)@ + rank_text(self.pieces@, rank).take(2 * col + 1));
            col += 1;
        }
        assert(rank_text(self.pieces@, rank).take(17) =~= rank_text(self.pieces@, rank));
    }

    /// The board as text, rank 8 at the top: each square shows the letter
    /// of its piece or a blank, between bars, and lines of dashes separate
    /// the ranks.
    pub fn render(&self) -> (r: String)
        ensures
            r@ == board_text(self.pieces@),
    {
        let mut board = String::new();
        push_rule(&mut board);
        push_char(&mut board, '\n');
        let mut row: usize = 1;
        while row <= 8
            invariant
                1 <= row <= 9,
                board@ == rule_text() + seq!['\n'] + ranks_text(self.pieces@, (row - 1) as nat),
            decreases 9 - row,
        {
            let ghost before = board@;
            self.push_rank(&mut board, 9 - row);
            push_char(&mut board, '\n');
            push_rule(&mut board);
            push_char(&mut board, '\n');
            assert(board@ =~= rule_text() + seq!['\n'] + ranks_text(self.pieces@, row as nat)) by {
                assert(ranks_text(self.pieces@, row as nat) == ranks_text(
                    self.pieces@,
                    (row - 1) as nat,
                ) + rank_text(self.pieces@, (9 - row) as usize) + seq!['\n'] + rule_text()
                    + seq!['\n']);
            }
            row += 1;
        }
        push_char(&mut board, '\n');
        board
    }
}

} // verus!
