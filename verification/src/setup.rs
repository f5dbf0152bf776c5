//! The starting position.

use crate::board::{Board, Position};
use crate::game::{in_check, king_attacked, Game};
use crate::geometry::{on_board, square_index, Square};
use crate::types::{Color, GameState, Piece, PieceType};
use vstd::prelude::*;

verus! {

/// The kind of piece that starts on a file of the back rank.
pub open spec fn back_rank_kind(file: usize) -> PieceType {
    if file == 1 || file == 8 {
        PieceType::Rook
    } else if file == 2 || file == 7 {
        PieceType::Knight
    } else if file == 3 || file == 6 {
        PieceType::Bishop
    } else if file == 4 {
        PieceType::Queen
    } else {
        PieceType::King
    }
}

/// The piece that starts on a square of the first two or the last two ranks.
pub open spec fn starting_piece(sq: Square) -> Piece {
    Piece {
        piece_type: if sq.1 == 2 || sq.1 == 7 {
            PieceType::Pawn
        } else {
            back_rank_kind(sq.0)
        },
        color: if sq.1 <= 2 {
            Color::White
        } else {
            Color::Black
        },
    }
}

/// The position from which every game starts: White on ranks 1 and 2,
/// Black on ranks 7 and 8, pawns in front.
pub open spec fn starting_position() -> Position {
    Map::new(
        |sq: Square| on_board(sq) && (sq.1 <= 2 || sq.1 >= 7),
        |sq: Square| starting_piece(sq),
    )
}

/// The square at a place in board order: the inverse of [`square_index`].
pub open spec fn square_at(index: int) -> Square {
    ((index % 8 + 1) as usize, (index / 8 + 1) as usize)
}

/// The number of pieces of `color` on the first `count` squares in board order.
pub open spec fn count_before(position: Position, color: Color, count: nat) -> nat
    decreases count,
{
    if count == 0 {
        0
    } else {
        let rest = count_before(position, color, (count - 1) as nat);
        if position.contains_key(square_at(count - 1)) && position[square_at(count - 1)].color
            == color {
            rest + 1
        } else {
            rest
        }
    }
}

/// The number of pieces of `color` on the board.
pub open spec fn count_pieces(position: Position, color: Color) -> nat {
    count_before(position, color, 64)
}

/// In the starting position the first `count` squares hold `count` white
/// pieces up to 16, and all but the first 48 of them as black pieces.
proof fn lemma_starting_counts(count: nat)
    requires
        count <= 64,
    ensures
        count_before(starting_position(), Color::White, count) == if count <= 16 {
            count
        } else {
            16
        },
        count_before(starting_position(), Color::Black, count) == if count <= 48 {
            0
        } else {
            count - 48
        },
    decreases count,
{
    if count > 0 {
        lemma_starting_counts((count - 1) as nat);
        let sq = square_at(count - 1);
        assert(on_board(sq));
        assert(sq.1 == (count - 1) / 8 + 1);
    }
}

/// Each side starts with sixteen pieces, and White does not start in check.
pub proof fn lemma_starting_position()
    ensures
        count_pieces(starting_position(), Color::White) == 16,
        count_pieces(starting_position(), Color::Black) == 16,
        !in_check(starting_position(), Color::White),
        !in_check(starting_position(), Color::Black),
{
    lemma_starting_counts(64);
    let start = starting_position();
    assert forall|color: Color, king: Square, attacker: Square|
        !king_attacked(start, color, king, attacker) by {
        if king_attacked(start, color, king, attacker) {
            assert(king.0 == 5);
            assert(start[attacker] == starting_piece(attacker));
        }
    }
}

/// The kind of piece that starts on a file of the back rank.
fn back_rank_piece(file: usize) -> (r: PieceType)
    requires
        1 <= file <= 8,
    ensures
        r == back_rank_kind(file),
{
    if file == 1 || file == 8 {
        PieceType::Rook
    } else if file == 2 || file == 7 {
        PieceType::Knight
    } else if file == 3 || file == 6 {
        PieceType::Bishop
    } else if file == 4 {
        PieceType::Queen
    } else {
        PieceType::King
    }
}

impl Game {
    /// A game in the starting position, White to move, in progress. Each
    /// side has its sixteen pieces and neither king is attacked.
    pub fn new() -> (r: Game)
        ensures
            r.turn == Color::White,
            r.state == GameState::InProgress,
            r.pieces@ == starting_position(),
            count_pieces(r.pieces@, Color::White) == 16,
            count_pieces(r.pieces@, Color::Black) == 16,
            !in_check(r.pieces@, Color::White),
            !in_check(r.pieces@, Color::Black),
    {
        let mut pieces = Board::new();
        let mut file: usize = 1;
        while file <= 8
            invariant
                1 <= file <= 9,
                forall|sq: Square|
                    pieces@.contains_key(sq) <==> starting_position().contains_key(sq) && sq.0
                        < file,
                forall|sq: Square|
                    pieces@.contains_key(sq) ==> pieces@[sq] == starting_piece(sq),
            decreases 9 - file,
        {
            let kind = back_rank_piece(file);
            pieces.insert((file, 1), Piece::new(kind, Color::White));
            pieces.insert((file, 2), Piece::new(PieceType::Pawn, Color::White));
            pieces.insert((file, 7), Piece::new(PieceType::Pawn, Color::Black));
            pieces.insert((file, 8), Piece::new(kind, Color::Black));
            file += 1;
        }
        proof {
            assert(pieces@ =~= starting_position());
            lemma_starting_position();
        }
        Game { turn: Color::White, pieces, state: GameState::InProgress }
    }
}

} // verus!
