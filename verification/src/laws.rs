//! Laws that relate the functions of the library to each other.

use crate::board::{piece_at, relocate, Position};
use crate::command::Command;
use crate::game::{
    annotation_of, castle_king_target, home_rank, in_check, is_candidate, is_first_candidate,
    is_listed, lemma_origin_is_first_candidate, move_outcome, moved_position, offered,
    origin_hint, origin_of, position_state, simulate_outcome, unannotated, GameView,
};
use crate::geometry::{
    between, file_letter, is_file_letter, is_rank_digit, notation_of_square, on_board,
    rank_digit, square_of_notation, Square,
};
use crate::moves::{reaches, slide_count};
use crate::notation::{
    before_check, before_promotion, castle_command, check_part, command_of_notation,
    is_piece_letter, notation_of, opening_of, optional, parts_of, promotion_part, writable,
    Opening, Parts,
};
use crate::setup::starting_position;
use crate::types::{Castle, Check, ChessError, Color, GameState, Piece, PieceType};
use vstd::prelude::*;

verus! {

/// Writing a square of the board and reading the text back gives the square.
pub proof fn lemma_square_round_trip(sq: Square)
    requires
        on_board(sq),
    ensures
        square_of_notation(notation_of_square(sq)) == Some(sq),
{
}

/// Reading a text that names a square and writing the square back gives the text.
pub proof fn lemma_notation_round_trip(text: Seq<char>)
    requires
        square_of_notation(text) is Some,
    ensures
        on_board(square_of_notation(text)->0),
        notation_of_square(square_of_notation(text)->0) == text,
{
    assert(notation_of_square(square_of_notation(text)->0) =~= text);
}

/// A move that a piece of the side offers is made by that piece, and it is
/// accepted exactly when it does not leave a king of the side attacked;
/// when it is refused, the reason is `InCheck`.
pub proof fn lemma_offered_move_outcome(position: Position, color: Color, command: Command)
    requires
        offered(position, color, command),
    ensures
        moved_position(position, color, command) == Some(
            relocate(position, origin_hint(command), command.to),
        ),
        move_outcome(position, color, command) is Ok <==> !in_check(
            relocate(position, origin_hint(command), command.to),
            color,
        ),
        move_outcome(position, color, command) is Err ==> move_outcome(position, color, command)
            == Err::<Position, ChessError>(ChessError::InCheck),
{
    assert(is_candidate(
        position,
        color,
        command.piece,
        command.from,
        command.to,
        command.takes,
        origin_hint(command),
    ));
    lemma_origin_is_first_candidate(
        position,
        color,
        command.piece,
        command.from,
        command.to,
        command.takes,
    );
}

/// The same law for a game: a move that a piece of the side to move offers
/// is accepted by the simulation exactly when it does not leave that side's
/// king attacked.
pub proof fn lemma_simulation_filters_by_check(game: GameView, command: Command)
    requires
        offered(game.pieces, game.turn, command),
    ensures
        simulate_outcome(game, command) is Ok <==> !in_check(
            relocate(game.pieces, origin_hint(command), command.to),
            game.turn,
        ),
{
    lemma_offered_move_outcome(game.pieces, game.turn, command);
}

/// A rook, a bishop or a queen does not reach a square when any piece, of
/// either side, stands strictly between.
pub proof fn lemma_blocked_line(
    piece: Piece,
    from: Square,
    to: Square,
    position: Position,
    takes: bool,
    blocker: int,
)
    requires
        slide_count(piece.piece_type) > 0,
        0 <= blocker < between(from, to).len(),
        position.contains_key(between(from, to)[blocker]),
    ensures
        !reaches(piece, from, to, position, takes),
{
}

/// Two lists that both hold exactly the legal moves of a side, each once,
/// hold the same moves and are equally long.
pub proof fn lemma_same_moves_twice(
    first: Seq<Command>,
    second: Seq<Command>,
    position: Position,
    color: Color,
)
    requires
        forall|c: Command| #[trigger] first.contains(c) <==> is_listed(position, color, c),
        forall|c: Command| #[trigger] second.contains(c) <==> is_listed(position, color, c),
        first.no_duplicates(),
        second.no_duplicates(),
    ensures
        first.to_set() == second.to_set(),
        first.len() == second.len(),
{
    assert(first.to_set() =~= second.to_set());
    first.unique_seq_to_set();
    second.unique_seq_to_set();
}

/// The parts that a text is split into are well formed and spell the text.
pub proof fn lemma_parts_spell_the_text(text: Seq<char>)
    requires
        parts_of(text) is Some,
    ensures
        parts_of(text)->0.well_formed(),
        parts_of(text)->0.spell() == text,
{
    let parts = parts_of(text)->0;
    assert(parts.spell() =~= text);
}

/// The text before the destination, spelled from its parts.
pub open spec fn spell_opening(opening: Opening) -> Seq<char> {
    optional(opening.piece) + optional(opening.file) + optional(opening.rank) + (
    if opening.takes {
        seq!['x']
    } else {
        Seq::empty()
    })
}

/// An opening that is spelled from well-formed parts is read as these parts.
proof fn lemma_opening_is_read(opening: Opening)
    requires
        opening.piece matches Some(c) ==> is_piece_letter(c),
        opening.file matches Some(c) ==> is_file_letter(c),
        opening.rank matches Some(c) ==> is_rank_digit(c),
    ensures
        opening_of(spell_opening(opening)) == Some(opening),
{
    let a = optional(opening.piece);
    let b = optional(opening.file);
    let c = optional(opening.rank);
    let d: Seq<char> = if opening.takes {
        seq!['x']
    } else {
        Seq::empty()
    };
    let text = spell_opening(opening);
    assert(text == a + b + c + d);
    assert(text.len() == a.len() + b.len() + c.len() + d.len());
    assert forall|i: int| 0 <= i < text.len() implies text[i] == (if i < a.len() {
        a[i]
    } else if i < a.len() + b.len() {
        b[i - a.len()]
    } else if i < a.len() + b.len() + c.len() {
        c[i - a.len() - b.len()]
    } else {
        d[i - a.len() - b.len() - c.len()]
    }) by {}
}

/// The end of a text that is spelled from well-formed parts is read as
/// these parts: the mark, then the promotion, then the destination.
proof fn lemma_ending_is_read(parts: Parts, head: Seq<char>)
    requires
        parts.well_formed(),
        parts.spell() == head + seq![parts.to.0, parts.to.1] + (match parts.promotion {
            Some(c) => seq!['=', c],
            None => Seq::empty(),
        }) + optional(parts.check),
    ensures
        check_part(parts.spell()) == parts.check,
        promotion_part(before_check(parts.spell())) == parts.promotion,
        before_promotion(before_check(parts.spell())) == head + seq![parts.to.0, parts.to.1],
{
    let text = parts.spell();
    let core = head + seq![parts.to.0, parts.to.1];
    let tail: Seq<char> = match parts.promotion {
        Some(c) => seq!['=', c],
        None => Seq::empty(),
    };
    let promoted = core + tail;
    assert(core.last() == parts.to.1);
    assert(core[core.len() - 2] == parts.to.0);
    assert(promoted.len() == core.len() + tail.len());
    assert(promoted.last() == if parts.promotion is Some {
        parts.promotion->0
    } else {
        parts.to.1
    });
    assert(text == promoted + optional(parts.check));
    assert(text.last() == if parts.check is Some {
        parts.check->0
    } else {
        promoted.last()
    });
    assert(check_part(text) == parts.check);
    assert(before_check(text) =~= promoted);
    if parts.promotion is Some {
        assert(promoted[promoted.len() - 2] == '=');
    } else {
        assert(promoted =~= core);
    }
    assert(promotion_part(promoted) == parts.promotion);
    assert(before_promotion(promoted) =~= core);
}

/// The text that well-formed parts spell is split into these parts again:
/// no text reads as a move in two ways.
pub proof fn lemma_spelled_parts_are_read(parts: Parts)
    requires
        parts.well_formed(),
    ensures
        parts_of(parts.spell()) == Some(parts),
{
    let opening = Opening {
        piece: parts.piece,
        file: parts.file,
        rank: parts.rank,
        takes: parts.takes,
    };
    let head = spell_opening(opening);
    let core = head + seq![parts.to.0, parts.to.1];
    lemma_opening_is_read(opening);
    lemma_ending_is_read(parts, head);
    assert(core.take(core.len() - 2) =~= head);
    assert(core[core.len() - 2] == parts.to.0);
    assert(core[core.len() - 1] == parts.to.1);
}

/// The annotation of an accepted move tells the state that the game is in
/// once the move is played: `Checkmate` for a checkmate, `Check` for a
/// check, and nothing for a game in progress or a stalemate.
pub proof fn lemma_annotation_tells_state(position: Position, color: Color, command: Command)
    requires
        move_outcome(position, color, command) is Ok,
    ensures
        ({
            let next = move_outcome(position, color, command)->Ok_0;
            let state = position_state(next, color.other());
            match annotation_of(position, color, command) {
                Some(Check::Checkmate) => state == GameState::Checkmate(color),
                Some(Check::Check) => state == GameState::Check(color.other()),
                None => state == GameState::InProgress || state == GameState::Stalemate,
            }
        }),
{
}

/// A move on the list of legal moves is accepted when it is played.
pub proof fn lemma_listed_move_is_accepted(position: Position, color: Color, command: Command)
    requires
        is_listed(position, color, command),
    ensures
        move_outcome(position, color, command) is Ok,
        offered(position, color, unannotated(command)),
{
}

/// At most one king of `color` stands on the board.
pub open spec fn at_most_one_king(position: Position, color: Color) -> bool {
    forall|a: Square, b: Square|
        #![trigger piece_at(position, a), piece_at(position, b)]
        piece_at(position, a) == Some(Piece { piece_type: PieceType::King, color }) && piece_at(
            position,
            b,
        ) == Some(Piece { piece_type: PieceType::King, color }) ==> a == b
}

/// No move gives a side a second king: where a side has at most one king
/// before a move of either side, it has at most one after it.
pub proof fn lemma_move_keeps_one_king(
    position: Position,
    mover: Color,
    command: Command,
    color: Color,
)
    requires
        at_most_one_king(position, color),
        moved_position(position, mover, command) is Some,
    ensures
        at_most_one_king(moved_position(position, mover, command)->0, color),
{
    let next = moved_position(position, mover, command)->0;
    let king = Piece { piece_type: PieceType::King, color };
    match command.castle {
        Some(side) => {
            let row = home_rank(mover);
            assert forall|a: Square, b: Square|
                #![trigger piece_at(next, a), piece_at(next, b)]
                piece_at(next, a) == Some(king) && piece_at(next, b) == Some(king) implies a
                == b by {
                if color == mover {
                    assert(piece_at(position, (5, row)) == Some(king));
                    if a != (castle_king_target(side), row) {
                        assert(piece_at(position, a) == Some(king));
                    }
                    if b != (castle_king_target(side), row) {
                        assert(piece_at(position, b) == Some(king));
                    }
                } else {
                    assert(piece_at(position, a) == Some(king));
                    assert(piece_at(position, b) == Some(king));
                }
            }
        },
        None => {
            let origin = origin_of(
                position,
                mover,
                command.piece,
                command.from,
                command.to,
                command.takes,
            )->0;
            lemma_origin_is_first_candidate(
                position,
                mover,
                command.piece,
                command.from,
                command.to,
                command.takes,
            );
            assert(origin != command.to);
            assert forall|a: Square, b: Square|
                #![trigger piece_at(next, a), piece_at(next, b)]
                piece_at(next, a) == Some(king) && piece_at(next, b) == Some(king) implies a
                == b by {
                if a == command.to {
                    assert(piece_at(position, origin) == Some(king));
                } else {
                    assert(piece_at(position, a) == Some(king));
                }
                if b == command.to {
                    assert(piece_at(position, origin) == Some(king));
                } else {
                    assert(piece_at(position, b) == Some(king));
                }
            }
        },
    }
}

/// The game starts with exactly one king on each side.
pub proof fn lemma_starting_kings(color: Color)
    ensures
        at_most_one_king(starting_position(), color),
        piece_at(starting_position(), (5, home_rank(color))) == Some(
            Piece { piece_type: PieceType::King, color },
        ),
{
}

/// A move that is read from notation and is no castling goes to a square
/// of the board, and what it says of its origin is a file or a rank of the
/// board. So it can be written unless it is a pawn's capture without a file.
pub proof fn lemma_read_command_is_on_board(text: Seq<char>)
    requires
        command_of_notation(text) is Some,
        command_of_notation(text)->0.castle is None,
    ensures
        ({
            let command = command_of_notation(text)->0;
            &&& on_board(command.to)
            &&& command.from.0 matches Some(file) ==> 1 <= file <= 8
            &&& command.from.1 matches Some(rank) ==> 1 <= rank <= 8
            &&& command.from.0 is Some || command.piece != PieceType::Pawn || !command.takes
                ==> writable(command)
        }),
{
    lemma_parts_spell_the_text(text);
}

/// The commands that notation carries in full: castling with no mark, and
/// moves to a square of the board whose origin is what notation writes of
/// it, the file for a capturing pawn and nothing for any other move.
pub open spec fn carried_in_full(command: Command) -> bool {
    match command.castle {
        Some(side) => command == castle_command(side),
        None => {
            &&& on_board(command.to)
            &&& command.from.1 is None
            &&& if command.piece == PieceType::Pawn && command.takes {
                command.from.0 is Some && 1 <= command.from.0->0 <= 8
            } else {
                command.from.0 is None
            }
        },
    }
}

/// The parts that spell the text of a command which is no castling.
pub open spec fn parts_of_command(command: Command) -> Parts {
    Parts {
        piece: if command.piece != PieceType::Pawn {
            Some(Piece::kind_letter(command.piece))
        } else {
            None
        },
        file: if command.piece == PieceType::Pawn && command.takes {
            Some(file_letter(command.from.0->0))
        } else {
            None
        },
        rank: None,
        takes: command.takes,
        to: (file_letter(command.to.0), rank_digit(command.to.1)),
        promotion: None,
        check: match command.check {
            Some(Check::Check) => Some('+'),
            Some(Check::Checkmate) => Some('#'),
            None => None,
        },
    }
}

/// A command that notation carries in full is read back from its own text.
pub proof fn lemma_written_command_reads_back(command: Command)
    requires
        carried_in_full(command),
    ensures
        command_of_notation(notation_of(command)) == Some(command),
{
    let text = notation_of(command);
    match command.castle {
        Some(side) => {
            assert(text =~= match side {
                Castle::KingSide => seq!['O', '-', 'O'],
                Castle::QueenSide => seq!['O', '-', 'O', '-', 'O'],
            });
            assert(seq!['O', '-', 'O'].len() != seq!['O', '-', 'O', '-', 'O'].len());
        },
        None => {
            let parts = parts_of_command(command);
            assert(parts.well_formed());
            assert(parts.spell() =~= text);
            lemma_spelled_parts_are_read(parts);
            assert(text.len() >= 2);
            assert(text.last() != 'O');
            assert(seq!['O', '-', 'O'].last() == 'O');
            assert(seq!['O', '-', 'O', '-', 'O'].last() == 'O');
            assert(parts.command() == Some(command));
        },
    }
}

} // verus!
