//! The game: a position, the side to move and the state of play, with the
//! rules that decide which moves are accepted.

use crate::board::{lists, piece_at, relocate, Board, Position};
use crate::command::Command;
use crate::geometry::{coords_match_from, matches_origin, on_board, square_index, Square};
use crate::moves::{clear_between, offers, path_clear, reaches, record};
use crate::types::{Castle, Check, ChessError, Color, GameState, Piece, PieceType};
use vstd::prelude::*;

verus! {

/// A game of chess: the board, the side to move, and where the game stands.
#[derive(Copy, Clone, Debug, PartialEq, Eq)]
pub struct Game {
    pub turn: Color,
    pub pieces: Board,
    pub state: GameState,
}

/// A game as contracts see it: the board as a [`Position`].
pub struct GameView {
    pub turn: Color,
    pub pieces: Position,
    pub state: GameState,
}

impl View for Game {
    type V = GameView;

    open spec fn view(&self) -> GameView {
        GameView { turn: self.turn, pieces: self.pieces@, state: self.state }
    }
}

/// The piece on `attacker` belongs to the other side than `color` and
/// reaches, to capture, the square `king`, on which a king of `color` stands.
pub open spec fn king_attacked(
    position: Position,
    color: Color,
    king: Square,
    attacker: Square,
) -> bool {
    &&& piece_at(position, king) == Some(Piece { piece_type: PieceType::King, color })
    &&& position.contains_key(attacker)
    &&& position[attacker].color != color
    &&& reaches(position[attacker], attacker, king, position, true)
}

/// A king of `color` is attacked by a piece of the other side. A side
/// without a king is never in check.
pub open spec fn in_check(position: Position, color: Color) -> bool {
    exists|king: Square, attacker: Square| king_attacked(position, color, king, attacker)
}

/// The rank on which the king and the rooks of a side start.
pub open spec fn home_rank(color: Color) -> usize {
    match color {
        Color::White => 1,
        Color::Black => 8,
    }
}

/// The file on which the rook of a castling side starts.
pub open spec fn castle_rook_file(side: Castle) -> usize {
    match side {
        Castle::QueenSide => 1,
        Castle::KingSide => 8,
    }
}

/// The file on which the king ends when it castles.
pub open spec fn castle_king_target(side: Castle) -> usize {
    match side {
        Castle::QueenSide => 3,
        Castle::KingSide => 7,
    }
}

/// The file on which the rook ends when the king castles.
pub open spec fn castle_rook_target(side: Castle) -> usize {
    match side {
        Castle::QueenSide => 4,
        Castle::KingSide => 6,
    }
}

/// Whether the position lets `color` castle on `side`: its king and that
/// rook stand on their home squares and every square between them is empty.
/// Whether any of these squares is attacked is not asked here.
pub open spec fn can_castle(position: Position, color: Color, side: Castle) -> bool {
    let row = home_rank(color);
    &&& piece_at(position, (5, row)) == Some(Piece { piece_type: PieceType::King, color })
    &&& piece_at(position, (castle_rook_file(side), row)) == Some(
        Piece { piece_type: PieceType::Rook, color },
    )
    &&& clear_between(position, (5, row), (castle_rook_file(side), row))
}

/// The position after `color` has castled on `side`.
pub open spec fn castled(position: Position, color: Color, side: Castle) -> Position {
    let row = home_rank(color);
    position.remove((5, row)).remove((castle_rook_file(side), row)).insert(
        (castle_king_target(side), row),
        Piece { piece_type: PieceType::King, color },
    ).insert((castle_rook_target(side), row), Piece { piece_type: PieceType::Rook, color })
}

/// Whether the piece on `sq` can be the one that a move names: it is of the
/// kind and side asked for, agrees with the origin hints, and reaches the
/// destination.
pub open spec fn is_candidate(
    position: Position,
    color: Color,
    kind: PieceType,
    from: (Option<usize>, Option<usize>),
    to: Square,
    takes: bool,
    sq: Square,
) -> bool {
    &&& piece_at(position, sq) == Some(Piece { piece_type: kind, color })
    &&& matches_origin(sq, from)
    &&& reaches(Piece { piece_type: kind, color }, sq, to, position, takes)
}

/// `sq` is the first candidate when the board is read rank by rank from a1.
pub open spec fn is_first_candidate(
    position: Position,
    color: Color,
    kind: PieceType,
    from: (Option<usize>, Option<usize>),
    to: Square,
    takes: bool,
    sq: Square,
) -> bool {
    &&& is_candidate(position, color, kind, from, to, takes, sq)
    &&& forall|other: Square| #[trigger]
        is_candidate(position, color, kind, from, to, takes, other) ==> square_index(sq)
            <= square_index(other)
}

/// The square from which a move is made: the first candidate in board
/// order, or `None` where no piece can make the move.
pub open spec fn origin_of(
    position: Position,
    color: Color,
    kind: PieceType,
    from: (Option<usize>, Option<usize>),
    to: Square,
    takes: bool,
) -> Option<Square> {
    if exists|sq: Square| is_candidate(position, color, kind, from, to, takes, sq) {
        Some(choose|sq: Square| is_first_candidate(position, color, kind, from, to, takes, sq))
    } else {
        None
    }
}

/// Among the candidates for a move there is a first one in board order.
proof fn lemma_first_candidate_exists(
    position: Position,
    color: Color,
    kind: PieceType,
    from: (Option<usize>, Option<usize>),
    to: Square,
    takes: bool,
    sq: Square,
)
    requires
        is_candidate(position, color, kind, from, to, takes, sq),
    ensures
        exists|first: Square| is_first_candidate(position, color, kind, from, to, takes, first),
    decreases square_index(sq),
{
    if !is_first_candidate(position, color, kind, from, to, takes, sq) {
        let other = choose|other: Square|
            is_candidate(position, color, kind, from, to, takes, other) && square_index(other)
                < square_index(sq);
        lemma_first_candidate_exists(position, color, kind, from, to, takes, other);
    }
}

/// The origin of a move, where it has one, is the first candidate in board
/// order; it has none exactly where there is no candidate.
pub proof fn lemma_origin_is_first_candidate(
    position: Position,
    color: Color,
    kind: PieceType,
    from: (Option<usize>, Option<usize>),
    to: Square,
    takes: bool,
)
    ensures
        origin_of(position, color, kind, from, to, takes) matches Some(origin)
            ==> is_first_candidate(position, color, kind, from, to, takes, origin),
        origin_of(position, color, kind, from, to, takes) is None <==> forall|sq: Square|
            !is_candidate(position, color, kind, from, to, takes, sq),
{
    if exists|sq: Square| is_candidate(position, color, kind, from, to, takes, sq) {
        let sq = choose|sq: Square| is_candidate(position, color, kind, from, to, takes, sq);
        lemma_first_candidate_exists(position, color, kind, from, to, takes, sq);
    }
}

/// The position that a move leads to before the safety of the mover's king
/// is looked at, or `None` where the position does not admit the move.
///
/// A castling move needs the king as its piece and a position that lets
/// the side castle. Any other move needs a capture marker exactly when its
/// destination is occupied, and a piece that can make it; where several
/// can, the first in board order moves.
pub open spec fn moved_position(position: Position, color: Color, command: Command) -> Option<
    Position,
> {
    match command.castle {
        Some(side) => {
            if command.piece == PieceType::King && can_castle(position, color, side) {
                Some(castled(position, color, side))
            } else {
                None
            }
        },
        None => {
            if position.contains_key(command.to) != command.takes {
                None
            } else {
                match origin_of(
                    position,
                    color,
                    command.piece,
                    command.from,
                    command.to,
                    command.takes,
                ) {
                    Some(origin) => Some(relocate(position, origin, command.to)),
                    None => None,
                }
            }
        },
    }
}

/// What becomes of a move by `color` in a position: the position it leads
/// to, `InvalidMove` where the position does not admit it, `InCheck` where
/// it would leave a king of `color` attacked.
pub open spec fn move_outcome(position: Position, color: Color, command: Command) -> Result<
    Position,
    ChessError,
> {
    match moved_position(position, color, command) {
        None => Err(ChessError::InvalidMove),
        Some(next) => if in_check(next, color) {
            Err(ChessError::InCheck)
        } else {
            Ok(next)
        },
    }
}

/// What becomes of a move by the side to move: the game with the new
/// position, the same side to move and the same state, or the reason for
/// which the move is refused.
pub open spec fn simulate_outcome(game: GameView, command: Command) -> Result<
    GameView,
    ChessError,
> {
    match move_outcome(game.pieces, game.turn, command) {
        Ok(next) => Ok(GameView { turn: game.turn, pieces: next, state: game.state }),
        Err(e) => Err(e),
    }
}

impl Game {
    /// A game that starts from the given board with the given side to move.
    pub fn from(pieces: Board, turn: Color) -> (r: Game)
        ensures
            r.pieces == pieces,
            r.turn == turn,
            r.state == GameState::InProgress,
    {
        Game { pieces, turn, state: GameState::InProgress }
    }

    /// Tells whether a king of the given side is attacked.
    pub fn is_check(&self, color_in_check: Color) -> (r: bool)
        ensures
            r == in_check(self.pieces@, color_in_check),
    {
        let entries = self.pieces.entries();
        let mut k: usize = 0;
        while k < entries.len()
            invariant
                k <= entries@.len(),
                lists(entries@, self.pieces@),
                forall|i: int, j: int|
                    0 <= i < k && 0 <= j < entries@.len() ==> !king_attacked(
                        self.pieces@,
                        color_in_check,
                        (#[trigger] entries@[i]).0,
                        (#[trigger] entries@[j]).0,
                    ),
            decreases entries@.len() - k,
        {
            let (king_coords, king) = entries[k];
            if king.piece_type == PieceType::King && king.color == color_in_check {
                let mut a: usize = 0;
                while a < entries.len()
                    invariant
                        a <= entries@.len(),
                        k < entries@.len(),
                        entries@[k as int] == (king_coords, king),
                        king.piece_type == PieceType::King,
                        king.color == color_in_check,
                        lists(entries@, self.pieces@),
                        forall|j: int|
                            0 <= j < a ==> !king_attacked(
                                self.pieces@,
                                color_in_check,
                                king_coords,
                                (#[trigger] entries@[j]).0,
                            ),
                    decreases entries@.len() - a,
                {
                    let (piece_coords, piece) = entries[a];
                    if piece.color != color_in_check && piece.can_move(
                        piece_coords,
                        king_coords,
                        &self.pieces,
                        true,
                    ) {
                        assert(king_attacked(
                            self.pieces@,
                            color_in_check,
                            king_coords,
                            piece_coords,
                        ));
                        return true;
                    }
                    a += 1;
                }
            }
            k += 1;
        }
        proof {
            assert forall|king: Square, attacker: Square|
                !king_attacked(self.pieces@, color_in_check, king, attacker) by {
                if king_attacked(self.pieces@, color_in_check, king, attacker) {
                    let i = choose|i: int|
                        0 <= i < entries@.len() && (#[trigger] entries@[i]).0 == king;
                    let j = choose|j: int|
                        0 <= j < entries@.len() && (#[trigger] entries@[j]).0 == attacker;
                    assert(!king_attacked(
                        self.pieces@,
                        color_in_check,
                        entries@[i].0,
                        entries@[j].0,
                    ));
                }
            }
        }
        false
    }
}

impl Game {
    /// Finds the piece that makes a move which is no castling: the first, in
    /// board order, of the pieces of the side to move that are of the kind
    /// asked for, agree with the origin hints and reach the destination.
    fn find_origin(&self, input: &Command) -> (r: Option<Square>)
        ensures
            r == origin_of(
                self.pieces@,
                self.turn,
                input.piece,
                input.from,
                input.to,
                input.takes,
            ),
            r matches Some(sq) ==> is_candidate(
                self.pieces@,
                self.turn,
                input.piece,
                input.from,
                input.to,
                input.takes,
                sq,
            ),
    {
        let entries = self.pieces.entries();
        let mut i: usize = 0;
        while i < entries.len()
            invariant
                i <= entries@.len(),
                lists(entries@, self.pieces@),
                forall|j: int|
                    0 <= j < i ==> !is_candidate(
                        self.pieces@,
                        self.turn,
                        input.piece,
                        input.from,
                        input.to,
                        input.takes,
                        (#[trigger] entries@[j]).0,
                    ),
            decreases entries@.len() - i,
        {
            let (coords, candidate) = entries[i];
            if coords_match_from(coords, input.from) && candidate.piece_type == input.piece
                && candidate.color == self.turn && candidate.can_move(
                coords,
                input.to,
                &self.pieces,
                input.takes,
            ) {
                proof {
                    assert forall|other: Square| #[trigger]
                        is_candidate(
                            self.pieces@,
                            self.turn,
                            input.piece,
                            input.from,
                            input.to,
                            input.takes,
                            other,
                        ) implies square_index(coords) <= square_index(other) by {
                        let j = choose|j: int|
                            0 <= j < entries@.len() && (#[trigger] entries@[j]).0 == other;
                        assert(j >= i);
                    }
                    assert(is_first_candidate(
                        self.pieces@,
                        self.turn,
                        input.piece,
                        input.from,
                        input.to,
                        input.takes,
                        coords,
                    ));
                }
                return Some(coords);
            }
            i += 1;
        }
        proof {
            assert forall|sq: Square|
                !is_candidate(
                    self.pieces@,
                    self.turn,
                    input.piece,
                    input.from,
                    input.to,
                    input.takes,
                    sq,
                ) by {
                if self.pieces@.contains_key(sq) {
                    let j = choose|j: int|
                        0 <= j < entries@.len() && (#[trigger] entries@[j]).0 == sq;
                    assert(!is_candidate(
                        self.pieces@,
                        self.turn,
                        input.piece,
                        input.from,
                        input.to,
                        input.takes,
                        entries@[j].0,
                    ));
                }
            }
        }
        None
    }

    /// Castles on the given side if the position lets the side to move do so.
    fn castle_board(&self, side: Castle) -> (r: Option<Board>)
        ensures
            r matches Some(board) ==> can_castle(self.pieces@, self.turn, side) && board@
                == castled(self.pieces@, self.turn, side),
            r is None ==> !can_castle(self.pieces@, self.turn, side),
    {
        let rook_col: usize = match side {
            Castle::QueenSide => 1,
            Castle::KingSide => 8,
        };
        let home_row: usize = match self.turn {
            Color::White => 1,
            Color::Black => 8,
        };
        let (from_king, from_rook) = ((5usize, home_row), (rook_col, home_row));
        let king_home = match self.pieces.get(from_king) {
            Some(piece) => piece.piece_type == PieceType::King && piece.color == self.turn,
            None => false,
        };
        let rook_home = match self.pieces.get(from_rook) {
            Some(piece) => piece.piece_type == PieceType::Rook && piece.color == self.turn,
            None => false,
        };
        if !king_home || !rook_home {
            return None;
        }
        if !path_clear(&self.pieces, from_king, from_rook) {
            return None;
        }
        let (to_king, to_rook): (Square, Square) = match side {
            Castle::QueenSide => ((3, home_row), (4, home_row)),
            Castle::KingSide => ((7, home_row), (6, home_row)),
        };
        let mut board = self.pieces;
        board.remove(from_king);
        board.remove(from_rook);
        board.insert(to_king, Piece::new(PieceType::King, self.turn));
        board.insert(to_rook, Piece::new(PieceType::Rook, self.turn));
        Some(board)
    }

    /// Tries a move of the side to move on a copy of the game, which is left
    /// as it is.
    ///
    /// Returns the game after the move, with the side to move and the state
    /// unchanged, or the reason for which the move is refused: `InvalidMove`
    /// where the position does not admit it, `InCheck` where it would leave
    /// the mover's king attacked. When castling, only the final position is
    /// tested for an attack on the king, not the squares that the king
    /// leaves and crosses.
    pub fn simulate_move(&self, input: &Command) -> (r: Result<Game, ChessError>)
        ensures
            match r {
                Ok(next) => simulate_outcome(self@, *input) == Ok::<GameView, ChessError>(next@),
                Err(e) => simulate_outcome(self@, *input) == Err::<GameView, ChessError>(e),
            },
    {
        let mut new_board = *self;
        match input.castle {
            Some(side) => {
                if input.piece != PieceType::King {
                    return Err(ChessError::InvalidMove);
                }
                match self.castle_board(side) {
                    Some(board) => {
                        new_board.pieces = board;
                    },
                    None => {
                        return Err(ChessError::InvalidMove);
                    },
                }
            },
            None => {
                if self.pieces.contains_key(input.to) != input.takes {
                    return Err(ChessError::InvalidMove);
                }
                match self.find_origin(input) {
                    Some(origin) => {
                        let moved = new_board.pieces.remove(origin);
                        match moved {
                            Some(piece) => {
                                new_board.pieces.insert(input.to, piece);
                            },
                            None => {},
                        }
                    },
                    None => {
                        return Err(ChessError::InvalidMove);
                    },
                }
            },
        }
        if new_board.is_check(new_board.turn) {
            return Err(ChessError::InCheck);
        }
        Ok(new_board)
    }
}

/// The square that a command names as its origin, where it names both parts.
pub open spec fn origin_hint(command: Command) -> Square {
    (command.from.0->0, command.from.1->0)
}

/// The command without its annotation.
pub open spec fn unannotated(command: Command) -> Command {
    Command { check: None, ..command }
}

/// Whether `command` is a move that a piece of `color` offers in the
/// position: the piece stands on the origin that the command names in
/// full, and the move is pseudo-legal for it.
pub open spec fn offered(position: Position, color: Color, command: Command) -> bool {
    &&& command.from.0 is Some
    &&& command.from.1 is Some
    &&& piece_at(position, origin_hint(command)) == Some(
        Piece { piece_type: command.piece, color },
    )
    &&& offers(
        Piece { piece_type: command.piece, color },
        origin_hint(command),
        position,
        command,
    )
}

/// Whether `command` is a legal move of `color`: offered by one of its
/// pieces and accepted when tried.
pub open spec fn is_legal(position: Position, color: Color, command: Command) -> bool {
    offered(position, color, command) && move_outcome(position, color, command) is Ok
}

/// Whether `color` has any legal move.
pub open spec fn has_legal_move(position: Position, color: Color) -> bool {
    exists|command: Command| is_legal(position, color, command)
}

/// Where the game stands when `to_move` is to play in the position.
/// `Checkmate` carries the side that gave the mate, `Check` the side whose
/// king is attacked.
pub open spec fn position_state(position: Position, to_move: Color) -> GameState {
    if in_check(position, to_move) {
        if has_legal_move(position, to_move) {
            GameState::Check(to_move)
        } else {
            GameState::Checkmate(to_move.other())
        }
    } else {
        if has_legal_move(position, to_move) {
            GameState::InProgress
        } else {
            GameState::Stalemate
        }
    }
}

/// The annotation that a move of `color` earns: `Checkmate` or `Check`
/// where the move is accepted and leaves the other side so, nothing otherwise.
pub open spec fn annotation_of(position: Position, color: Color, command: Command) -> Option<
    Check,
> {
    match move_outcome(position, color, command) {
        Ok(next) => match position_state(next, color.other()) {
            GameState::Checkmate(_) => Some(Check::Checkmate),
            GameState::Check(_) => Some(Check::Check),
            _ => None,
        },
        Err(_) => None,
    }
}

impl Game {
    /// Tells whether the given side has a legal move, whichever side is to move.
    pub fn has_legal_move(&self, color: Color) -> (r: bool)
        ensures
            r == has_legal_move(self.pieces@, color),
    {
        let game = Game::from(self.pieces, color);
        let entries = self.pieces.entries();
        let mut i: usize = 0;
        while i < entries.len()
            invariant
                i <= entries@.len(),
                game@.pieces == self.pieces@,
                game@.turn == color,
                lists(entries@, self.pieces@),
                forall|c: Command, j: int|
                    0 <= j < i && origin_hint(c) == (#[trigger] entries@[j]).0
                        ==> !#[trigger] is_legal(self.pieces@, color, c),
            decreases entries@.len() - i,
        {
            let (coords, piece) = entries[i];
            if piece.color == color {
                let moves = piece.get_pseudo_legal_moves(coords, &self.pieces);
                let mut k: usize = 0;
                while k < moves.len()
                    invariant
                        k <= moves@.len(),
                        game@.pieces == self.pieces@,
                        game@.turn == color,
                        piece.color == color,
                        piece_at(self.pieces@, coords) == Some(piece),
                        forall|c: Command|
                            #[trigger] moves@.contains(c) <==> offers(
                                piece,
                                coords,
                                self.pieces@,
                                c,
                            ),
                        forall|b: int|
                            0 <= b < k ==> move_outcome(
                                self.pieces@,
                                color,
                                #[trigger] moves@[b],
                            ) is Err,
                    decreases moves@.len() - k,
                {
                    if game.simulate_move(&moves[k]).is_ok() {
                        proof {
                            let c = moves@[k as int];
                            assert(moves@.contains(c));
                            assert(is_legal(self.pieces@, color, c));
                        }
                        return true;
                    }
                    k += 1;
                }
                proof {
                    assert forall|c: Command| origin_hint(c) == coords implies !#[trigger] is_legal(
                        self.pieces@,
                        color,
                        c,
                    ) by {
                        if is_legal(self.pieces@, color, c) {
                            assert(moves@.contains(c));
                            let b = choose|b: int| 0 <= b < moves@.len() && moves@[b] == c;
                            assert(move_outcome(self.pieces@, color, moves@[b]) is Err);
                        }
                    }
                }
            }
            i += 1;
        }
        proof {
            assert forall|c: Command| !is_legal(self.pieces@, color, c) by {
                if is_legal(self.pieces@, color, c) {
                    let j = choose|j: int|
                        0 <= j < entries@.len() && (#[trigger] entries@[j]).0 == origin_hint(c);
                    assert(origin_hint(c) == entries@[j].0);
                }
            }
        }
        false
    }

    /// The annotation that a move of the side to move earns: `Checkmate` or
    /// `Check` where the move is accepted and leaves the other side so,
    /// nothing otherwise.
    pub fn annotation(&self, command: &Command) -> (r: Option<Check>)
        ensures
            r == annotation_of(self.pieces@, self.turn, *command),
    {
        match self.simulate_move(command) {
            Ok(next) => {
                let rival = self.turn.opposite();
                if next.is_check(rival) {
                    if next.has_legal_move(rival) {
                        Some(Check::Check)
                    } else {
                        Some(Check::Checkmate)
                    }
                } else {
                    None
                }
            },
            Err(_) => None,
        }
    }
}

/// Whether `command` is a legal move of `color` that carries the
/// annotation it earns.
pub open spec fn is_listed(position: Position, color: Color, command: Command) -> bool {
    is_legal(position, color, unannotated(command)) && command.check == annotation_of(
        position,
        color,
        command,
    )
}

/// Whether `sq` is among the first `count` squares of a list of entries.
pub open spec fn listed_before(entries: Seq<(Square, Piece)>, count: int, sq: Square) -> bool {
    exists|j: int| 0 <= j < count && (#[trigger] entries[j]).0 == sq
}

/// Whether `command` is among the first `count` commands of a list.
pub open spec fn seen_before(moves: Seq<Command>, count: int, command: Command) -> bool {
    exists|b: int| 0 <= b < count && #[trigger] moves[b] == command
}

impl Game {
    /// The legal moves of the given side, whichever side is to move: the
    /// moves that its pieces offer and that do not leave its own king
    /// attacked, each with its origin in full and with the annotation it
    /// earns. No move is listed twice.
    pub fn get_all_possible_moves(&self, color: Color) -> (r: Vec<Command>)
        ensures
            forall|c: Command| #[trigger] r@.contains(c) <==> is_listed(self.pieces@, color, c),
            r@.no_duplicates(),
    {
        let game = Game::from(self.pieces, color);
        let entries = self.pieces.entries();
        let mut list: Vec<Command> = Vec::new();
        let mut i: usize = 0;
        while i < entries.len()
            invariant
                i <= entries@.len(),
                game@.pieces == self.pieces@,
                game@.turn == color,
                lists(entries@, self.pieces@),
                forall|c: Command|
                    #[trigger] list@.contains(c) <==> is_listed(self.pieces@, color, c)
                        && listed_before(entries@, i as int, origin_hint(c)),
                list@.no_duplicates(),
            decreases entries@.len() - i,
        {
            let (coords, piece) = entries[i];
            if piece.color == color {
                let moves = piece.get_possible_moves(coords, &self.pieces);
                let mut k: usize = 0;
                while k < moves.len()
                    invariant
                        k <= moves@.len(),
                        i < entries@.len(),
                        entries@[i as int] == (coords, piece),
                        game@.pieces == self.pieces@,
                        game@.turn == color,
                        piece.color == color,
                        piece_at(self.pieces@, coords) == Some(piece),
                        !listed_before(entries@, i as int, coords),
                        forall|c: Command|
                            #[trigger] moves@.contains(c) <==> offers(
                                piece,
                                coords,
                                self.pieces@,
                                unannotated(c),
                            ) && c.check == annotation_of(self.pieces@, color, c),
                        moves@.no_duplicates(),
                        forall|c: Command|
                            #[trigger] list@.contains(c) <==> is_listed(self.pieces@, color, c) && (
                            listed_before(entries@, i as int, origin_hint(c)) || (origin_hint(c)
                                == coords && seen_before(moves@, k as int, c))),
                        list@.no_duplicates(),
                    decreases moves@.len() - k,
                {
                    let command = moves[k];
                    proof {
                        assert(moves@.contains(command));
                        assert(!seen_before(moves@, k as int, command));
                        assert(seen_before(moves@, k + 1, command));
                        assert forall|c: Command|
                            seen_before(moves@, k + 1, c) <==> seen_before(moves@, k as int, c)
                                || c == command by {
                            if seen_before(moves@, k as int, c) {
                                let b = choose|b: int| 0 <= b < k && #[trigger] moves@[b] == c;
                                assert(moves@[b] == c);
                            }
                        }
                    }
                    if game.simulate_move(&command).is_ok() {
                        record(&mut list, command);
                    }
                    k += 1;
                }
                proof {
                    assert forall|c: Command|
                        is_listed(self.pieces@, color, c) && origin_hint(c)
                            == coords implies seen_before(moves@, moves@.len() as int, c) by {
                        assert(moves@.contains(c));
                        let b = choose|b: int| 0 <= b < moves@.len() && moves@[b] == c;
                        assert(moves@[b] == c);
                    }
                }
            }
            proof {
                assert forall|sq: Square|
                    listed_before(entries@, i + 1, sq) <==> listed_before(entries@, i as int, sq)
                        || sq == coords by {
                    if listed_before(entries@, i as int, sq) {
                        let j = choose|j: int| 0 <= j < i && (#[trigger] entries@[j]).0 == sq;
                        assert(entries@[j].0 == sq);
                    }
                    if sq == coords {
                        assert(entries@[i as int].0 == sq);
                    }
                }
            }
            i += 1;
        }
        proof {
            assert forall|c: Command| is_listed(self.pieces@, color, c) implies listed_before(
                entries@,
                entries@.len() as int,
                origin_hint(c),
            ) by {
                let j = choose|j: int|
                    0 <= j < entries@.len() && (#[trigger] entries@[j]).0 == origin_hint(c);
                assert(entries@[j].0 == origin_hint(c));
            }
        }
        list
    }

    /// Hands the move to the other side.
    fn next_turn(&mut self)
        ensures
            final(self).turn == old(self).turn.other(),
            final(self).pieces == old(self).pieces,
            final(self).state == old(self).state,
    {
        self.turn = match self.turn {
            Color::White => Color::Black,
            Color::Black => Color::White,
        };
    }

    /// Plays a move of the side to move.
    ///
    /// A move that [`Game::simulate_move`] refuses is refused here for the
    /// same reason, and the game stays as it was. Otherwise the board takes
    /// the new position, the move passes to the other side, and the state
    /// says where that side stands: in checkmate, in check, in stalemate or
    /// none of these.
    pub fn play(&mut self, command: &Command) -> (r: Result<(), ChessError>)
        ensures
            match simulate_outcome(old(self)@, *command) {
                Ok(next) => {
                    &&& r is Ok
                    &&& final(self).pieces@ == next.pieces
                    &&& final(self).turn == old(self).turn.other()
                    &&& final(self).state == position_state(next.pieces, old(self).turn.other())
                },
                Err(e) => r == Err::<(), ChessError>(e) && *final(self) == *old(self),
            },
    {
        let new_game = match self.simulate_move(command) {
            Ok(game) => game,
            Err(e) => {
                return Err(e);
            },
        };
        *self = new_game;
        self.next_turn();
        let is_check = self.is_check(self.turn);
        let can_move = self.has_legal_move(self.turn);
        self.state = if is_check && !can_move {
            GameState::Checkmate(self.turn.opposite())
        } else if is_check {
            GameState::Check(self.turn)
        } else if !can_move {
            GameState::Stalemate
        } else {
            GameState::InProgress
        };
        Ok(())
    }

    /// Tells whether the given side is checkmated: its king is attacked and
    /// it has no legal move.
    pub fn is_checkmate(&self, color_in_check: Color) -> (r: bool)
        ensures
            r == (in_check(self.pieces@, color_in_check) && !has_legal_move(
                self.pieces@,
                color_in_check,
            )),
    {
        self.is_check(color_in_check) && !self.has_legal_move(color_in_check)
    }

    /// Tells whether the given side is stalemated: its king is not attacked
    /// and it has no legal move.
    pub fn is_stalemate(&self, color_in_check: Color) -> (r: bool)
        ensures
            r == (!in_check(self.pieces@, color_in_check) && !has_legal_move(
                self.pieces@,
                color_in_check,
            )),
    {
        !self.is_check(color_in_check) && !self.has_legal_move(color_in_check)
    }
}

} // verus!
