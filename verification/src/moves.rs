//! How each kind of piece moves: which squares it reaches, and the moves it
//! offers on a given board before the safety of its own king is considered.

use crate::board::{Board, Position};
use crate::command::{Command, CommandBuilder};
use crate::game::{annotation_of, unannotated, Game};
use crate::geometry::{
    abs, aligned, between, direction_to, distance, is_on_board, lemma_unit_product, next_coords,
    on_board, pawn_advance, pawn_move, ray_step, squares_between, Square,
};
use crate::types::{Color, Piece, PieceType};
use vstd::prelude::*;

verus! {

/// The rank on which the pawns of a side start.
pub open spec fn pawn_home_rank(color: Color) -> int {
    match color {
        Color::White => 2,
        Color::Black => 7,
    }
}

/// No piece stands strictly between two aligned squares.
pub open spec fn clear_between(position: Position, a: Square, b: Square) -> bool {
    forall|i: int|
        0 <= i < between(a, b).len() ==> !position.contains_key(#[trigger] between(a, b)[i])
}

/// Whether a piece on `from` reaches `to`, by the geometry of its kind alone.
///
/// A pawn reaches, to capture, the two squares diagonally ahead of it and,
/// to move, the square ahead and, from its home rank, the second square
/// ahead (whatever stands on the first). A knight and a king reach
/// their eight neighbours of either shape. A rook, a bishop and a queen reach
/// another square on a shared line if nothing stands strictly between.
/// What stands on `to` plays no part.
pub open spec fn reaches(
    piece: Piece,
    from: Square,
    to: Square,
    position: Position,
    takes: bool,
) -> bool {
    let dx = to.0 - from.0;
    let dy = to.1 - from.1;
    on_board(from) && on_board(to) && match piece.piece_type {
        PieceType::Pawn => if takes {
            abs(dx) == 1 && pawn_advance(from.1, 1, piece.color) == Some(to.1)
        } else {
            dx == 0 && (pawn_advance(from.1, 1, piece.color) == Some(to.1) || (from.1
                == pawn_home_rank(piece.color) && pawn_advance(from.1, 2, piece.color) == Some(
                to.1,
            )))
        },
        PieceType::Knight => (abs(dx) == 2 && abs(dy) == 1) || (abs(dx) == 1 && abs(dy) == 2),
        PieceType::King => abs(dx) <= 1 && abs(dy) <= 1 && from != to,
        PieceType::Rook => from != to && (dx == 0 || dy == 0) && clear_between(position, from, to),
        PieceType::Bishop => from != to && abs(dx) == abs(dy) && clear_between(
            position,
            from,
            to,
        ),
        PieceType::Queen => from != to && aligned(from, to) && clear_between(position, from, to),
    }
}

/// Whether a piece on `from` may go to `to` as far as the two squares and
/// the line between them decide: it reaches `to`, and `to` is empty for a
/// plain move or holds a piece of the other side for a capture.
pub open spec fn pseudo_legal(
    piece: Piece,
    from: Square,
    to: Square,
    takes: bool,
    position: Position,
) -> bool {
    reaches(piece, from, to, position, takes) && if takes {
        position.contains_key(to) && position[to].color != piece.color
    } else {
        !position.contains_key(to)
    }
}

/// The command for a move of a piece of the given kind between two squares,
/// with its origin in full and no annotation.
pub open spec fn plain_move(kind: PieceType, from: Square, to: Square, takes: bool) -> Command {
    Command {
        piece: kind,
        from: (Some(from.0), Some(from.1)),
        to,
        takes,
        check: None,
        castle: None,
    }
}

/// Whether `command` is one of the moves that a piece on `from` offers:
/// a pseudo-legal move, written with its origin in full and no annotation.
pub open spec fn offers(piece: Piece, from: Square, position: Position, command: Command) -> bool {
    command == plain_move(piece.piece_type, from, command.to, command.takes) && pseudo_legal(
        piece,
        from,
        command.to,
        command.takes,
        position,
    )
}

/// The `index`-th of the eight jumps of a knight or of the eight steps of a king.
pub open spec fn leap_offset(kind: PieceType, index: int) -> (int, int) {
    if kind == PieceType::Knight {
        if index == 0 {
            (1, 2)
        } else if index == 1 {
            (1, -2)
        } else if index == 2 {
            (-1, 2)
        } else if index == 3 {
            (-1, -2)
        } else if index == 4 {
            (2, 1)
        } else if index == 5 {
            (2, -1)
        } else if index == 6 {
            (-2, 1)
        } else {
            (-2, -1)
        }
    } else {
        if index == 0 {
            (1, 1)
        } else if index == 1 {
            (1, -1)
        } else if index == 2 {
            (-1, 1)
        } else if index == 3 {
            (-1, -1)
        } else if index == 4 {
            (1, 0)
        } else if index == 5 {
            (-1, 0)
        } else if index == 6 {
            (0, 1)
        } else {
            (0, -1)
        }
    }
}

/// The place of an offset among the eight of [`leap_offset`], or 8 where
/// it is none of them.
pub open spec fn leap_index(kind: PieceType, offset: (int, int)) -> int {
    if offset == leap_offset(kind, 0) {
        0
    } else if offset == leap_offset(kind, 1) {
        1
    } else if offset == leap_offset(kind, 2) {
        2
    } else if offset == leap_offset(kind, 3) {
        3
    } else if offset == leap_offset(kind, 4) {
        4
    } else if offset == leap_offset(kind, 5) {
        5
    } else if offset == leap_offset(kind, 6) {
        6
    } else if offset == leap_offset(kind, 7) {
        7
    } else {
        8
    }
}

/// A coordinate moved by `d`, or `None` where the result does not fit a `usize`.
pub open spec fn shifted(a: usize, d: int) -> Option<usize> {
    if 0 <= a + d <= usize::MAX {
        Some((a + d) as usize)
    } else {
        None
    }
}

/// The number of directions in which a kind of piece slides.
pub open spec fn slide_count(kind: PieceType) -> int {
    match kind {
        PieceType::Queen => 8,
        PieceType::Bishop | PieceType::Rook => 4,
        _ => 0,
    }
}

/// The `index`-th direction in which a bishop, a rook or a queen slides:
/// the diagonals for a bishop, the ranks and files for a rook, the
/// diagonals and then the ranks and files for a queen.
pub open spec fn slide_vector(kind: PieceType, index: int) -> (int, int) {
    let i = if kind == PieceType::Rook {
        index + 4
    } else {
        index
    };
    if i == 0 {
        (1, 1)
    } else if i == 1 {
        (1, -1)
    } else if i == 2 {
        (-1, 1)
    } else if i == 3 {
        (-1, -1)
    } else if i == 4 {
        (1, 0)
    } else if i == 5 {
        (-1, 0)
    } else if i == 6 {
        (0, 1)
    } else {
        (0, -1)
    }
}

/// The place of a direction among those of [`slide_vector`], or
/// [`slide_count`] where the kind does not slide that way.
pub open spec fn slide_index(kind: PieceType, direction: (int, int)) -> int {
    if 0 < slide_count(kind) && direction == slide_vector(kind, 0) {
        0
    } else if 1 < slide_count(kind) && direction == slide_vector(kind, 1) {
        1
    } else if 2 < slide_count(kind) && direction == slide_vector(kind, 2) {
        2
    } else if 3 < slide_count(kind) && direction == slide_vector(kind, 3) {
        3
    } else if 4 < slide_count(kind) && direction == slide_vector(kind, 4) {
        4
    } else if 5 < slide_count(kind) && direction == slide_vector(kind, 5) {
        5
    } else if 6 < slide_count(kind) && direction == slide_vector(kind, 6) {
        6
    } else if 7 < slide_count(kind) && direction == slide_vector(kind, 7) {
        7
    } else {
        slide_count(kind)
    }
}

/// Whether the square `distance` steps from `from` along `direction` is on
/// the board and empty.
pub open spec fn ray_open(
    position: Position,
    from: Square,
    direction: (int, int),
    distance: int,
) -> bool {
    ray_step(from, direction, distance) is Some && !position.contains_key(
        ray_step(from, direction, distance)->0,
    )
}

/// What holds of the square `k` steps along one of a sliding piece's
/// directions, when every square before it on that line is empty: it lies
/// in that direction at that distance, and the piece reaches it.
proof fn lemma_ray_square(
    piece: Piece,
    from: Square,
    index: int,
    k: int,
    sq: Square,
    position: Position,
)
    requires
        on_board(from),
        0 <= index < slide_count(piece.piece_type),
        1 <= k,
        ray_step(from, slide_vector(piece.piece_type, index), k) == Some(sq),
        forall|j: int|
            1 <= j < k ==> #[trigger] ray_open(
                position,
                from,
                slide_vector(piece.piece_type, index),
                j,
            ),
    ensures
        direction_to(from, sq) == slide_vector(piece.piece_type, index),
        distance(from, sq) == k,
        k <= 7,
        forall|takes: bool| #[trigger] reaches(piece, from, sq, position, takes),
{
    let d = slide_vector(piece.piece_type, index);
    lemma_unit_product(d.0, k);
    lemma_unit_product(d.1, k);
    assert forall|i: int| 0 <= i < between(from, sq).len() implies !position.contains_key(
        #[trigger] between(from, sq)[i],
    ) by {
        lemma_unit_product(d.0, i + 1);
        lemma_unit_product(d.1, i + 1);
        assert(ray_open(position, from, d, i + 1));
    }
}

/// A sliding piece reaches only squares that lie along one of its
/// directions, each at its distance along that direction.
proof fn lemma_slide_target(piece: Piece, from: Square, to: Square, position: Position, takes: bool)
    requires
        slide_count(piece.piece_type) > 0,
        reaches(piece, from, to, position, takes),
    ensures
        slide_index(piece.piece_type, direction_to(from, to)) < slide_count(piece.piece_type),
        1 <= distance(from, to) <= 7,
        ray_step(from, direction_to(from, to), distance(from, to)) == Some(to),
        forall|j: int|
            1 <= j < distance(from, to) ==> #[trigger] ray_open(
                position,
                from,
                direction_to(from, to),
                j,
            ),
{
    let d = direction_to(from, to);
    let n = distance(from, to);
    lemma_unit_product(d.0, n);
    lemma_unit_product(d.1, n);
    assert forall|j: int| 1 <= j < n implies #[trigger] ray_open(position, from, d, j) by {
        lemma_unit_product(d.0, j);
        lemma_unit_product(d.1, j);
        assert(!position.contains_key(between(from, to)[j - 1]));
    }
}

/// The distance between two coordinates.
fn span(a: usize, b: usize) -> (r: usize)
    ensures
        r == abs(b - a),
{
    if b >= a {
        b - a
    } else {
        a - b
    }
}

/// Tells whether the squares strictly between two aligned squares are all empty.
pub(crate) fn path_clear(board: &Board, from: Square, to: Square) -> (r: bool)
    requires
        on_board(from),
        on_board(to),
        aligned(from, to),
    ensures
        r == clear_between(board@, from, to),
{
    let squares = squares_between(from, to);
    let mut i: usize = 0;
    while i < squares.len()
        invariant
            i <= squares@.len(),
            squares@ == between(from, to),
            forall|j: int| 0 <= j < i ==> !board@.contains_key(#[trigger] between(from, to)[j]),
        decreases squares@.len() - i,
    {
        if board.contains_key(squares[i]) {
            return false;
        }
        i += 1;
    }
    true
}

/// Appends a command to a list of moves.
pub(crate) fn record(moves: &mut Vec<Command>, command: Command)
    ensures
        final(moves)@ == old(moves)@.push(command),
        forall|c: Command|
            #[trigger] final(moves)@.contains(c) <==> old(moves)@.contains(c) || c == command,
        old(moves)@.no_duplicates() && !old(moves)@.contains(command)
            ==> final(moves)@.no_duplicates(),
{
    moves.push(command);
    proof {
        let before = old(moves)@;
        let after = moves@;
        assert forall|c: Command| #[trigger] after.contains(c) <==> before.contains(c) || c
            == command by {
            if before.contains(c) {
                let i = choose|i: int| 0 <= i < before.len() && before[i] == c;
                assert(after[i] == c);
            }
            if c == command {
                assert(after[before.len() as int] == c);
            }
        }
    }
}

impl Piece {
    /// Tells whether this piece, standing on `piece_coords`, reaches
    /// `target_coords`: to capture there if `takes`, to move there if not.
    /// Only the geometry of the kind and the squares in between are looked
    /// at, never what stands on the target.
    pub fn can_move(
        &self,
        piece_coords: Square,
        target_coords: Square,
        pieces_on_board: &Board,
        takes: bool,
    ) -> (r: bool)
        ensures
            r == reaches(*self, piece_coords, target_coords, pieces_on_board@, takes),
    {
        if !is_on_board(piece_coords) || !is_on_board(target_coords) {
            return false;
        }
        let (from_x, from_y) = piece_coords;
        let (to_x, to_y) = target_coords;
        let span_x = span(from_x, to_x);
        let span_y = span(from_y, to_y);
        match self.piece_type {
            PieceType::Pawn => {
                let one_ahead = match pawn_move(from_y, 1, self.color) {
                    Some(y) => y == to_y,
                    None => false,
                };
                if takes {
                    span_x == 1 && one_ahead
                } else {
                    let home: usize = match self.color {
                        Color::White => 2,
                        Color::Black => 7,
                    };
                    let two_ahead = match pawn_move(from_y, 2, self.color) {
                        Some(y) => y == to_y,
                        None => false,
                    };
                    to_x == from_x && (one_ahead || (from_y == home && two_ahead))
                }
            },
            PieceType::Knight => (span_x == 2 && span_y == 1) || (span_x == 1 && span_y == 2),
            PieceType::King => span_x <= 1 && span_y <= 1 && (span_x != 0 || span_y != 0),
            PieceType::Queen => {
                if (span_x == 0 && span_y == 0) || (span_x != 0 && span_y != 0 && span_x
                    != span_y) {
                    return false;
                }
                path_clear(pieces_on_board, piece_coords, target_coords)
            },
            PieceType::Rook => {
                if (span_x == 0 && span_y == 0) || (span_x != 0 && span_y != 0) {
                    return false;
                }
                path_clear(pieces_on_board, piece_coords, target_coords)
            },
            PieceType::Bishop => {
                if span_x == 0 || span_x != span_y {
                    return false;
                }
                path_clear(pieces_on_board, piece_coords, target_coords)
            },
        }
    }

    /// The directions in which a bishop, a rook or a queen slides.
    pub fn get_direction_vectors(&self) -> (r: Vec<(isize, isize)>)
        requires
            slide_count(self.piece_type) > 0,
        ensures
            r@.len() == slide_count(self.piece_type),
            forall|i: int|
                0 <= i < r@.len() ==> ((#[trigger] r@[i]).0 as int, r@[i].1 as int)
                    == slide_vector(self.piece_type, i),
    {
        match self.piece_type {
            PieceType::Bishop => vec![(1, 1), (1, -1), (-1, 1), (-1, -1)],
            PieceType::Rook => vec![(1, 0), (-1, 0), (0, 1), (0, -1)],
            _ => vec![(1, 1), (1, -1), (-1, 1), (-1, -1), (1, 0), (-1, 0), (0, 1), (0, -1)],
        }
    }

    /// The eight places to which a knight or a king on `piece_coords` might
    /// go, each coordinate absent where it does not fit a `usize`. Places off the
    /// board are not left out here.
    pub fn get_candidate_moves(&self, piece_coords: Square) -> (r: Vec<
        (Option<usize>, Option<usize>),
    >)
        requires
            self.piece_type == PieceType::Knight || self.piece_type == PieceType::King,
        ensures
            r@.len() == 8,
            forall|i: int|
                0 <= i < 8 ==> #[trigger] r@[i] == (
                    shifted(piece_coords.0, leap_offset(self.piece_type, i).0),
                    shifted(piece_coords.1, leap_offset(self.piece_type, i).1),
                ),
    {
        let (piece_x, piece_y) = piece_coords;
        match self.piece_type {
            PieceType::Knight => {
                vec![
                    (piece_x.checked_add(1), piece_y.checked_add(2)),
                    (piece_x.checked_add(1), piece_y.checked_sub(2)),
                    (piece_x.checked_sub(1), piece_y.checked_add(2)),
                    (piece_x.checked_sub(1), piece_y.checked_sub(2)),
                    (piece_x.checked_add(2), piece_y.checked_add(1)),
                    (piece_x.checked_add(2), piece_y.checked_sub(1)),
                    (piece_x.checked_sub(2), piece_y.checked_add(1)),
                    (piece_x.checked_sub(2), piece_y.checked_sub(1)),
                ]
            },
            _ => {
                vec![
                    (piece_x.checked_add(1), piece_y.checked_add(1)),
                    (piece_x.checked_add(1), piece_y.checked_sub(1)),
                    (piece_x.checked_sub(1), piece_y.checked_add(1)),
                    (piece_x.checked_sub(1), piece_y.checked_sub(1)),
                    (piece_x.checked_add(1), Some(piece_y)),
                    (piece_x.checked_sub(1), Some(piece_y)),
                    (Some(piece_x), piece_y.checked_add(1)),
                    (Some(piece_x), piece_y.checked_sub(1)),
                ]
            },
        }
    }

    /// The command for a move of this piece from one square to another.
    fn move_to(&self, from: Square, to: Square, takes: bool) -> (r: Command)
        ensures
            r == plain_move(self.piece_type, from, to, takes),
    {
        CommandBuilder::new().from((Some(from.0), Some(from.1))).piece(self.piece_type).to(
            to,
        ).takes(takes).build()
    }

    /// The moves of a pawn: one step ahead onto an empty square, the two
    /// captures diagonally ahead, and from the home rank two steps ahead
    /// onto an empty square.
    fn pawn_moves(&self, piece_coords: Square, board: &Board) -> (moves: Vec<Command>)
        requires
            self.piece_type == PieceType::Pawn,
            on_board(piece_coords),
        ensures
            forall|c: Command|
                #[trigger] moves@.contains(c) <==> offers(*self, piece_coords, board@, c),
            moves@.no_duplicates(),
    {
        let (piece_x, piece_y) = piece_coords;
        let mut moves: Vec<Command> = Vec::new();
        let pawn_row: usize = match self.color {
            Color::White => 2,
            Color::Black => 7,
        };
        if let Some(new_y) = pawn_move(piece_y, 1, self.color) {
            if board.get((piece_x, new_y)).is_none() {
                record(&mut moves, self.move_to(piece_coords, (piece_x, new_y), false));
            }
            if let Some(left) = piece_x.checked_sub(1) {
                if left > 0 {
                    match board.get((left, new_y)) {
                        Some(piece) => {
                            if piece.color != self.color {
                                let capture = self.move_to(piece_coords, (left, new_y), true);
                                record(&mut moves, capture);
                            }
                        },
                        None => {},
                    }
                }
            }
            if let Some(right) = piece_x.checked_add(1) {
                if right <= 8 {
                    match board.get((right, new_y)) {
                        Some(piece) => {
                            if piece.color != self.color {
                                let capture = self.move_to(piece_coords, (right, new_y), true);
                                record(&mut moves, capture);
                            }
                        },
                        None => {},
                    }
                }
            }
        }
        if piece_y == pawn_row {
            if let Some(new_y) = pawn_move(piece_y, 2, self.color) {
                if board.get((piece_x, new_y)).is_none() {
                    record(&mut moves, self.move_to(piece_coords, (piece_x, new_y), false));
                }
            }
        }
        moves
    }

    /// The moves of a knight or a king: each of its eight places that lies
    /// on the board and is empty or holds a piece of the other side.
    fn leaper_moves(&self, piece_coords: Square, board: &Board) -> (moves: Vec<Command>)
        requires
            self.piece_type == PieceType::Knight || self.piece_type == PieceType::King,
            on_board(piece_coords),
        ensures
            forall|c: Command|
                #[trigger] moves@.contains(c) <==> offers(*self, piece_coords, board@, c),
            moves@.no_duplicates(),
    {
        let candidates = self.get_candidate_moves(piece_coords);
        let mut moves: Vec<Command> = Vec::new();
        let mut index: usize = 0;
        while index < 8
            invariant
                index <= 8,
                self.piece_type == PieceType::Knight || self.piece_type == PieceType::King,
                on_board(piece_coords),
                candidates@.len() == 8,
                forall|i: int|
                    0 <= i < 8 ==> #[trigger] candidates@[i] == (
                        shifted(piece_coords.0, leap_offset(self.piece_type, i).0),
                        shifted(piece_coords.1, leap_offset(self.piece_type, i).1),
                    ),
                forall|c: Command|
                    #[trigger] moves@.contains(c) <==> offers(*self, piece_coords, board@, c)
                        && leap_index(
                        self.piece_type,
                        (c.to.0 - piece_coords.0, c.to.1 - piece_coords.1),
                    ) < index,
                moves@.no_duplicates(),
            decreases 8 - index,
        {
            let candidate = candidates[index];
            if let (Some(x), Some(y)) = candidate {
                if is_on_board((x, y)) {
                    let target = board.get((x, y));
                    let takes = match target {
                        Some(piece) => {
                            if piece.color != self.color {
                                Some(true)
                            } else {
                                None
                            }
                        },
                        None => Some(false),
                    };
                    if let Some(takes) = takes {
                        record(&mut moves, self.move_to(piece_coords, (x, y), takes));
                    }
                }
            }
            index += 1;
        }
        moves
    }

    /// The moves of a bishop, a rook or a queen: along each of its
    /// directions every empty square up to the first piece, and that piece's
    /// square too if it belongs to the other side.
    fn slider_moves(&self, piece_coords: Square, board: &Board) -> (moves: Vec<Command>)
        requires
            slide_count(self.piece_type) > 0,
            on_board(piece_coords),
        ensures
            forall|c: Command|
                #[trigger] moves@.contains(c) <==> offers(*self, piece_coords, board@, c),
            moves@.no_duplicates(),
    {
        let directions = self.get_direction_vectors();
        let mut moves: Vec<Command> = Vec::new();
        let mut index: usize = 0;
        while index < directions.len()
            invariant
                index <= directions@.len(),
                on_board(piece_coords),
                directions@.len() == slide_count(self.piece_type),
                forall|i: int|
                    0 <= i < directions@.len() ==> (
                        (#[trigger] directions@[i]).0 as int,
                        directions@[i].1 as int,
                    ) == slide_vector(self.piece_type, i),
                forall|c: Command|
                    #[trigger] moves@.contains(c) <==> offers(*self, piece_coords, board@, c)
                        && slide_index(self.piece_type, direction_to(piece_coords, c.to)) < index,
                moves@.no_duplicates(),
            decreases directions@.len() - index,
        {
            let direction = directions[index];
            let ghost d = slide_vector(self.piece_type, index as int);
            let mut step: isize = 1;
            loop
                invariant_except_break
                    1 <= step <= 8,
                    forall|j: int|
                        1 <= j < step ==> #[trigger] ray_open(board@, piece_coords, d, j),
                    forall|c: Command|
                        #[trigger] moves@.contains(c) <==> offers(*self, piece_coords, board@, c)
                            && (slide_index(self.piece_type, direction_to(piece_coords, c.to))
                            < index || (direction_to(piece_coords, c.to) == d && distance(
                            piece_coords,
                            c.to,
                        ) < step)),
                invariant
                    index < directions@.len(),
                    on_board(piece_coords),
                    slide_count(self.piece_type) > 0,
                    directions@.len() == slide_count(self.piece_type),
                    d == slide_vector(self.piece_type, index as int),
                    d == (direction.0 as int, direction.1 as int),
                    slide_index(self.piece_type, d) == index,
                    moves@.no_duplicates(),
                ensures
                    forall|c: Command|
                        #[trigger] moves@.contains(c) <==> offers(*self, piece_coords, board@, c)
                            && slide_index(self.piece_type, direction_to(piece_coords, c.to))
                            < index + 1,
                decreases 9 - step,
            {
                let ghost before = moves@;
                let next = next_coords(piece_coords, direction, step);
                proof {
                    lemma_unit_product(d.0, step as int);
                    lemma_unit_product(d.1, step as int);
                }
                let takes = match next {
                    Some(sq) => {
                        match board.get(sq) {
                            Some(piece) => {
                                if piece.color == self.color {
                                    None
                                } else {
                                    Some(true)
                                }
                            },
                            None => Some(false),
                        }
                    },
                    None => None,
                };
                if let (Some(sq), Some(takes)) = (next, takes) {
                    let command = self.move_to(piece_coords, sq, takes);
                    proof {
                        lemma_ray_square(
                            *self,
                            piece_coords,
                            index as int,
                            step as int,
                            sq,
                            board@,
                        );
                    }
                    record(&mut moves, command);
                }
                let stops = match takes {
                    Some(captured) => captured,
                    None => true,
                };
                proof {
                    assert forall|c: Command|
                        offers(*self, piece_coords, board@, c) && direction_to(piece_coords, c.to)
                            == d implies (distance(piece_coords, c.to) < step ==> before.contains(
                        c,
                    )) && (distance(piece_coords, c.to) == step ==> next == Some(c.to) && takes
                        == Some(c.takes)) && (distance(piece_coords, c.to) > step ==> !stops) by {
                        lemma_slide_target(*self, piece_coords, c.to, board@, c.takes);
                        if distance(piece_coords, c.to) > step {
                            assert(ray_open(board@, piece_coords, d, step as int));
                        }
                    }
                }
                if stops {
                    break ;
                }
                step += 1;
            }
            index += 1;
        }
        moves
    }

    /// The moves that this piece, standing on `piece_coords`, offers on
    /// `board` by its geometry and by what stands in its way, whether or
    /// not they leave its own king attacked. Each has its origin in full and no
    /// annotation. A piece off the board offers none.
    pub fn get_pseudo_legal_moves(&self, piece_coords: Square, board: &Board) -> (moves: Vec<
        Command,
    >)
        ensures
            forall|c: Command|
                #[trigger] moves@.contains(c) <==> offers(*self, piece_coords, board@, c),
            moves@.no_duplicates(),
    {
        if !is_on_board(piece_coords) {
            return Vec::new();
        }
        match self.piece_type {
            PieceType::Pawn => self.pawn_moves(piece_coords, board),
            PieceType::King | PieceType::Knight => self.leaper_moves(piece_coords, board),
            PieceType::Bishop | PieceType::Queen | PieceType::Rook => self.slider_moves(
                piece_coords,
                board,
            ),
        }
    }

    /// The moves that this piece, standing on `piece_coords`, offers on
    /// `pieces_on_board`: its pseudo-legal moves, each with its origin in
    /// full and with the annotation it earns when its side plays it
    /// (`Check` or `Checkmate` where the move is accepted and leaves the other
    /// side so). Moves that would leave the piece's own king attacked are
    /// listed too, without annotation.
    pub fn get_possible_moves(&self, piece_coords: Square, pieces_on_board: &Board) -> (moves: Vec<
        Command,
    >)
        ensures
            forall|c: Command|
                #[trigger] moves@.contains(c) <==> offers(
                    *self,
                    piece_coords,
                    pieces_on_board@,
                    unannotated(c),
                ) && c.check == annotation_of(pieces_on_board@, self.color, c),
            moves@.no_duplicates(),
    {
        let plain = self.get_pseudo_legal_moves(piece_coords, pieces_on_board);
        let game = Game::from(*pieces_on_board, self.color);
        let mut moves: Vec<Command> = Vec::new();
        let mut i: usize = 0;
        while i < plain.len()
            invariant
                i <= plain@.len(),
                moves@.len() == i,
                game.pieces@ == pieces_on_board@,
                game.turn == self.color,
                forall|b: int|
                    0 <= b < i ==> #[trigger] moves@[b] == (Command {
                        check: annotation_of(pieces_on_board@, self.color, plain@[b]),
                        ..plain@[b]
                    }),
            decreases plain@.len() - i,
        {
            let command = plain[i];
            let check = game.annotation(&command);
            moves.push(Command { check, ..command });
            i += 1;
        }
        proof {
            let position = pieces_on_board@;
            assert forall|c: Command| #[trigger]
                moves@.contains(c) <==> offers(*self, piece_coords, position, unannotated(c))
                    && c.check == annotation_of(position, self.color, c) by {
                if moves@.contains(c) {
                    let b = choose|b: int| 0 <= b < moves@.len() && moves@[b] == c;
                    assert(plain@.contains(plain@[b]));
                }
                if offers(*self, piece_coords, position, unannotated(c)) && c.check
                    == annotation_of(position, self.color, c) {
                    assert(plain@.contains(unannotated(c)));
                    let b = choose|b: int| 0 <= b < plain@.len() && plain@[b] == unannotated(c);
                    assert(moves@[b] == c);
                }
            }
            assert forall|a: int, b: int|
                0 <= a < moves@.len() && 0 <= b < moves@.len() && a != b implies moves@[a]
                != moves@[b] by {
                assert(plain@.contains(plain@[a]));
                assert(plain@.contains(plain@[b]));
            }
        }
        moves
    }
}

} // verus!
