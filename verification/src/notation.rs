//! Algebraic notation: reading a move from text and writing it back.
//!
//! A move is written as an optional piece letter (`N`, `B`, `R`, `Q`, `K`;
//! none for a pawn), an optional file and an optional rank of origin, an
//! optional `x` for a capture, the destination square, an optional
//! promotion (`=` and a piece letter) and an optional `+` or `#`. Castling
//! is written `O-O` on the king's side and `O-O-O` on the queen's side.

use crate::command::{Command, CommandBuilder};
use crate::geometry::{
    column_index_to_letter, coords_to_notation, digit_rank, file_letter, is_file_letter,
    is_on_board, is_rank_digit, letter_file, letter_to_column_index, notation_of_square, on_board,
};
use crate::text::push_char;
use crate::types::{Castle, Check, Piece, PieceType};
use vstd::prelude::*;

verus! {

/// One of the letters that name a piece in a move.
pub open spec fn is_piece_letter(c: char) -> bool {
    c == 'N' || c == 'B' || c == 'R' || c == 'Q' || c == 'K'
}

/// One of the two marks that may end a move.
pub open spec fn is_check_mark(c: char) -> bool {
    c == '+' || c == '#'
}

/// The kind that a piece letter names.
pub open spec fn letter_kind(c: char) -> PieceType {
    if c == 'N' {
        PieceType::Knight
    } else if c == 'B' {
        PieceType::Bishop
    } else if c == 'R' {
        PieceType::Rook
    } else if c == 'Q' {
        PieceType::Queen
    } else {
        PieceType::King
    }
}

/// The characters of a move that is no castling, part by part.
#[derive(Copy, Clone, Debug)]
pub struct Parts {
    pub piece: Option<char>,
    pub file: Option<char>,
    pub rank: Option<char>,
    pub takes: bool,
    pub to: (char, char),
    pub promotion: Option<char>,
    pub check: Option<char>,
}

impl Parts {
    /// Every part that is present is a character of its class.
    pub open spec fn well_formed(self) -> bool {
        &&& self.piece matches Some(c) ==> is_piece_letter(c)
        &&& self.file matches Some(c) ==> is_file_letter(c)
        &&& self.rank matches Some(c) ==> is_rank_digit(c)
        &&& is_file_letter(self.to.0)
        &&& is_rank_digit(self.to.1)
        &&& self.promotion matches Some(c) ==> is_piece_letter(c)
        &&& self.check matches Some(c) ==> is_check_mark(c)
    }

    /// The text of the move: its parts one after the other.
    pub open spec fn spell(self) -> Seq<char> {
        optional(self.piece) + optional(self.file) + optional(self.rank) + (if self.takes {
            seq!['x']
        } else {
            Seq::empty()
        }) + seq![self.to.0, self.to.1] + (match self.promotion {
            Some(c) => seq!['=', c],
            None => Seq::empty(),
        }) + optional(self.check)
    }

    /// The move that the parts describe, or `None` where they give an
    /// origin to a piece that may not have one: only a knight, a rook and a
    /// capturing pawn may. A promotion is read and dropped.
    pub open spec fn command(self) -> Option<Command> {
        let kind = match self.piece {
            Some(c) => letter_kind(c),
            None => PieceType::Pawn,
        };
        let hinted = self.file is Some || self.rank is Some;
        if hinted && ((kind != PieceType::Knight && kind != PieceType::Rook && kind
            != PieceType::Pawn) || (kind == PieceType::Pawn && !self.takes)) {
            None
        } else {
            Some(
                Command {
                    piece: kind,
                    from: (
                        match self.file {
                            Some(c) => Some(letter_file(c)),
                            None => None,
                        },
                        match self.rank {
                            Some(c) => Some(digit_rank(c)),
                            None => None,
                        },
                    ),
                    to: (letter_file(self.to.0), digit_rank(self.to.1)),
                    takes: self.takes,
                    check: match self.check {
                        Some(c) => if c == '+' {
                            Some(Check::Check)
                        } else {
                            Some(Check::Checkmate)
                        },
                        None => None,
                    },
                    castle: None,
                },
            )
        }
    }
}

/// One character where it is present, none where it is not.
pub open spec fn optional(c: Option<char>) -> Seq<char> {
    match c {
        Some(c) => seq![c],
        None => Seq::empty(),
    }
}

/// The mark at the end of a text, if it ends in one.
pub open spec fn check_part(text: Seq<char>) -> Option<char> {
    if text.len() >= 1 && is_check_mark(text.last()) {
        Some(text.last())
    } else {
        None
    }
}

/// The text without the mark at its end.
pub open spec fn before_check(text: Seq<char>) -> Seq<char> {
    if check_part(text) is Some {
        text.drop_last()
    } else {
        text
    }
}

/// The piece of a promotion at the end of a text, if it ends in one.
pub open spec fn promotion_part(text: Seq<char>) -> Option<char> {
    if text.len() >= 2 && text[text.len() - 2] == '=' && is_piece_letter(text.last()) {
        Some(text.last())
    } else {
        None
    }
}

/// The text without the promotion at its end.
pub open spec fn before_promotion(text: Seq<char>) -> Seq<char> {
    if promotion_part(text) is Some {
        text.take(text.len() - 2)
    } else {
        text
    }
}

/// What may stand before the destination of a move.
#[derive(Copy, Clone, Debug)]
pub struct Opening {
    pub piece: Option<char>,
    pub file: Option<char>,
    pub rank: Option<char>,
    pub takes: bool,
}

/// Reads what stands before the destination: a piece letter, a file, a
/// rank and an `x`, each optional, in this order and nothing else.
pub open spec fn opening_of(text: Seq<char>) -> Option<Opening> {
    let n = text.len() as int;
    let piece = if 0 < n && is_piece_letter(text[0]) {
        Some(text[0])
    } else {
        None
    };
    let i1: int = if piece is Some {
        1
    } else {
        0
    };
    let file = if i1 < n && is_file_letter(text[i1]) {
        Some(text[i1])
    } else {
        None
    };
    let i2 = if file is Some {
        i1 + 1
    } else {
        i1
    };
    let rank = if i2 < n && is_rank_digit(text[i2]) {
        Some(text[i2])
    } else {
        None
    };
    let i3 = if rank is Some {
        i2 + 1
    } else {
        i2
    };
    let takes = i3 < n && text[i3] == 'x';
    let i4 = if takes {
        i3 + 1
    } else {
        i3
    };
    if i4 != n {
        None
    } else {
        Some(Opening { piece, file, rank, takes })
    }
}

/// Splits the text of a move into its parts, or `None` where the text is
/// not a move. The end is read first (the mark, then the promotion, then
/// the destination), and what is left must be an opening.
pub open spec fn parts_of(text: Seq<char>) -> Option<Parts> {
    let core = before_promotion(before_check(text));
    let n = core.len() as int;
    if n < 2 || !is_file_letter(core[n - 2]) || !is_rank_digit(core[n - 1]) {
        None
    } else {
        match opening_of(core.take(n - 2)) {
            Some(opening) => Some(
                Parts {
                    piece: opening.piece,
                    file: opening.file,
                    rank: opening.rank,
                    takes: opening.takes,
                    to: (core[n - 2], core[n - 1]),
                    promotion: promotion_part(before_check(text)),
                    check: check_part(text),
                },
            ),
            None => None,
        }
    }
}

/// The side on which a text castles, if it is one of the two castling texts.
pub open spec fn castle_of_notation(text: Seq<char>) -> Option<Castle> {
    if text == seq!['O', '-', 'O'] {
        Some(Castle::KingSide)
    } else if text == seq!['O', '-', 'O', '-', 'O'] {
        Some(Castle::QueenSide)
    } else {
        None
    }
}

/// The command for castling on a side.
pub open spec fn castle_command(side: Castle) -> Command {
    Command {
        piece: PieceType::King,
        from: (None, None),
        to: (0, 0),
        takes: false,
        check: None,
        castle: Some(side),
    }
}

/// The move that a text describes, or `None` where it describes none.
pub open spec fn command_of_notation(text: Seq<char>) -> Option<Command> {
    if text.len() < 2 {
        None
    } else {
        match castle_of_notation(text) {
            Some(side) => Some(castle_command(side)),
            None => match parts_of(text) {
                Some(parts) => parts.command(),
                None => None,
            },
        }
    }
}

/// The mark that an annotation is written with.
pub open spec fn check_suffix(check: Option<Check>) -> Seq<char> {
    match check {
        Some(Check::Check) => seq!['+'],
        Some(Check::Checkmate) => seq!['#'],
        None => Seq::empty(),
    }
}

/// The text of a command. Castling is `O-O` or `O-O-O`. A pawn's move is
/// its destination, after the file of origin and `x` where it captures.
/// Another piece's move is its letter, `x` where it captures, and the
/// destination; its origin is not written. The mark of the annotation
/// comes last.
pub open spec fn notation_of(command: Command) -> Seq<char> {
    match command.castle {
        Some(Castle::KingSide) => seq!['O', '-', 'O'] + check_suffix(command.check),
        Some(Castle::QueenSide) => seq!['O', '-', 'O', '-', 'O'] + check_suffix(command.check),
        None => (if command.piece != PieceType::Pawn {
            seq![Piece::kind_letter(command.piece)]
        } else if command.takes {
            seq![file_letter(command.from.0->0)]
        } else {
            Seq::empty()
        }) + (if command.takes {
            seq!['x']
        } else {
            Seq::empty()
        }) + notation_of_square(command.to) + check_suffix(command.check),
    }
}

/// Whether a command can be written: unless it castles, its destination is
/// a square of the board, and a capturing pawn names its file of origin.
pub open spec fn writable(command: Command) -> bool {
    command.castle is None ==> on_board(command.to) && (command.piece == PieceType::Pawn
        && command.takes ==> command.from.0 is Some && 1 <= command.from.0->0 <= 8)
}

/// Tells whether a character is one of the letters that name a piece.
fn piece_letter(c: char) -> (r: bool)
    ensures
        r == is_piece_letter(c),
{
    c == 'N' || c == 'B' || c == 'R' || c == 'Q' || c == 'K'
}

/// Tells on which side a text castles, if it is one of the two castling texts.
fn read_castle(input: &str, n: usize) -> (r: Option<Castle>)
    requires
        n == input@.len(),
    ensures
        r == castle_of_notation(input@),
{
    if n == 3 && input.get_char(0) == 'O' && input.get_char(1) == '-' && input.get_char(2) == 'O' {
        assert(input@ =~= seq!['O', '-', 'O']);
        Some(Castle::KingSide)
    } else if n == 5 && input.get_char(0) == 'O' && input.get_char(1) == '-' && input.get_char(2)
        == 'O' && input.get_char(3) == '-' && input.get_char(4) == 'O' {
        assert(input@ =~= seq!['O', '-', 'O', '-', 'O']);
        Some(Castle::QueenSide)
    } else {
        assert(input@ != seq!['O', '-', 'O']);
        assert(input@ != seq!['O', '-', 'O', '-', 'O']);
        None
    }
}

/// Reads the mark at the end of the first `end` characters.
fn read_check(input: &str, end: usize) -> (r: Option<char>)
    requires
        end <= input@.len(),
    ensures
        r == check_part(input@.take(end as int)),
{
    if end >= 1 {
        let last = input.get_char(end - 1);
        if last == '+' || last == '#' {
            return Some(last);
        }
    }
    None
}

/// Reads the promotion at the end of the first `end` characters.
fn read_promotion(input: &str, end: usize) -> (r: Option<char>)
    requires
        end <= input@.len(),
    ensures
        r == promotion_part(input@.take(end as int)),
{
    if end >= 2 && input.get_char(end - 2) == '=' {
        let last = input.get_char(end - 1);
        if piece_letter(last) {
            return Some(last);
        }
    }
    None
}

/// Reads the first `end` characters as what stands before a destination.
fn read_opening(input: &str, end: usize) -> (r: Option<Opening>)
    requires
        end <= input@.len(),
    ensures
        r == opening_of(input@.take(end as int)),
{
    let mut at: usize = 0;
    let mut piece: Option<char> = None;
    if at < end {
        let c = input.get_char(at);
        if piece_letter(c) {
            piece = Some(c);
            at = at + 1;
        }
    }
    let mut file: Option<char> = None;
    if at < end {
        let c = input.get_char(at);
        if c >= 'a' && c <= 'h' {
            file = Some(c);
            at = at + 1;
        }
    }
    let mut rank: Option<char> = None;
    if at < end {
        let c = input.get_char(at);
        if c >= '1' && c <= '8' {
            rank = Some(c);
            at = at + 1;
        }
    }
    let mut takes = false;
    if at < end {
        if input.get_char(at) == 'x' {
            takes = true;
            at = at + 1;
        }
    }
    if at != end {
        return None;
    }
    Some(Opening { piece, file, rank, takes })
}

/// Splits a text into the parts of a move.
fn read_parts(input: &str, n: usize) -> (r: Option<Parts>)
    requires
        n == input@.len(),
    ensures
        r == parts_of(input@),
        r matches Some(parts) ==> parts.well_formed(),
{
    let mut end = n;
    assert(input@.take(n as int) =~= input@);
    let check = read_check(input, end);
    if check.is_some() {
        end = end - 1;
    }
    assert(input@.take(end as int) =~= before_check(input@));
    let promotion = read_promotion(input, end);
    if promotion.is_some() {
        end = end - 2;
    }
    let ghost core = before_promotion(before_check(input@));
    assert(input@.take(end as int) =~= core);
    if end < 2 {
        return None;
    }
    let to_file = input.get_char(end - 2);
    let to_rank = input.get_char(end - 1);
    if to_file < 'a' || to_file > 'h' || to_rank < '1' || to_rank > '8' {
        return None;
    }
    assert(input@.take(end - 2) =~= core.take(core.len() - 2));
    match read_opening(input, end - 2) {
        Some(opening) => Some(
            Parts {
                piece: opening.piece,
                file: opening.file,
                rank: opening.rank,
                takes: opening.takes,
                to: (to_file, to_rank),
                promotion,
                check,
            },
        ),
        None => None,
    }
}

/// The rank that a digit in `1..=8` names.
fn rank_of(c: char) -> (r: usize)
    requires
        is_rank_digit(c),
    ensures
        r == digit_rank(c),
{
    (c as u32 - 48) as usize
}

impl Parts {
    /// The move that the parts describe, if they describe one.
    pub fn to_command(&self) -> (r: Option<Command>)
        requires
            self.well_formed(),
        ensures
            r == self.command(),
    {
        let piece = match self.piece {
            Some(c) => if c == 'N' {
                PieceType::Knight
            } else if c == 'B' {
                PieceType::Bishop
            } else if c == 'R' {
                PieceType::Rook
            } else if c == 'Q' {
                PieceType::Queen
            } else {
                PieceType::King
            },
            None => PieceType::Pawn,
        };
        let from_col = match self.file {
            Some(c) => Some(letter_to_column_index(c)),
            None => None,
        };
        let from_row = match self.rank {
            Some(c) => Some(rank_of(c)),
            None => None,
        };
        let check = match self.check {
            Some(c) => if c == '+' {
                Some(Check::Check)
            } else {
                Some(Check::Checkmate)
            },
            None => None,
        };
        if from_row.is_some() || from_col.is_some() {
            if (piece != PieceType::Knight && piece != PieceType::Rook && piece != PieceType::Pawn)
                || (!self.takes && piece == PieceType::Pawn) {
                return None;
            }
        }
        let to = (letter_to_column_index(self.to.0), rank_of(self.to.1));
        Some(
            CommandBuilder::new().to(to).piece(piece).from((from_col, from_row)).takes(
                self.takes,
            ).check(check).build(),
        )
    }
}

impl Command {
    /// Reads a move from its notation. Returns `None` for a text that is no
    /// move, and for one that gives an origin to a bishop, a queen, a king
    /// or a pawn that does not capture.
    pub fn parse(input: &str) -> (r: Option<Self>)
        ensures
            r == command_of_notation(input@),
    {
        let n = input.unicode_len();
        if n < 2 {
            return None;
        }
        match read_castle(input, n) {
            Some(side) => Some(
                CommandBuilder::new().piece(PieceType::King).castle(Some(side)).build(),
            ),
            None => match read_parts(input, n) {
                Some(parts) => parts.to_command(),
                None => None,
            },
        }
    }

    /// Tells whether the command can be written in notation.
    pub fn is_writable(&self) -> (r: bool)
        ensures
            r == writable(*self),
    {
        if self.castle.is_some() {
            return true;
        }
        let named = match self.from.0 {
            Some(file) => 1 <= file && file <= 8,
            None => false,
        };
        is_on_board(self.to) && (self.piece != PieceType::Pawn || !self.takes || named)
    }

    /// Writes the command in notation.
    pub fn to_notation(&self) -> (r: String)
        requires
            writable(*self),
        ensures
            r@ == notation_of(*self),
    {
        let mut notation = String::new();
        match self.castle {
            Some(side) => {
                push_char(&mut notation, 'O');
                push_char(&mut notation, '-');
                push_char(&mut notation, 'O');
                match side {
                    Castle::KingSide => {},
                    Castle::QueenSide => {
                        push_char(&mut notation, '-');
                        push_char(&mut notation, 'O');
                    },
                }
            },
            None => {
                match self.piece {
                    PieceType::Pawn => {
                        if self.takes {
                            match self.from.0 {
                                Some(file) => {
                                    push_char(&mut notation, column_index_to_letter(file));
                                },
                                None => {},
                            }
                        }
                    },
                    PieceType::Bishop => push_char(&mut notation, 'B'),
                    PieceType::King => push_char(&mut notation, 'K'),
                    PieceType::Knight => push_char(&mut notation, 'N'),
                    PieceType::Queen => push_char(&mut notation, 'Q'),
                    PieceType::Rook => push_char(&mut notation, 'R'),
                }
                if self.takes {
                    push_char(&mut notation, 'x');
                }
                notation.append(coords_to_notation(self.to).as_str());
            },
        }
        match self.check {
            Some(Check::Check) => {
                push_char(&mut notation, '+');
            },
            Some(Check::Checkmate) => {
                push_char(&mut notation, '#');
            },
            None => {},
        }
        assert(notation@ =~= notation_of(*self));
        notation
    }
}

} // verus!
