//! Squares, their notation, and steps along a direction.
//!
//! A square is a pair `(file, rank)`, both counted from 1 to 8: `(1, 1)` is
//! a1 and `(8, 8)` is h8.

use crate::text::push_char;
use crate::types::Color;
use vstd::prelude::*;

verus! {

/// A pair `(file, rank)`. Only pairs with both parts in `1..=8` are squares
/// of the board; see [`on_board`].
pub type Square = (usize, usize);

/// Both coordinates lie in `1..=8`.
pub open spec fn on_board(sq: Square) -> bool {
    1 <= sq.0 <= 8 && 1 <= sq.1 <= 8
}

/// The place of a square when the board is read rank by rank, a1 first, h8 last.
pub open spec fn square_index(sq: Square) -> int {
    (sq.1 - 1) * 8 + (sq.0 - 1)
}

/// One of the letters `a` to `h`, which name the files.
pub open spec fn is_file_letter(c: char) -> bool {
    'a' <= c <= 'h'
}

/// One of the digits `1` to `8`, which name the ranks.
pub open spec fn is_rank_digit(c: char) -> bool {
    '1' <= c <= '8'
}

/// The letter of a file: `a` for 1 up to `h` for 8.
pub open spec fn file_letter(file: usize) -> char {
    ((file + 96) as u8) as char
}

/// The digit of a rank: `1` for 1 up to `8` for 8.
pub open spec fn rank_digit(rank: usize) -> char {
    ((rank + 48) as u8) as char
}

/// The file that a letter in `a..=h` names.
pub open spec fn letter_file(c: char) -> usize {
    (c as u32 - 96) as usize
}

/// The rank that a digit in `1..=8` names.
pub open spec fn digit_rank(c: char) -> usize {
    (c as u32 - 48) as usize
}

/// An upper-case ASCII letter turned to lower case; any other character unchanged.
pub open spec fn ascii_lower(c: char) -> char {
    if 'A' <= c <= 'Z' {
        ((c as u32 + 32) as u8) as char
    } else {
        c
    }
}

/// The square that a text names: exactly two characters, a file letter and
/// a rank digit.
pub open spec fn square_of_notation(text: Seq<char>) -> Option<Square> {
    if text.len() == 2 && is_file_letter(text[0]) && is_rank_digit(text[1]) {
        Some((letter_file(text[0]), digit_rank(text[1])))
    } else {
        None
    }
}

/// The two characters that name a square of the board.
pub open spec fn notation_of_square(sq: Square) -> Seq<char> {
    seq![file_letter(sq.0), rank_digit(sq.1)]
}

/// Whether a square agrees with what a move says of its origin: each part
/// that is given must be equal, a part that is absent admits anything.
pub open spec fn matches_origin(sq: Square, from: (Option<usize>, Option<usize>)) -> bool {
    &&& from.0 matches Some(x) ==> sq.0 == x
    &&& from.1 matches Some(y) ==> sq.1 == y
}

/// The point reached from `origin` after `distance` steps of `direction`,
/// as unbounded integers.
pub open spec fn ray_point(origin: Square, direction: (int, int), distance: int) -> (int, int) {
    (origin.0 + direction.0 * distance, origin.1 + direction.1 * distance)
}

/// The square reached from `origin` after `distance` steps of `direction`,
/// or `None` where that point is off the board.
pub open spec fn ray_step(origin: Square, direction: (int, int), distance: int) -> Option<
    Square,
> {
    let p = ray_point(origin, direction, distance);
    if 1 <= p.0 <= 8 && 1 <= p.1 <= 8 {
        Some((p.0 as usize, p.1 as usize))
    } else {
        None
    }
}

/// -1, 0 or 1 as `d` is negative, zero or positive.
pub open spec fn signum(d: int) -> int {
    if d > 0 {
        1
    } else if d < 0 {
        -1
    } else {
        0
    }
}

/// The absolute value of `d`.
pub open spec fn abs(d: int) -> int {
    if d < 0 {
        -d
    } else {
        d
    }
}

/// The two squares share a rank, a file or a diagonal (a square is aligned
/// with itself).
pub open spec fn aligned(a: Square, b: Square) -> bool {
    a.0 == b.0 || a.1 == b.1 || abs(b.0 - a.0) == abs(b.1 - a.1)
}

/// The unit step that leads from `a` towards `b`.
pub open spec fn direction_to(a: Square, b: Square) -> (int, int) {
    (signum(b.0 - a.0), signum(b.1 - a.1))
}

/// The number of unit steps from `a` to an aligned square `b`.
pub open spec fn distance(a: Square, b: Square) -> int {
    if abs(b.0 - a.0) >= abs(b.1 - a.1) {
        abs(b.0 - a.0)
    } else {
        abs(b.1 - a.1)
    }
}

/// The squares strictly between two aligned squares, nearest to `a` first.
pub open spec fn between(a: Square, b: Square) -> Seq<Square> {
    Seq::new(
        if distance(a, b) >= 1 {
            (distance(a, b) - 1) as nat
        } else {
            0
        },
        |i: int|
            {
                let p = ray_point(a, direction_to(a, b), i + 1);
                (p.0 as usize, p.1 as usize)
            },
    )
}

/// The rank that a pawn of `color` on rank `rank` reaches after `steps`
/// steps forward (White moves up the board, Black down), or `None` where
/// that rank is off the board.
pub open spec fn pawn_advance(rank: usize, steps: int, color: Color) -> Option<usize> {
    let y = if color == Color::White {
        rank + steps
    } else {
        rank - steps
    };
    if 1 <= y <= 8 {
        Some(y as usize)
    } else {
        None
    }
}

/// A product with a factor in `-1..=1` is the other factor, its negation or zero.
pub proof fn lemma_unit_product(s: int, k: int)
    requires
        -1 <= s <= 1,
    ensures
        s * k == if s > 0 {
            k
        } else if s < 0 {
            -k
        } else {
            0
        },
{
    if s == 1 {
        assert(s * k == k) by (nonlinear_arith)
            requires
                s == 1,
        ;
    } else if s == -1 {
        assert(s * k == -k) by (nonlinear_arith)
            requires
                s == -1,
        ;
    } else {
        assert(s * k == 0) by (nonlinear_arith)
            requires
                s == 0,
        ;
    }
}

/// Tells whether both coordinates lie in `1..=8`.
pub fn is_on_board(sq: Square) -> (r: bool)
    ensures
        r == on_board(sq),
{
    1 <= sq.0 && sq.0 <= 8 && 1 <= sq.1 && sq.1 <= 8
}

/// Reads a square from its two-character notation, a file letter `a..=h`
/// followed by a rank digit `1..=8`. Any other text names no square.
pub fn notation_to_coords(notation: &str) -> (r: Option<Square>)
    ensures
        r == square_of_notation(notation@),
{
    if notation.unicode_len() != 2 {
        return None;
    }
    let file = notation.get_char(0);
    let rank = notation.get_char(1);
    if file < 'a' || file > 'h' || rank < '1' || rank > '8' {
        return None;
    }
    let x: usize = (file as u32 - 96) as usize;
    let y: usize = (rank as u32 - 48) as usize;
    Some((x, y))
}

/// The file that a letter names, in either case.
pub fn letter_to_column_index(letter: char) -> (r: usize)
    requires
        is_file_letter(ascii_lower(letter)),
    ensures
        r == letter_file(ascii_lower(letter)),
        1 <= r <= 8,
{
    if letter >= 'A' && letter <= 'Z' {
        (letter as u32 - 64) as usize
    } else {
        (letter as u32 - 96) as usize
    }
}

/// The lower-case letter of a file.
pub fn column_index_to_letter(col: usize) -> (r: char)
    requires
        1 <= col <= 8,
    ensures
        r == file_letter(col),
        is_file_letter(r),
{
    ((col + 96) as u8) as char
}

/// The digit of a rank.
pub fn row_index_to_digit(row: usize) -> (r: char)
    requires
        1 <= row <= 8,
    ensures
        r == rank_digit(row),
        is_rank_digit(r),
{
    ((row + 48) as u8) as char
}

/// Writes a square of the board in notation: its file letter, then its rank digit.
pub fn coords_to_notation(coords: Square) -> (r: String)
    requires
        on_board(coords),
    ensures
        r@ == notation_of_square(coords),
{
    let mut text = String::new();
    push_char(&mut text, column_index_to_letter(coords.0));
    push_char(&mut text, row_index_to_digit(coords.1));
    assert(text@ =~= notation_of_square(coords));
    text
}

/// Tells whether a square agrees with the origin hints of a move.
pub fn coords_match_from(coords: Square, from: (Option<usize>, Option<usize>)) -> (r: bool)
    ensures
        r == matches_origin(coords, from),
{
    match from {
        (Some(x), None) => coords.0 == x,
        (None, Some(y)) => coords.1 == y,
        (Some(x), Some(y)) => coords.0 == x && coords.1 == y,
        _ => true,
    }
}

/// Steps from `origin` along `direction`, `step` times, and returns the
/// square reached, or `None` where it lies off the board.
pub fn next_coords(origin: Square, direction: (isize, isize), step: isize) -> (r: Option<Square>)
    ensures
        r == ray_step(origin, (direction.0 as int, direction.1 as int), step as int),
{
    let (dx, dy) = direction;
    assert(-0x4000_0000_0000_0000_0000_0000_0000_0000 <= dx * step
        <= 0x4000_0000_0000_0000_0000_0000_0000_0000) by (nonlinear_arith)
        requires
            -0x8000_0000_0000_0000 <= dx <= 0x8000_0000_0000_0000,
            -0x8000_0000_0000_0000 <= step <= 0x8000_0000_0000_0000,
    ;
    assert(-0x4000_0000_0000_0000_0000_0000_0000_0000 <= dy * step
        <= 0x4000_0000_0000_0000_0000_0000_0000_0000) by (nonlinear_arith)
        requires
            -0x8000_0000_0000_0000 <= dy <= 0x8000_0000_0000_0000,
            -0x8000_0000_0000_0000 <= step <= 0x8000_0000_0000_0000,
    ;
    let x: i128 = (origin.0 as i128) + (dx as i128) * (step as i128);
    let y: i128 = (origin.1 as i128) + (dy as i128) * (step as i128);
    if x < 1 || x > 8 || y < 1 || y > 8 {
        return None;
    }
    Some((x as usize, y as usize))
}

/// The rank a pawn reaches after `step` steps forward, or `None` where it
/// would leave the board.
pub fn pawn_move(y_coord: usize, step: isize, color: Color) -> (r: Option<usize>)
    ensures
        r == pawn_advance(y_coord, step as int, color),
{
    let y: i128 = match color {
        Color::White => (y_coord as i128) + (step as i128),
        Color::Black => (y_coord as i128) - (step as i128),
    };
    if y < 1 || y > 8 {
        None
    } else {
        Some(y as usize)
    }
}

/// The unit step from coordinate `a` towards coordinate `b`.
fn unit_step(a: usize, b: usize) -> (r: isize)
    ensures
        r == signum(b - a),
{
    if b > a {
        1
    } else if b < a {
        -1
    } else {
        0
    }
}

/// The squares strictly between two aligned squares of the board, in the
/// order in which a piece that leaves `a` for `b` crosses them.
pub fn squares_between(a: Square, b: Square) -> (r: Vec<Square>)
    requires
        on_board(a),
        on_board(b),
        aligned(a, b),
    ensures
        r@ == between(a, b),
        forall|i: int| 0 <= i < r@.len() ==> on_board(#[trigger] r@[i]),
{
    let dx = unit_step(a.0, b.0);
    let dy = unit_step(a.1, b.1);
    let span_x: usize = if b.0 >= a.0 { b.0 - a.0 } else { a.0 - b.0 };
    let span_y: usize = if b.1 >= a.1 { b.1 - a.1 } else { a.1 - b.1 };
    let span: usize = if span_x >= span_y { span_x } else { span_y };
    let mut squares: Vec<Square> = Vec::new();
    let mut k: usize = 1;
    while k < span
        invariant
            on_board(a),
            on_board(b),
            aligned(a, b),
            dx == signum(b.0 - a.0),
            dy == signum(b.1 - a.1),
            span == distance(a, b),
            1 <= k,
            k <= span || k == 1,
            squares@.len() == k - 1,
            forall|i: int|
                0 <= i < squares@.len() ==> #[trigger] squares@[i] == between(a, b)[i] && on_board(
                    squares@[i],
                ),
        decreases span - k,
    {
        proof {
            lemma_unit_product(dx as int, k as int);
            lemma_unit_product(dy as int, k as int);
        }
        match next_coords(a, (dx, dy), k as isize) {
            Some(sq) => {
                squares.push(sq);
            },
            None => {
                assert(false);
            },
        }
        k += 1;
    }
    assert(squares@ =~= between(a, b));
    squares
}

} // verus!
