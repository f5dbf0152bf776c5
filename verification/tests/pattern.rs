use chess_rules::{Castle, Check, Command, PieceType};
use regex::Regex;

/// The notation of a move as a regular expression.
const NOTATION: &str = r"^(?P<piece>[NBRQK])?(?P<from_col>[a-h])?(?P<from_row>[1-8])?(?P<takes>x)?(?P<to>[a-h][1-8])(?P<promotion>=[NBRQK])?(?P<check>\+|#)?$|^(?P<castle>O-O|O-O-O)?$";

fn index_of(c: char, first: char) -> usize {
    (c as usize) - (first as usize) + 1
}

/// Reads a move with the regular expression alone.
fn read_with_pattern(pattern: &Regex, input: &str) -> Option<Command> {
    if input.len() < 2 {
        return None;
    }
    let captures = pattern.captures(input)?;
    if let Some(castle) = captures.name("castle") {
        let side = if castle.as_str() == "O-O" { Castle::KingSide } else { Castle::QueenSide };
        return Some(Command {
            piece: PieceType::King,
            from: (None, None),
            to: (0, 0),
            takes: false,
            check: None,
            castle: Some(side),
        });
    }
    let piece = match captures.name("piece").map(|m| m.as_str()) {
        Some("N") => PieceType::Knight,
        Some("B") => PieceType::Bishop,
        Some("R") => PieceType::Rook,
        Some("Q") => PieceType::Queen,
        Some("K") => PieceType::King,
        Some(_) => return None,
        None => PieceType::Pawn,
    };
    let from_col =
        captures.name("from_col").map(|m| index_of(m.as_str().chars().next().unwrap(), 'a'));
    let from_row = captures.name("from_row").map(|m| m.as_str().parse::<usize>().unwrap());
    let takes = captures.name("takes").is_some();
    if from_row.is_some() || from_col.is_some() {
        let may_be_hinted =
            piece == PieceType::Knight || piece == PieceType::Rook || piece == PieceType::Pawn;
        if !may_be_hinted || (!takes && piece == PieceType::Pawn) {
            return None;
        }
    }
    let mut to = captures.name("to").unwrap().as_str().chars();
    let to = (index_of(to.next().unwrap(), 'a'), index_of(to.next().unwrap(), '1'));
    let check = match captures.name("check").map(|m| m.as_str()) {
        Some("+") => Some(Check::Check),
        Some("#") => Some(Check::Checkmate),
        _ => None,
    };
    Some(Command { piece, from: (from_col, from_row), to, takes, check, castle: None })
}

fn extend(alphabet: &[char], length: usize, prefix: &mut String, out: &mut Vec<String>) {
    out.push(prefix.clone());
    if length == 0 {
        return;
    }
    for c in alphabet {
        prefix.push(*c);
        extend(alphabet, length - 1, prefix, out);
        prefix.pop();
    }
}

#[test]
fn parser_agrees_with_the_pattern_on_short_texts() {
    let pattern = Regex::new(NOTATION).unwrap();
    let alphabet = ['N', 'K', 'a', 'h', '1', '8', 'x', '=', '+', '#', 'O', '-', 'P', 'i', '9'];
    let mut texts = Vec::new();
    extend(&alphabet, 5, &mut String::new(), &mut texts);
    assert_eq!(texts.len(), 1 + 15 + 225 + 3375 + 50625 + 759375);
    let mut accepted = 0;
    for text in &texts {
        let read = Command::parse(text);
        assert_eq!(read, read_with_pattern(&pattern, text), "text {:?}", text);
        if read.is_some() {
            accepted += 1;
        }
    }
    // 66 moves to each of the four corners and the two castling texts.
    assert_eq!(accepted, 66 * 4 + 2);
}

#[test]
fn parser_agrees_with_the_pattern_on_every_shape_of_move() {
    let pattern = Regex::new(NOTATION).unwrap();
    let pieces = ["", "N", "B", "R", "Q", "K", "P", "n"];
    let files = ["", "a", "e", "h", "i"];
    let ranks = ["", "1", "5", "8", "9", "0"];
    let takes = ["", "x", "X"];
    let squares = ["a1", "e4", "h8", "d9", "i4", "4e", "e"];
    let promotions = ["", "=Q", "=N", "=P", "=", "Q"];
    let marks = ["", "+", "#", "++", "!"];
    let mut tried = 0;
    let mut accepted = 0;
    for piece in pieces {
        for file in files {
            for rank in ranks {
                for take in takes {
                    for square in squares {
                        for promotion in promotions {
                            for mark in marks {
                                let text = format!(
                                    "{}{}{}{}{}{}{}",
                                    piece, file, rank, take, square, promotion, mark
                                );
                                let read = Command::parse(&text);
                                assert_eq!(
                                    read,
                                    read_with_pattern(&pattern, &text),
                                    "text {:?}",
                                    text
                                );
                                tried += 1;
                                if read.is_some() {
                                    accepted += 1;
                                }
                            }
                        }
                    }
                }
            }
        }
    }
    assert_eq!(tried, 8 * 5 * 6 * 3 * 7 * 6 * 5);
    // 87 ways to begin a move, 3 squares, 3 promotions and 3 marks.
    assert_eq!(accepted, 87 * 27);
}

#[test]
fn parser_agrees_with_the_pattern_on_castling_and_odd_texts() {
    let pattern = Regex::new(NOTATION).unwrap();
    let texts = [
        "O-O", "O-O-O", "O-O-O-O", "O-O+", "O-O#", "OO", "O-", "-O", "O-O ", " O-O", "o-o", "0-0",
        "O-O\n", "e4\n", "\ne4", "e4 ", " e4", "é4", "eé", "Ké4", "e4é", "K\u{0}e4", "Ｋe4", "",
        "e", "4", "++", "N", "Nf3Nf3", "e2e4", "e2-e4", "Nb1-c3", "e4e5e6", "exd5e.p.", "a1=Q=Q",
    ];
    for text in texts {
        assert_eq!(Command::parse(text), read_with_pattern(&pattern, text), "text {:?}", text);
    }
}
