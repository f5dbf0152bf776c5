use chess_rules::{
    Board, Castle, Check, ChessError, Color, Command, Game, GameState, Piece, PieceType,
};

fn piece(kind: PieceType, color: Color) -> Piece {
    Piece::new(kind, color)
}

fn board_of(pieces: &[((usize, usize), PieceType, Color)]) -> Board {
    let mut board = Board::new();
    for (sq, kind, color) in pieces {
        board.insert(*sq, piece(*kind, *color));
    }
    board
}

fn play_all(game: &mut Game, moves: &[&str]) {
    for text in moves {
        let command = Command::parse(text).unwrap();
        assert_eq!(game.play(&command), Ok(()), "move {}", text);
    }
}

fn count(game: &Game, color: Color) -> usize {
    game.pieces.entries().iter().filter(|(_, p)| p.color == color).count()
}

fn sorted(mut moves: Vec<Command>) -> Vec<String> {
    let mut texts: Vec<String> = moves
        .drain(..)
        .map(|c| format!("{:?}-{:?}-{:?}-{:?}-{:?}", c.piece, c.from, c.to, c.takes, c.check))
        .collect();
    texts.sort();
    texts
}

#[test]
fn new_game_has_sixteen_pieces_per_side() {
    let game = Game::new();
    assert_eq!(count(&game, Color::White), 16);
    assert_eq!(count(&game, Color::Black), 16);
    assert_eq!(game.pieces.entries().len(), 32);
    assert!(!game.is_check(Color::White));
    assert!(!game.is_check(Color::Black));
    assert_eq!(game.turn, Color::White);
    assert_eq!(game.state, GameState::InProgress);
}

#[test]
fn new_game_is_the_starting_position() {
    let game = Game::new();
    let back = [
        PieceType::Rook,
        PieceType::Knight,
        PieceType::Bishop,
        PieceType::Queen,
        PieceType::King,
        PieceType::Bishop,
        PieceType::Knight,
        PieceType::Rook,
    ];
    for x in 1..=8usize {
        assert_eq!(game.pieces.get((x, 1)), Some(piece(back[x - 1], Color::White)));
        assert_eq!(game.pieces.get((x, 2)), Some(piece(PieceType::Pawn, Color::White)));
        assert_eq!(game.pieces.get((x, 7)), Some(piece(PieceType::Pawn, Color::Black)));
        assert_eq!(game.pieces.get((x, 8)), Some(piece(back[x - 1], Color::Black)));
        for y in 3..=6usize {
            assert_eq!(game.pieces.get((x, y)), None);
        }
    }
}

#[test]
fn board_holds_one_piece_per_square() {
    let mut board = Board::new();
    assert_eq!(board.entries().len(), 0);
    assert_eq!(board.insert((4, 4), piece(PieceType::Queen, Color::White)), None);
    assert_eq!(
        board.insert((4, 4), piece(PieceType::Rook, Color::Black)),
        Some(piece(PieceType::Queen, Color::White))
    );
    assert_eq!(board.get((4, 4)), Some(piece(PieceType::Rook, Color::Black)));
    assert!(board.contains_key((4, 4)));
    assert!(!board.contains_key((4, 5)));
    assert!(!board.contains_key((0, 0)));
    assert_eq!(board.get((9, 9)), None);
    board.insert((1, 1), piece(PieceType::King, Color::White));
    board.insert((8, 1), piece(PieceType::Pawn, Color::White));
    board.insert((1, 2), piece(PieceType::Pawn, Color::Black));
    let squares: Vec<(usize, usize)> = board.entries().iter().map(|(sq, _)| *sq).collect();
    assert_eq!(squares, vec![(1, 1), (8, 1), (1, 2), (4, 4)]);
    assert_eq!(board.remove((4, 4)), Some(piece(PieceType::Rook, Color::Black)));
    assert_eq!(board.remove((4, 4)), None);
    assert_eq!(board.remove((0, 9)), None);
    assert_eq!(board.entries().len(), 3);
}

#[test]
fn scholars_mate_ends_in_checkmate() {
    let mut game = Game::new();
    play_all(&mut game, &["e4", "e5", "Qh5", "Nc6", "Bc4", "Nf6", "Qxf7#"]);
    assert_eq!(game.pieces.get((6, 7)), Some(piece(PieceType::Queen, Color::White)));
    assert_eq!(game.pieces.get((5, 8)), Some(piece(PieceType::King, Color::Black)));
    assert_eq!(game.pieces.get((8, 5)), None);
    assert_eq!(game.state, GameState::Checkmate(Color::White));
    assert_eq!(game.turn, Color::Black);
    assert!(game.is_check(Color::Black));
    assert!(game.is_checkmate(Color::Black));
    assert!(!game.is_stalemate(Color::Black));
    assert!(!game.is_checkmate(Color::White));
    assert_eq!(game.get_all_possible_moves(Color::Black), vec![]);
    assert_eq!(count(&game, Color::Black), 15);
    assert_eq!(count(&game, Color::White), 16);
}

#[test]
fn castling_swaps_king_and_rook() {
    let mut game = Game::new();
    play_all(&mut game, &["e4", "e5", "Nf3", "Nc6", "Bb5", "a6", "Ba4", "Nf6", "O-O"]);
    assert_eq!(game.pieces.get((7, 1)), Some(piece(PieceType::King, Color::White)));
    assert_eq!(game.pieces.get((6, 1)), Some(piece(PieceType::Rook, Color::White)));
    assert_eq!(game.pieces.get((5, 1)), None);
    assert_eq!(game.pieces.get((8, 1)), None);
    assert_eq!(game.pieces.get((1, 1)), Some(piece(PieceType::Rook, Color::White)));
    assert_eq!(game.turn, Color::Black);
    assert_eq!(game.state, GameState::InProgress);
    assert_eq!(count(&game, Color::White), 16);
}

#[test]
fn castling_on_the_queens_side() {
    let board = board_of(&[
        ((5, 8), PieceType::King, Color::Black),
        ((1, 8), PieceType::Rook, Color::Black),
        ((8, 8), PieceType::Rook, Color::Black),
        ((5, 1), PieceType::King, Color::White),
    ]);
    let mut game = Game::from(board, Color::Black);
    assert_eq!(game.play(&Command::parse("O-O-O").unwrap()), Ok(()));
    assert_eq!(game.pieces.get((3, 8)), Some(piece(PieceType::King, Color::Black)));
    assert_eq!(game.pieces.get((4, 8)), Some(piece(PieceType::Rook, Color::Black)));
    assert_eq!(game.pieces.get((1, 8)), None);
    assert_eq!(game.pieces.get((5, 8)), None);
    assert_eq!(game.pieces.get((8, 8)), Some(piece(PieceType::Rook, Color::Black)));
    assert_eq!(game.turn, Color::White);
}

#[test]
fn castling_needs_king_rook_and_an_empty_path() {
    let castle = Command::parse("O-O").unwrap();
    let long = Command::parse("O-O-O").unwrap();
    let game = Game::new();
    assert_eq!(game.simulate_move(&castle), Err(ChessError::InvalidMove));
    assert_eq!(game.simulate_move(&long), Err(ChessError::InvalidMove));

    let no_rook = Game::from(board_of(&[((5, 1), PieceType::King, Color::White)]), Color::White);
    assert_eq!(no_rook.simulate_move(&castle), Err(ChessError::InvalidMove));

    let wrong_rook = Game::from(
        board_of(&[
            ((5, 1), PieceType::King, Color::White),
            ((8, 1), PieceType::Rook, Color::Black),
        ]),
        Color::White,
    );
    assert_eq!(wrong_rook.simulate_move(&castle), Err(ChessError::InvalidMove));

    let not_a_rook = Game::from(
        board_of(&[
            ((5, 1), PieceType::King, Color::White),
            ((8, 1), PieceType::Bishop, Color::White),
        ]),
        Color::White,
    );
    assert_eq!(not_a_rook.simulate_move(&castle), Err(ChessError::InvalidMove));

    let moved_king = Game::from(
        board_of(&[
            ((4, 1), PieceType::King, Color::White),
            ((8, 1), PieceType::Rook, Color::White),
        ]),
        Color::White,
    );
    assert_eq!(moved_king.simulate_move(&castle), Err(ChessError::InvalidMove));

    let blocked = Game::from(
        board_of(&[
            ((5, 1), PieceType::King, Color::White),
            ((1, 1), PieceType::Rook, Color::White),
            ((2, 1), PieceType::Knight, Color::White),
        ]),
        Color::White,
    );
    assert_eq!(blocked.simulate_move(&long), Err(ChessError::InvalidMove));

    let other_rank = Game::from(
        board_of(&[
            ((5, 1), PieceType::King, Color::White),
            ((8, 1), PieceType::Rook, Color::White),
        ]),
        Color::Black,
    );
    assert_eq!(other_rank.simulate_move(&castle), Err(ChessError::InvalidMove));

    let ready = Game::from(
        board_of(&[
            ((5, 1), PieceType::King, Color::White),
            ((8, 1), PieceType::Rook, Color::White),
        ]),
        Color::White,
    );
    assert!(ready.simulate_move(&castle).is_ok());
    let queen_castles = Command { piece: PieceType::Queen, ..castle };
    assert_eq!(ready.simulate_move(&queen_castles), Err(ChessError::InvalidMove));
    let marked = Command { takes: true, to: (5, 1), ..castle };
    assert!(ready.simulate_move(&marked).is_ok());
}

#[test]
fn castling_into_an_attack_is_refused() {
    let board = board_of(&[
        ((5, 1), PieceType::King, Color::White),
        ((8, 1), PieceType::Rook, Color::White),
        ((7, 8), PieceType::Rook, Color::Black),
        ((5, 8), PieceType::King, Color::Black),
    ]);
    let mut game = Game::from(board, Color::White);
    let before = game;
    assert_eq!(game.play(&Command::parse("O-O").unwrap()), Err(ChessError::InCheck));
    assert_eq!(game, before);
}

#[test]
fn capture_marker_must_agree_with_the_destination() {
    let mut game = Game::new();
    let before = game;
    assert_eq!(game.play(&Command::parse("xe4").unwrap()), Err(ChessError::InvalidMove));
    assert_eq!(game.play(&Command::parse("Nxf3").unwrap()), Err(ChessError::InvalidMove));
    assert_eq!(game.play(&Command::parse("Ra2").unwrap()), Err(ChessError::InvalidMove));
    assert_eq!(game, before);
}

#[test]
fn move_without_a_piece_to_make_it_is_invalid() {
    let mut game = Game::new();
    let before = game;
    for text in ["e5", "Ke2", "Qd3", "Bc4", "Ra3", "Nd4", "e6", "N3f3", "Nhf3"] {
        assert_eq!(game.play(&Command::parse(text).unwrap()), Err(ChessError::InvalidMove));
    }
    assert_eq!(game, before);
    let off_board = Command {
        piece: PieceType::Knight,
        from: (None, None),
        to: (0, 0),
        takes: false,
        check: None,
        castle: None,
    };
    assert_eq!(game.play(&off_board), Err(ChessError::InvalidMove));
    assert_eq!(game, before);
}

#[test]
fn move_that_exposes_the_king_is_refused() {
    let board = board_of(&[
        ((5, 1), PieceType::King, Color::White),
        ((5, 2), PieceType::Rook, Color::White),
        ((5, 8), PieceType::Rook, Color::Black),
        ((1, 8), PieceType::King, Color::Black),
    ]);
    let mut game = Game::from(board, Color::White);
    let before = game;
    assert_eq!(game.simulate_move(&Command::parse("Ra2").unwrap()), Err(ChessError::InCheck));
    assert_eq!(game.play(&Command::parse("Ra2").unwrap()), Err(ChessError::InCheck));
    assert_eq!(game, before);
    let next = game.simulate_move(&Command::parse("Re3").unwrap()).unwrap();
    assert_eq!(game, before);
    assert_eq!(next.turn, Color::White);
    assert_eq!(next.state, GameState::InProgress);
    assert_eq!(next.pieces.get((5, 3)), Some(piece(PieceType::Rook, Color::White)));
    assert_eq!(next.pieces.get((5, 2)), None);
    assert_eq!(game.play(&Command::parse("Rxe8+").unwrap()), Ok(()));
    assert_eq!(game.state, GameState::Check(Color::Black));
    assert_eq!(game.turn, Color::Black);
}

#[test]
fn simulation_accepts_exactly_the_moves_that_keep_the_king_safe() {
    let board = board_of(&[
        ((5, 1), PieceType::King, Color::White),
        ((5, 2), PieceType::Rook, Color::White),
        ((4, 2), PieceType::Knight, Color::White),
        ((1, 2), PieceType::Pawn, Color::White),
        ((5, 8), PieceType::Rook, Color::Black),
        ((8, 4), PieceType::Bishop, Color::Black),
        ((1, 8), PieceType::King, Color::Black),
        ((2, 3), PieceType::Pawn, Color::Black),
    ]);
    let game = Game::from(board, Color::White);
    let mut tried = 0;
    for (sq, p) in board.entries() {
        if p.color != Color::White {
            continue;
        }
        for command in p.get_pseudo_legal_moves(sq, &board) {
            let mut after = board;
            after.remove(sq);
            after.insert(command.to, p);
            let exposed = Game::from(after, Color::White).is_check(Color::White);
            match game.simulate_move(&command) {
                Ok(next) => {
                    assert!(!exposed);
                    assert_eq!(next.pieces, after);
                }
                Err(e) => {
                    assert!(exposed);
                    assert_eq!(e, ChessError::InCheck);
                }
            }
            tried += 1;
        }
    }
    assert!(tried > 10);
}

#[test]
fn check_needs_an_open_line_to_the_king() {
    let open = board_of(&[
        ((5, 1), PieceType::King, Color::White),
        ((5, 8), PieceType::Rook, Color::Black),
    ]);
    assert!(Game::from(open, Color::White).is_check(Color::White));
    assert!(!Game::from(open, Color::White).is_check(Color::Black));

    let own_block = board_of(&[
        ((5, 1), PieceType::King, Color::White),
        ((5, 4), PieceType::Pawn, Color::White),
        ((5, 8), PieceType::Rook, Color::Black),
    ]);
    assert!(!Game::from(own_block, Color::White).is_check(Color::White));

    let rival_block = board_of(&[
        ((5, 1), PieceType::King, Color::White),
        ((5, 4), PieceType::Pawn, Color::Black),
        ((5, 8), PieceType::Rook, Color::Black),
    ]);
    assert!(!Game::from(rival_block, Color::White).is_check(Color::White));

    let diagonal = board_of(&[
        ((5, 1), PieceType::King, Color::White),
        ((8, 4), PieceType::Bishop, Color::Black),
    ]);
    assert!(Game::from(diagonal, Color::White).is_check(Color::White));

    let diagonal_blocked = board_of(&[
        ((5, 1), PieceType::King, Color::White),
        ((6, 2), PieceType::Pawn, Color::White),
        ((8, 4), PieceType::Queen, Color::Black),
    ]);
    assert!(!Game::from(diagonal_blocked, Color::White).is_check(Color::White));

    let rook_on_diagonal = board_of(&[
        ((5, 1), PieceType::King, Color::White),
        ((8, 4), PieceType::Rook, Color::Black),
    ]);
    assert!(!Game::from(rook_on_diagonal, Color::White).is_check(Color::White));

    let no_king = board_of(&[((5, 8), PieceType::Rook, Color::Black)]);
    assert!(!Game::from(no_king, Color::White).is_check(Color::White));
}

#[test]
fn pawns_and_knights_give_check_by_their_own_geometry() {
    let pawn_ahead = board_of(&[
        ((5, 4), PieceType::King, Color::White),
        ((5, 5), PieceType::Pawn, Color::Black),
    ]);
    assert!(!Game::from(pawn_ahead, Color::White).is_check(Color::White));
    let pawn_diagonal = board_of(&[
        ((5, 4), PieceType::King, Color::White),
        ((4, 5), PieceType::Pawn, Color::Black),
    ]);
    assert!(Game::from(pawn_diagonal, Color::White).is_check(Color::White));
    let pawn_behind = board_of(&[
        ((5, 4), PieceType::King, Color::White),
        ((4, 3), PieceType::Pawn, Color::Black),
    ]);
    assert!(!Game::from(pawn_behind, Color::White).is_check(Color::White));
    let white_pawn = board_of(&[
        ((5, 4), PieceType::King, Color::Black),
        ((4, 3), PieceType::Pawn, Color::White),
    ]);
    assert!(Game::from(white_pawn, Color::Black).is_check(Color::Black));
    let knight = board_of(&[
        ((5, 4), PieceType::King, Color::White),
        ((6, 6), PieceType::Knight, Color::Black),
        ((5, 5), PieceType::Pawn, Color::White),
        ((6, 5), PieceType::Pawn, Color::White),
    ]);
    assert!(Game::from(knight, Color::White).is_check(Color::White));
    let kings = board_of(&[
        ((5, 4), PieceType::King, Color::White),
        ((5, 5), PieceType::King, Color::Black),
    ]);
    assert!(Game::from(kings, Color::White).is_check(Color::White));
    assert!(Game::from(kings, Color::White).is_check(Color::Black));
}

#[test]
fn pieces_reach_by_their_kind() {
    let board = board_of(&[((4, 4), PieceType::Pawn, Color::White)]);
    let rook = piece(PieceType::Rook, Color::White);
    assert!(rook.can_move((1, 4), (3, 4), &board, false));
    assert!(rook.can_move((1, 4), (4, 4), &board, true));
    assert!(rook.can_move((1, 4), (4, 4), &board, false));
    assert!(!rook.can_move((1, 4), (5, 4), &board, false));
    assert!(!rook.can_move((1, 4), (2, 5), &board, false));
    assert!(!rook.can_move((1, 4), (1, 4), &board, true));
    assert!(!rook.can_move((0, 4), (3, 4), &board, false));
    assert!(!rook.can_move((1, 4), (1, 9), &board, false));
    let bishop = piece(PieceType::Bishop, Color::Black);
    assert!(bishop.can_move((1, 1), (3, 3), &board, false));
    assert!(!bishop.can_move((1, 1), (5, 5), &board, false));
    assert!(!bishop.can_move((1, 1), (1, 3), &board, false));
    assert!(!bishop.can_move((3, 3), (3, 3), &board, false));
    let queen = piece(PieceType::Queen, Color::Black);
    assert!(queen.can_move((1, 1), (1, 8), &board, false));
    assert!(queen.can_move((1, 1), (3, 3), &board, false));
    assert!(!queen.can_move((1, 1), (8, 8), &board, true));
    assert!(!queen.can_move((1, 1), (2, 3), &board, false));
    assert!(!queen.can_move((2, 2), (2, 2), &board, false));
    let knight = piece(PieceType::Knight, Color::White);
    assert!(knight.can_move((3, 3), (4, 5), &board, false));
    assert!(knight.can_move((3, 3), (5, 4), &board, true));
    assert!(!knight.can_move((3, 3), (5, 5), &board, false));
    assert!(!knight.can_move((3, 3), (3, 3), &board, false));
    let king = piece(PieceType::King, Color::White);
    assert!(king.can_move((3, 3), (4, 4), &board, true));
    assert!(king.can_move((3, 3), (3, 2), &board, false));
    assert!(!king.can_move((3, 3), (3, 5), &board, false));
    assert!(!king.can_move((3, 3), (3, 3), &board, false));
    let white_pawn = piece(PieceType::Pawn, Color::White);
    assert!(white_pawn.can_move((5, 2), (5, 3), &board, false));
    assert!(white_pawn.can_move((5, 2), (5, 4), &board, false));
    assert!(!white_pawn.can_move((5, 3), (5, 5), &board, false));
    assert!(!white_pawn.can_move((5, 2), (5, 1), &board, false));
    assert!(!white_pawn.can_move((5, 2), (4, 3), &board, false));
    assert!(white_pawn.can_move((5, 2), (4, 3), &board, true));
    assert!(white_pawn.can_move((5, 2), (6, 3), &board, true));
    assert!(!white_pawn.can_move((5, 2), (5, 3), &board, true));
    assert!(!white_pawn.can_move((5, 2), (6, 1), &board, true));
    let black_pawn = piece(PieceType::Pawn, Color::Black);
    assert!(black_pawn.can_move((5, 7), (5, 6), &board, false));
    assert!(black_pawn.can_move((5, 7), (5, 5), &board, false));
    assert!(!black_pawn.can_move((5, 6), (5, 4), &board, false));
    assert!(black_pawn.can_move((5, 7), (4, 6), &board, true));
    assert!(!black_pawn.can_move((5, 7), (4, 8), &board, true));
    assert!(!black_pawn.can_move((5, 1), (5, 0), &board, false));
}

#[test]
fn direction_vectors_and_candidates() {
    let bishop = piece(PieceType::Bishop, Color::White);
    assert_eq!(bishop.get_direction_vectors(), vec![(1, 1), (1, -1), (-1, 1), (-1, -1)]);
    let rook = piece(PieceType::Rook, Color::White);
    assert_eq!(rook.get_direction_vectors(), vec![(1, 0), (-1, 0), (0, 1), (0, -1)]);
    let queen = piece(PieceType::Queen, Color::Black);
    assert_eq!(
        queen.get_direction_vectors(),
        vec![(1, 1), (1, -1), (-1, 1), (-1, -1), (1, 0), (-1, 0), (0, 1), (0, -1)]
    );
    let knight = piece(PieceType::Knight, Color::White);
    assert_eq!(
        knight.get_candidate_moves((1, 1)),
        vec![
            (Some(2), Some(3)),
            (Some(2), None),
            (Some(0), Some(3)),
            (Some(0), None),
            (Some(3), Some(2)),
            (Some(3), Some(0)),
            (None, Some(2)),
            (None, Some(0)),
        ]
    );
    let king = piece(PieceType::King, Color::White);
    assert_eq!(
        king.get_candidate_moves((5, 1)),
        vec![
            (Some(6), Some(2)),
            (Some(6), Some(0)),
            (Some(4), Some(2)),
            (Some(4), Some(0)),
            (Some(6), Some(1)),
            (Some(4), Some(1)),
            (Some(5), Some(2)),
            (Some(5), Some(0)),
        ]
    );
}

fn targets(moves: &[Command]) -> Vec<((usize, usize), bool)> {
    let mut list: Vec<((usize, usize), bool)> = moves.iter().map(|c| (c.to, c.takes)).collect();
    list.sort();
    list
}

#[test]
fn pawn_offers_steps_and_captures() {
    let board = board_of(&[
        ((5, 2), PieceType::Pawn, Color::White),
        ((4, 3), PieceType::Knight, Color::Black),
        ((6, 3), PieceType::Knight, Color::White),
    ]);
    let pawn = piece(PieceType::Pawn, Color::White);
    let moves = pawn.get_pseudo_legal_moves((5, 2), &board);
    assert_eq!(targets(&moves), vec![((4, 3), true), ((5, 3), false), ((5, 4), false)]);
    for command in &moves {
        assert_eq!(command.piece, PieceType::Pawn);
        assert_eq!(command.from, (Some(5), Some(2)));
        assert_eq!(command.check, None);
        assert_eq!(command.castle, None);
    }
    let mut blocked = board;
    blocked.insert((5, 3), piece(PieceType::Pawn, Color::Black));
    let moves = pawn.get_pseudo_legal_moves((5, 2), &blocked);
    assert_eq!(targets(&moves), vec![((4, 3), true), ((5, 4), false)]);
    let moves = pawn.get_pseudo_legal_moves((5, 3), &board);
    assert_eq!(targets(&moves), vec![((5, 4), false)]);
    let edge = piece(PieceType::Pawn, Color::Black);
    let board = board_of(&[((2, 6), PieceType::Rook, Color::White)]);
    assert_eq!(targets(&edge.get_pseudo_legal_moves((1, 7), &board)), vec![
        ((1, 5), false),
        ((1, 6), false),
        ((2, 6), true)
    ]);
    assert_eq!(edge.get_pseudo_legal_moves((1, 1), &board), vec![]);
    assert_eq!(edge.get_pseudo_legal_moves((0, 5), &board), vec![]);
}

#[test]
fn knight_and_king_offer_their_neighbours() {
    let board = board_of(&[
        ((3, 2), PieceType::Pawn, Color::White),
        ((2, 3), PieceType::Pawn, Color::Black),
    ]);
    let knight = piece(PieceType::Knight, Color::White);
    assert_eq!(targets(&knight.get_pseudo_legal_moves((1, 1), &board)), vec![((2, 3), true)]);
    assert_eq!(knight.get_pseudo_legal_moves((4, 4), &board).len(), 7);
    let king = piece(PieceType::King, Color::Black);
    assert_eq!(targets(&king.get_pseudo_legal_moves((2, 2), &board)), vec![
        ((1, 1), false),
        ((1, 2), false),
        ((1, 3), false),
        ((2, 1), false),
        ((3, 1), false),
        ((3, 2), true),
        ((3, 3), false)
    ]);
}

#[test]
fn sliding_pieces_stop_at_the_first_piece() {
    let board = board_of(&[
        ((4, 6), PieceType::Pawn, Color::Black),
        ((6, 4), PieceType::Pawn, Color::White),
        ((6, 6), PieceType::Pawn, Color::Black),
        ((2, 2), PieceType::Pawn, Color::White),
    ]);
    let rook = piece(PieceType::Rook, Color::White);
    assert_eq!(targets(&rook.get_pseudo_legal_moves((4, 4), &board)), vec![
        ((1, 4), false),
        ((2, 4), false),
        ((3, 4), false),
        ((4, 1), false),
        ((4, 2), false),
        ((4, 3), false),
        ((4, 5), false),
        ((4, 6), true),
        ((5, 4), false)
    ]);
    let bishop = piece(PieceType::Bishop, Color::White);
    assert_eq!(targets(&bishop.get_pseudo_legal_moves((4, 4), &board)), vec![
        ((1, 7), false),
        ((2, 6), false),
        ((3, 3), false),
        ((3, 5), false),
        ((5, 3), false),
        ((5, 5), false),
        ((6, 2), false),
        ((6, 6), true),
        ((7, 1), false)
    ]);
    let queen = piece(PieceType::Queen, Color::White);
    assert_eq!(queen.get_pseudo_legal_moves((4, 4), &board).len(), 18);
    let empty = Board::new();
    assert_eq!(queen.get_pseudo_legal_moves((4, 4), &empty).len(), 27);
    assert_eq!(rook.get_pseudo_legal_moves((1, 1), &empty).len(), 14);
    assert_eq!(bishop.get_pseudo_legal_moves((1, 1), &empty).len(), 7);
    let first = rook.get_pseudo_legal_moves((1, 1), &empty);
    assert_eq!(first[0].to, (2, 1));
    assert_eq!(first[7].to, (1, 2));
}

#[test]
fn offered_moves_carry_their_annotation() {
    let mut game = Game::new();
    play_all(&mut game, &["e4", "e5", "Qh5", "Nc6", "Bc4", "Nf6"]);
    let queen = piece(PieceType::Queen, Color::White);
    let moves = queen.get_possible_moves((8, 5), &game.pieces);
    let mate: Vec<&Command> = moves.iter().filter(|c| c.to == (6, 7)).collect();
    assert_eq!(mate.len(), 1);
    assert_eq!(mate[0].check, Some(Check::Checkmate));
    assert!(mate[0].takes);
    assert_eq!(mate[0].to_notation(), "Qxf7#");
    let quiet: Vec<&Command> = moves.iter().filter(|c| c.to == (8, 3)).collect();
    assert_eq!(quiet.len(), 1);
    assert_eq!(quiet[0].check, None);
    let check: Vec<&Command> = moves.iter().filter(|c| c.to == (8, 7)).collect();
    assert_eq!(check.len(), 1);
    assert_eq!(check[0].check, None);
    let taking_e5: Vec<&Command> = moves.iter().filter(|c| c.to == (5, 5)).collect();
    assert_eq!(taking_e5.len(), 1);
    assert_eq!(taking_e5[0].check, Some(Check::Check));
    assert_eq!(game.annotation(&Command::parse("Qxf7").unwrap()), Some(Check::Checkmate));
    assert_eq!(game.annotation(&Command::parse("Qxe5").unwrap()), Some(Check::Check));
    assert_eq!(game.annotation(&Command::parse("Qh3").unwrap()), None);
    assert_eq!(game.annotation(&Command::parse("Qh4").unwrap()), None);
    assert_eq!(game.annotation(&Command::parse("Qa5").unwrap()), None);
    assert_eq!(moves.len(), queen.get_pseudo_legal_moves((8, 5), &game.pieces).len());
}

#[test]
fn exposing_moves_are_offered_without_annotation() {
    let board = board_of(&[
        ((5, 1), PieceType::King, Color::White),
        ((5, 2), PieceType::Rook, Color::White),
        ((5, 8), PieceType::Rook, Color::Black),
        ((1, 8), PieceType::King, Color::Black),
    ]);
    let rook = piece(PieceType::Rook, Color::White);
    let offered = rook.get_possible_moves((5, 2), &board);
    assert_eq!(offered.len(), 13);
    let aside: Vec<&Command> = offered.iter().filter(|c| c.to == (1, 2)).collect();
    assert_eq!(aside.len(), 1);
    assert_eq!(aside[0].check, None);
    let capture: Vec<&Command> = offered.iter().filter(|c| c.to == (5, 8)).collect();
    assert_eq!(capture[0].check, Some(Check::Check));
    let legal = Game::from(board, Color::White).get_all_possible_moves(Color::White);
    let rook_moves = legal.iter().filter(|c| c.piece == PieceType::Rook).count();
    assert_eq!(rook_moves, 6);
    let king_moves = legal.iter().filter(|c| c.piece == PieceType::King).count();
    assert_eq!(king_moves, 4);
    assert_eq!(legal.len(), 10);
}

#[test]
fn listing_moves_twice_gives_the_same_moves() {
    let mut game = Game::new();
    let first = game.get_all_possible_moves(Color::White);
    let second = game.get_all_possible_moves(Color::White);
    assert_eq!(first, second);
    assert_eq!(first.len(), 20);
    assert_eq!(game.get_all_possible_moves(Color::Black).len(), 20);
    play_all(&mut game, &["e4", "e5", "Qh5", "Nc6"]);
    let before = game;
    let first = game.get_all_possible_moves(Color::White);
    let second = game.get_all_possible_moves(Color::White);
    assert_eq!(sorted(first.clone()), sorted(second));
    assert_eq!(game, before);
    for (i, a) in first.iter().enumerate() {
        for b in first.iter().skip(i + 1) {
            assert_ne!(a, b);
        }
    }
}

#[test]
fn listed_moves_can_all_be_played() {
    let mut game = Game::new();
    play_all(&mut game, &["e4", "e5", "Nf3", "Nc6", "Bb5", "a6"]);
    let moves = game.get_all_possible_moves(Color::White);
    assert!(moves.len() > 20);
    for command in &moves {
        let mut copy = game;
        assert_eq!(copy.play(command), Ok(()));
        match command.check {
            Some(Check::Check) => assert_eq!(copy.state, GameState::Check(Color::Black)),
            Some(Check::Checkmate) => assert_eq!(copy.state, GameState::Checkmate(Color::White)),
            None => assert_eq!(copy.state, GameState::InProgress),
        }
    }
}

#[test]
fn first_piece_in_board_order_makes_an_ambiguous_move() {
    let board = board_of(&[
        ((2, 1), PieceType::Knight, Color::White),
        ((6, 3), PieceType::Knight, Color::White),
        ((5, 1), PieceType::King, Color::White),
        ((5, 8), PieceType::King, Color::Black),
    ]);
    let mut game = Game::from(board, Color::White);
    assert_eq!(game.play(&Command::parse("Nd2").unwrap()), Ok(()));
    assert_eq!(game.pieces.get((4, 2)), Some(piece(PieceType::Knight, Color::White)));
    assert_eq!(game.pieces.get((2, 1)), None);
    assert_eq!(game.pieces.get((6, 3)), Some(piece(PieceType::Knight, Color::White)));

    let mut game = Game::from(board, Color::White);
    assert_eq!(game.play(&Command::parse("Nfd2").unwrap()), Ok(()));
    assert_eq!(game.pieces.get((4, 2)), Some(piece(PieceType::Knight, Color::White)));
    assert_eq!(game.pieces.get((2, 1)), Some(piece(PieceType::Knight, Color::White)));
    assert_eq!(game.pieces.get((6, 3)), None);

    let mut game = Game::from(board, Color::White);
    assert_eq!(game.play(&Command::parse("N1d2").unwrap()), Ok(()));
    assert_eq!(game.pieces.get((2, 1)), None);
    assert_eq!(game.pieces.get((6, 3)), Some(piece(PieceType::Knight, Color::White)));

    let mut game = Game::from(board, Color::White);
    assert_eq!(game.play(&Command::parse("N3d2").unwrap()), Ok(()));
    assert_eq!(game.pieces.get((2, 1)), Some(piece(PieceType::Knight, Color::White)));
    assert_eq!(game.pieces.get((6, 3)), None);
}

#[test]
fn stalemate_is_detected() {
    let board = board_of(&[
        ((8, 8), PieceType::King, Color::Black),
        ((6, 7), PieceType::King, Color::White),
        ((7, 5), PieceType::Queen, Color::White),
    ]);
    let mut game = Game::from(board, Color::White);
    assert_eq!(game.play(&Command::parse("Qg6").unwrap()), Ok(()));
    assert_eq!(game.state, GameState::Stalemate);
    assert!(game.is_stalemate(Color::Black));
    assert!(!game.is_checkmate(Color::Black));
    assert!(!game.is_check(Color::Black));
    assert!(!game.has_legal_move(Color::Black));
    assert!(game.has_legal_move(Color::White));
    assert!(!game.is_stalemate(Color::White));
}

#[test]
fn state_follows_each_move() {
    let mut game = Game::new();
    play_all(&mut game, &["e4", "e5", "Qh5", "Nc6"]);
    assert_eq!(game.state, GameState::InProgress);
    assert_eq!(game.play(&Command::parse("Qxf7").unwrap()), Ok(()));
    assert_eq!(game.state, GameState::Check(Color::Black));
    assert!(game.is_check(Color::Black));
    assert!(!game.is_checkmate(Color::Black));
    assert_eq!(game.play(&Command::parse("Nf6").unwrap()), Err(ChessError::InCheck));
    assert_eq!(game.state, GameState::Check(Color::Black));
    assert_eq!(game.turn, Color::Black);
    assert_eq!(game.play(&Command::parse("Kxf7").unwrap()), Ok(()));
    assert_eq!(game.state, GameState::InProgress);
    assert_eq!(game.turn, Color::White);
}

#[test]
fn only_the_side_to_move_plays() {
    let mut game = Game::new();
    assert_eq!(game.play(&Command::parse("e5").unwrap()), Err(ChessError::InvalidMove));
    play_all(&mut game, &["e4"]);
    assert_eq!(game.play(&Command::parse("d4").unwrap()), Err(ChessError::InvalidMove));
    play_all(&mut game, &["d5", "exd5"]);
    assert_eq!(game.pieces.get((4, 5)), Some(piece(PieceType::Pawn, Color::White)));
    assert_eq!(game.pieces.get((5, 4)), None);
    assert_eq!(game.pieces.entries().len(), 31);
}

#[test]
fn simulation_leaves_the_game_untouched() {
    let game = Game::new();
    let before = game;
    let next = game.simulate_move(&Command::parse("Nf3").unwrap()).unwrap();
    assert_eq!(game, before);
    assert_eq!(next.turn, Color::White);
    assert_eq!(next.state, GameState::InProgress);
    assert_eq!(next.pieces.get((6, 3)), Some(piece(PieceType::Knight, Color::White)));
    assert_eq!(next.pieces.get((7, 1)), None);
    assert_eq!(next.pieces.entries().len(), 32);
}

#[test]
fn board_is_drawn_from_the_top() {
    let text = Game::new().render();
    let rule = "-".repeat(17);
    let back = "|R|N|B|Q|K|B|N|R|";
    let pawns = "|P|P|P|P|P|P|P|P|";
    let empty = "| | | | | | | | |";
    let ranks = [back, pawns, empty, empty, empty, empty, pawns, back];
    let mut expected = format!("{}\n", rule);
    for rank in ranks {
        expected.push_str(&format!("{}\n{}\n", rank, rule));
    }
    expected.push('\n');
    assert_eq!(text, expected);
    let board = board_of(&[
        ((1, 8), PieceType::King, Color::Black),
        ((8, 1), PieceType::Queen, Color::White),
    ]);
    let text = Game::from(board, Color::White).render();
    let lines: Vec<&str> = text.lines().collect();
    assert_eq!(lines.len(), 18);
    assert_eq!(lines[1], "|K| | | | | | | |");
    assert_eq!(lines[15], "| | | | | | | |Q|");
    assert_eq!(lines[17], "");
}

#[test]
fn errors_explain_themselves() {
    assert_eq!(ChessError::InvalidMove.message(), "Invalid move");
    assert_eq!(
        ChessError::InCheck.message(),
        "Cannot move into check. If you are in check, you must move out of check"
    );
}

#[test]
fn pieces_have_letters() {
    assert_eq!(piece(PieceType::King, Color::White).letter(), 'K');
    assert_eq!(piece(PieceType::Queen, Color::Black).letter(), 'Q');
    assert_eq!(piece(PieceType::Rook, Color::White).letter(), 'R');
    assert_eq!(piece(PieceType::Bishop, Color::Black).letter(), 'B');
    assert_eq!(piece(PieceType::Knight, Color::White).letter(), 'N');
    assert_eq!(piece(PieceType::Pawn, Color::Black).letter(), 'P');
    assert_eq!(Color::White.opposite(), Color::Black);
    assert_eq!(Color::Black.opposite(), Color::White);
    assert_eq!(Castle::KingSide, Castle::KingSide);
}
