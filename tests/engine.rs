use tnewt_board::board::{Algorithm, Board, Error, GameState};
use tnewt_board::castling::{get_squares, Rights, State as Castling};
use tnewt_board::color::Color;
use tnewt_board::coordinate::Coordinate;
use tnewt_board::mov::Move;
use tnewt_board::piece::{Kind, Piece};

const FENS: [&str; 6] = [
    "rnbqkbnr/pppppppp/8/8/8/8/PPPPPPPP/RNBQKBNR w KQkq - 0 1",
    "r3k2r/p1ppqpb1/bn2pnp1/3PN3/1p2P3/2N2Q1p/PPPBBPPP/R3K2R w KQkq - 0 1",
    "8/2p5/3p4/KP5r/1R3p1k/8/4P1P1/8 w - - 0 1",
    "r3k2r/Pppp1ppp/1b3nbN/nP6/BBP1P3/q4N2/Pp1P2PP/R2Q1RK1 w kq - 0 1",
    "rnbq1k1r/pp1Pbppp/2p5/8/2B5/8/PPP1NnPP/RNBQK2R w KQ - 1 8",
    "r4rk1/1pp1qppp/p1np1n2/2b1p1B1/2B1P1b1/P1NP1N2/1PP1QPPP/R4RK1 w - - 0 10",
];

fn index(name: &str) -> usize {
    Coordinate::from(name).unwrap().unwrap().into_index()
}

fn mv(from: &str, to: &str) -> Move {
    Move::new(index(from), index(to))
}

#[test]
fn make_then_unmake_restores_every_position() {
    for fen in FENS {
        let mut board = Board::from_fen(fen).unwrap();
        board.set_algorithm(Algorithm::Unmove);
        let original = board.clone();
        for m in board.clone().gen_legal_moves() {
            board.make_move(&m).unwrap();
            assert_ne!(board.squares(), original.squares());
            board.unmake_move().unwrap();
            assert_eq!(board, original);
        }
    }
}

#[test]
fn both_algorithms_give_the_same_moves() {
    for fen in FENS {
        let mut a = Board::from_fen(fen).unwrap();
        let mut b = Board::from_fen(fen).unwrap();
        a.set_algorithm(Algorithm::Clone);
        b.set_algorithm(Algorithm::Unmove);
        assert_eq!(a.gen_legal_moves(), b.gen_legal_moves());
        assert_eq!(b.state_history.len(), 0);
    }
}

#[test]
fn perft_splits_by_first_move() {
    let mut board = Board::new();
    let counts = board.perft(2);
    assert_eq!(counts.len(), 20);
    assert!(counts.iter().all(|&(_, n)| n == 20));
    assert_eq!(counts.iter().map(|&(_, n)| n).sum::<u32>(), 400);
    assert!(board.perft(0).is_empty());
    assert_eq!(board.depth_num_positions(0), 1);
}

#[test]
fn castling_through_attack_or_pieces_is_rejected() {
    // Both sides free to castle.
    let mut board = Board::from_fen("r3k2r/8/8/8/8/8/8/R3K2R w KQkq - 0 1").unwrap();
    let moves = board.gen_legal_moves();
    assert!(moves.contains(&mv("e1", "g1")));
    assert!(moves.contains(&mv("e1", "c1")));
    // A rook on f8 attacks f1, which the king crosses on the kingside.
    let mut board = Board::from_fen("r3kr2/8/8/8/8/8/8/R3K2R w KQq - 0 1").unwrap();
    let moves = board.gen_legal_moves();
    assert!(!moves.contains(&mv("e1", "g1")));
    assert!(moves.contains(&mv("e1", "c1")));
    // A knight on b1 blocks the queenside.
    let mut board = Board::from_fen("r3k2r/8/8/8/8/8/8/RN2K2R w KQkq - 0 1").unwrap();
    let moves = board.gen_legal_moves();
    assert!(moves.contains(&mv("e1", "g1")));
    assert!(!moves.contains(&mv("e1", "c1")));
    // A king in check may not castle.
    let mut board = Board::from_fen("r3k2r/8/8/8/8/8/4r3/R3K2R w KQkq - 0 1").unwrap();
    let moves = board.gen_legal_moves();
    assert!(!moves.contains(&mv("e1", "g1")));
    assert!(!moves.contains(&mv("e1", "c1")));
}

#[test]
fn castling_moves_the_rook_and_drops_rights() {
    let mut board = Board::from_fen("r3k2r/8/8/8/8/8/8/R3K2R w KQkq - 0 1").unwrap();
    board.make_move(&mv("e1", "g1")).unwrap();
    let squares = board.squares();
    assert_eq!(squares[index("g1")], Some(Piece { kind: Kind::King, color: Color::White }));
    assert_eq!(squares[index("f1")], Some(Piece { kind: Kind::Rook, color: Color::White }));
    assert_eq!(squares[index("h1")], None);
    assert_eq!(squares[index("e1")], None);
    assert_eq!(board.state().castling_state.white, Rights::Neither);
    assert_eq!(board.state().castling_state.black, Rights::Both);
    assert_eq!(board.state().king_indices.get(Color::White), index("g1"));
}

#[test]
fn en_passant_takes_the_pawn_that_advanced_two_squares() {
    let mut board = Board::from_fen("4k3/3p4/8/4P3/8/8/8/4K3 b - - 0 1").unwrap();
    board.make_move(&mv("d7", "d5")).unwrap();
    assert_eq!(board.state().ep_index, Some(index("d6")));
    let moves = board.gen_legal_moves();
    assert!(moves.contains(&mv("e5", "d6")));
    board.make_move(&mv("e5", "d6")).unwrap();
    let squares = board.squares();
    assert_eq!(squares[index("d5")], None);
    assert_eq!(squares[index("d6")], Some(Piece { kind: Kind::Pawn, color: Color::White }));
    assert_eq!(board.state().halfmove_clock, 0);
    assert_eq!(board.to_fen(), "4k3/8/3P4/8/8/8/8/4K3 b - - 0 2");
}

#[test]
fn en_passant_lapses_after_one_move() {
    let mut board = Board::from_fen("4k3/3p4/8/4P3/8/8/8/4K3 b - - 0 1").unwrap();
    board.make_move(&mv("d7", "d5")).unwrap();
    board.make_move(&mv("e1", "f1")).unwrap();
    board.make_move(&mv("e8", "f8")).unwrap();
    assert_eq!(board.state().ep_index, None);
    let moves = board.gen_legal_moves();
    assert!(!moves.contains(&mv("e5", "d6")));
}

#[test]
fn promotion_gives_four_moves_and_undoes_to_a_pawn() {
    let mut board = Board::from_fen("8/4P3/8/8/8/8/k7/4K3 w - - 0 1").unwrap();
    board.set_algorithm(Algorithm::Unmove);
    let moves = board.gen_legal_moves();
    let promotions: Vec<&Move> = moves.iter().filter(|m| m.start_index == index("e7")).collect();
    assert_eq!(promotions.len(), 4);
    let queen = mv("e7", "e8").set_promotion_kind(Kind::Queen);
    assert_eq!(queen.to_string(), "e7e8q");
    board.make_move(&queen).unwrap();
    assert_eq!(board.squares()[index("e8")], Some(Piece { kind: Kind::Queen, color: Color::White }));
    board.unmake_move().unwrap();
    assert_eq!(board.squares()[index("e7")], Some(Piece { kind: Kind::Pawn, color: Color::White }));
    assert_eq!(board.squares()[index("e8")], None);
}

#[test]
fn checkmate_and_stalemate_end_the_game() {
    // Fool's mate: White to move is checkmated.
    let mut board =
        Board::from_fen("rnb1kbnr/pppp1ppp/8/4p3/6Pq/5P2/PPPPP2P/RNBQKBNR w KQkq - 1 3").unwrap();
    assert_eq!(board.num_legal_moves(), 0);
    assert_eq!(board.play_random_game(10), Ok(GameState::Victory(Color::Black)));
    // Black to move has no move and is not in check.
    let mut board = Board::from_fen("k7/2Q5/1K6/8/8/8/8/8 b - - 0 1").unwrap();
    assert_eq!(board.play_random_game(10), Ok(GameState::Draw));
    board.play_legal_move(None).unwrap();
    assert_eq!(board.state().game_state, GameState::Draw);
}

#[test]
fn fifty_moves_without_progress_draw() {
    let mut board = Board::from_fen("4k3/8/8/8/8/8/8/R3K3 w - - 49 60").unwrap();
    board.make_move(&mv("a1", "a2")).unwrap();
    assert_eq!(board.state().halfmove_clock, 50);
    assert_eq!(board.state().game_state, GameState::Draw);
    assert_eq!(board.state().fullmove_count, 60);
}

#[test]
fn random_game_respects_the_move_limit() {
    let mut board = Board::new();
    board.set_algorithm(Algorithm::Unmove);
    let result = board.play_random_game(7).unwrap();
    assert_eq!(result, GameState::Playing);
    assert_eq!(board.state_history.len(), 7);
    assert_ne!(board.squares(), Board::new().squares());
}

#[test]
fn fen_round_trip() {
    for fen in FENS {
        assert_eq!(Board::from_fen(fen).unwrap().to_fen(), fen);
    }
    let mut board = Board::new();
    board.make_move(&mv("e2", "e4")).unwrap();
    assert_eq!(board.to_fen(), "rnbqkbnr/pppppppp/8/8/4P3/8/PPPP1PPP/RNBQKBNR b KQkq e3 0 1");
}

#[test]
fn fen_errors() {
    assert_eq!(
        Board::from_fen("rnbqkbnr/pppppppp/8/8/8/8/PPPPPPPP/RNBQKBNX w KQkq - 0 1"),
        Err(Error::InvalidPieceChar('X'))
    );
    assert_eq!(
        Board::from_fen("8/8 w - - 0 1"),
        Err(Error::InvalidFenBoardLength("8/8 w - - 0 1".to_string()))
    );
    assert_eq!(Board::from_fen("8/8/8/8/8/8/8/8 w - - 0 1"), Err(Error::NoKing));
    assert_eq!(
        Board::from_fen("4k3/8/8/8/8/8/8/4K3 x - - 0 1"),
        Err(Error::InvalidColorStr("x".to_string()))
    );
    assert_eq!(
        Board::from_fen("4k3/8/8/8/8/8/8/4K3 w - z9 0 1"),
        Err(Error::InvalidCoordinate("z9".to_string()))
    );
    assert_eq!(
        Board::from_fen("4k3/8/8/8/8/8/8/4K3 w - - -1 1"),
        Err(Error::InvalidHalfmoveStr("-1".to_string()))
    );
    assert_eq!(
        Board::from_fen("4k3/8/8/8/8/8/8/4K3 w - - 0 4294967296"),
        Err(Error::InvalidFullmoveStr("4294967296".to_string()))
    );
    let board = Board::from_fen("4k3/8/8/8/8/8/8/4K3 b - - +7 4294967295").unwrap();
    assert_eq!(board.state().halfmove_clock, 7);
    assert_eq!(board.state().fullmove_count, 4294967295);
    assert_eq!(board.state().turn, Color::Black);
}

#[test]
fn move_errors() {
    let mut board = Board::new();
    assert_eq!(board.make_move(&mv("e4", "e5")), Err(Error::MoveEmptySquare));
    assert_eq!(board.make_move(&mv("e7", "e5")), Err(Error::MoveOppositeColor));
    assert_eq!(board.make_move(&mv("e1", "g1")), Err(Error::InvalidCastlingMove(index("g1"))));
    assert_eq!(board, Board::new());
    assert_eq!(board.unmake_move(), Err(Error::UndoFromFirstMove));
    assert_eq!(get_squares(&Move::new(0, 1)).unwrap_err(), Error::InvalidCastlingMove(1));
    let mut chars = [' '; 64];
    chars[4] = 'k';
    assert_eq!(Board::from_chars(&chars), Err(Error::NoKing));
    chars[60] = 'K';
    assert!(Board::from_chars(&chars).is_ok());
    chars[0] = 'x';
    assert_eq!(Board::from_chars(&chars), Err(Error::InvalidPieceChar('x')));
    assert_eq!(Kind::from('x'), Err(Error::InvalidPieceChar('x')));
    assert_eq!(Piece::get_piece(None), Err(Error::MoveEmptySquare));
    assert_eq!(Color::from("w"), Ok(Color::White));
    assert_eq!(Color::from("white"), Err(Error::InvalidColorStr("white".to_string())));
}

#[test]
fn coordinates_and_text() {
    assert_eq!(index("a8"), 0);
    assert_eq!(index("h1"), 63);
    assert_eq!(index("e4"), 36);
    assert_eq!(Coordinate::from("-"), Ok(None));
    assert_eq!(Coordinate::from_index(12).to_string(), "e7");
    assert_eq!(mv("e2", "e4").to_string(), "e2e4");
    assert_eq!(mv("g1", "f3").indices(), (62, 45));
    assert_eq!(Kind::Knight.to_char(), 'n');
    assert_eq!(Piece { kind: Kind::Knight, color: Color::White }.to_char(), 'N');
    assert_eq!(Piece::square_to_char(&None), '.');
}

#[test]
fn castling_rights_text_and_revocation() {
    let rights = Castling::from("KQkq");
    assert_eq!(rights.to_str(), "KQkq");
    assert_eq!(Castling::from("Kq").to_str(), "Kq");
    assert_eq!(Castling::from("-").to_str(), "");
    let mut white = Rights::Both;
    white.revoke(Rights::Kingside);
    assert_eq!(white, Rights::Queenside);
    white.revoke(Rights::Kingside);
    assert_eq!(white, Rights::Queenside);
    white.revoke(Rights::Both);
    assert_eq!(white, Rights::Neither);
    assert_eq!(Rights::from(false, true).to_str(), "q");
    assert_eq!(Rights::Kingside.gen_moves(&Color::Black), vec![Move::new(4, 6)]);
    let m = mv("e1", "g1");
    let mut board = Board::new();
    assert_eq!(m.is_castling(&board.squares()), Ok(true));
    assert_eq!(m.castling_move(&board.squares()), Ok(Some(62)));
    assert_eq!(mv("e2", "e4").is_castling(&board.squares()), Ok(false));
    assert_eq!(mv("e4", "e5").castling_move(&board.squares()), Err(Error::MoveEmptySquare));
    board.set_castling_state("k");
    assert_eq!(board.state().castling_state, Castling { white: Rights::Neither, black: Rights::Kingside });
    assert_eq!(board.king_index(Color::Black), Ok(4));
}

#[test]
fn random_game_on_stalemate_is_a_draw() {
    let mut board = Board::from_fen("7k/5Q2/6K1/8/8/8/8/8 b - - 0 1").unwrap();
    let squares = board.squares();
    assert_eq!(board.play_random_game(10), Ok(GameState::Draw));
    assert_eq!(board.squares(), squares);
}

#[test]
fn random_game_on_checkmate_is_a_win() {
    let mut board = Board::from_fen("7k/6Q1/6K1/8/8/8/8/8 b - - 0 1").unwrap();
    let squares = board.squares();
    assert_eq!(board.play_random_game(10), Ok(GameState::Victory(Color::White)));
    assert_eq!(board.squares(), squares);
}

#[test]
fn random_game_with_no_moves_allowed_changes_nothing() {
    let mut board = Board::new();
    board.set_algorithm(Algorithm::Unmove);
    assert_eq!(board.play_random_game(0), Ok(GameState::Playing));
    let mut fresh = Board::new();
    fresh.set_algorithm(Algorithm::Unmove);
    assert_eq!(board, fresh);
}

#[test]
fn corner_rights_belong_to_the_corner_owner() {
    // A white rook leaving a8 takes no right from White, but Black loses its queenside.
    let mut board = Board::from_fen("R3k2r/8/8/8/8/8/8/R3K2R w KQkq - 0 1").unwrap();
    board.make_move(&mv("a8", "b8")).unwrap();
    assert_eq!(board.state().castling_state, Castling { white: Rights::Both, black: Rights::Kingside });
    // Capturing on h8 removes Black's kingside right.
    let mut board = Board::from_fen("r3k2r/7R/8/8/8/8/8/R3K3 w Qkq - 0 1").unwrap();
    board.make_move(&mv("h7", "h8")).unwrap();
    assert_eq!(board.state().castling_state, Castling { white: Rights::Queenside, black: Rights::Queenside });
    // A white rook leaving h1 removes White's kingside right.
    let mut board = Board::from_fen("r3k2r/8/8/8/8/8/8/R3K2R w KQkq - 0 1").unwrap();
    board.make_move(&mv("h1", "h5")).unwrap();
    assert_eq!(board.state().castling_state, Castling { white: Rights::Queenside, black: Rights::Both });
}

#[test]
fn move_from_index_pair() {
    assert_eq!(Move::from([12, 28]), Move::new(12, 28));
}

#[test]
fn checked_count_matches_and_detects_overflow_free_cases() {
    let mut board = Board::new();
    assert_eq!(board.checked_depth_num_positions(3), Some(8902));
    assert_eq!(board.checked_depth_num_positions(0), Some(1));
    assert_eq!(board, Board::new());
}
