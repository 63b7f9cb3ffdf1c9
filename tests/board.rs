use tnewt_board::board::Board;
use tnewt_board::castling::{get_squares, Rights};
use tnewt_board::color::Color;

#[test]
fn board_default_fen_functions() {
    let board = Board::new();
    let board2 =
        Board::from_fen("rnbqkbnr/pppppppp/8/8/8/8/PPPPPPPP/RNBQKBNR w KQkq - 0 1").unwrap();
    assert_eq!(board, board2);
}

#[test]
fn get_inbetween_moves() {
    let castling_moves = Rights::from(true, true).gen_moves(&Color::White);
    let inbetween_squares = [vec![61, 62], vec![57, 58, 59]];
    assert_eq!(castling_moves.len(), 2);
    for i in 0..2 {
        match get_squares(&castling_moves[i]) {
            Ok(squares) => assert_eq!(squares.empty_indices, inbetween_squares[i]),
            Err(_) => panic!("`CastlingRights.gen_moves()` returned `BasicMove`"),
        }
    }
}
