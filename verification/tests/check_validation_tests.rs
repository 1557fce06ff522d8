use chessbot::board_representation::PieceColor;
use chessbot::check_validation::{get_potential_checking_pieces, is_king_in_check};
use chessbot::fen::read_fen;

#[test]
fn test_get_potential_checking_pieces() {
    let board = read_fen("rnbqkbnr/pppppppp/8/8/3K4/5p2/PPPPPPPP/RNBQ1BNR w kq - 0 1");
    let result = get_potential_checking_pieces(&board, PieceColor::White);
    let mut result_array = result.internal_array;
    result_array.sort();

    // Squares of pieces which might be putting the king in check.
    let expected_array = [0, 4, 9, 12, 15, 42, 255, 255, 255, 255, 255, 255, 255, 255, 255, 255];

    assert_eq!(result_array, expected_array);
}

#[test]
fn test_is_king_in_check() {
    // A king not in check.
    let board = read_fen("rnbqkbnr/pppppppp/8/8/3K4/5p2/PPPPPPPP/RNBQ1BNR w kq - 0 1");
    let potential_checking_pieces = get_potential_checking_pieces(&board, PieceColor::White);

    let result = is_king_in_check(&board, PieceColor::White, &potential_checking_pieces);
    assert_eq!(result, false);

    // A king in check.
    let board = read_fen("rnbqkbnr/pppppppp/8/8/1b6/8/PPP1PPPP/RNBQKBNR w KQkq - 0 1");
    let potential_checking_pieces = get_potential_checking_pieces(&board, PieceColor::White);

    let result = is_king_in_check(&board, PieceColor::White, &potential_checking_pieces);
    assert_eq!(result, true);
}
