use chessbot::en_passant::get_en_passant_capture;
use chessbot::fen::read_fen;

#[test]
fn test_calc_ep_move_bit() {
    // En passant available to white.
    let board = read_fen("rnbqkbnr/ppp1pppp/8/3pP3/8/8/PPPP1PPP/RNBQKBNR w KQkq 28 0 1");
    let result = get_en_passant_capture(&board, &board.white_board, &board.black_board, 27);

    assert_eq!(result, Some((28, 20)));

    // No en passant: a piece blocks the landing square.
    let board = read_fen("r1bqkbnr/ppp1pppp/3n4/3pP3/8/8/PPPP1PPP/RNBQKBNR w KQkq 28 0 1");
    let result = get_en_passant_capture(&board, &board.white_board, &board.black_board, 27);

    assert_eq!(result, None);

    // En passant available to black.
    let board = read_fen("rnbqkbnr/ppppp1pp/8/8/5pP1/8/PPPPPP1P/RNBQKBNR b KQkq 33 0 1");
    let result = get_en_passant_capture(&board, &board.black_board, &board.white_board, 34);

    assert_eq!(result, Some((33, 41)));

    // White trying an en passant from the wrong square.
    let board = read_fen("rnbqkbnr/pppp1ppp/8/4p3/8/5P2/PPPPP1PP/RNBQKBNR w KQkq 27 0 1");
    let result = get_en_passant_capture(&board, &board.white_board, &board.black_board, 42);

    assert_eq!(result, None);
}

#[test]
fn test_en_passant_needs_enemy_pawn_on_target() {
    // The capture is only reported while the enemy pawn still sits on the
    // target square.
    let board = read_fen("rnbqkbnr/ppp1pppp/8/4P3/8/8/PPPP1PPP/RNBQKBNR w KQkq 28 0 1");
    let result = get_en_passant_capture(&board, &board.white_board, &board.black_board, 27);
    assert_eq!(result, None);
}
