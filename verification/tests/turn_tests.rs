use chessbot::check_validation::get_potential_checking_pieces;
use chessbot::fen::read_fen;
use chessbot::turn::{get_ep_bits_for_turn, take_turn, TurnError};

#[test]
fn test_take_turn() {
    // White capturing a piece.
    let board = read_fen("r1bqkb1r/pppp1ppp/2n2n2/4p3/4P3/2N2N2/PPPP1PPP/R1BQKB1R w KQkq - 0 1");
    let potential_checking_pieces = get_potential_checking_pieces(&board, board.piece_to_move);
    let expected_board =
        read_fen("r1bqkb1r/pppp1ppp/2n2n2/4N3/4P3/2N5/PPPP1PPP/R1BQKB1R b KQkq - 0 1");

    assert_eq!(
        take_turn(&board, 2, 42, 27, false, (None, None), potential_checking_pieces),
        Ok((expected_board, 1))
    );

    // White attempting to put its own king in check.
    let board = read_fen("r1bqkb1r/p1pp1pp1/1p3n1p/4n3/6b1/2N5/PPPP1PPP/R1BQK2R w KQkq - 0 1");
    let potential_checking_pieces = get_potential_checking_pieces(&board, board.piece_to_move);

    assert_eq!(
        take_turn(&board, 6, 59, 51, false, (None, None), potential_checking_pieces),
        Err(TurnError::Check)
    );

    // Black performing an en passant.
    let board = read_fen("rn1qkbnr/p1ppp1pp/bp6/8/5pP1/2N5/PPPPPP1P/R1BQKBNR b KQkq 33 0 1");
    let potential_checking_pieces = get_potential_checking_pieces(&board, board.piece_to_move);
    let expected_board =
        read_fen("rn1qkbnr/p1ppp1pp/bp6/8/8/2N3p1/PPPPPP1P/R1BQKBNR w KQkq - 0 2");

    assert_eq!(
        take_turn(&board, 1, 34, 41, false, (None, Some(33)), potential_checking_pieces),
        Ok((expected_board, 1))
    );
}

#[test]
fn test_rejected_turn_leaves_board_untouched() {
    // A turn rejected with Check hands back no board and cannot disturb
    // the caller's: the board compares equal to a copy taken beforehand.
    let board = read_fen("r1bqkb1r/p1pp1pp1/1p3n1p/4n3/6b1/2N5/PPPP1PPP/R1BQK2R w KQkq - 0 1");
    let before = board.clone();
    let potential_checking_pieces = get_potential_checking_pieces(&board, board.piece_to_move);

    let result = take_turn(&board, 6, 59, 51, false, (None, None), potential_checking_pieces);
    assert_eq!(result, Err(TurnError::Check));
    assert_eq!(board, before);
}

#[test]
fn test_quiet_move_rejected_in_captures_only_mode() {
    let board = read_fen("r1bqkb1r/pppp1ppp/2n2n2/4p3/4P3/2N2N2/PPPP1PPP/R1BQKB1R w KQkq - 0 1");
    let potential_checking_pieces = get_potential_checking_pieces(&board, board.piece_to_move);

    // A knight retreat captures nothing, so quiescence mode rejects it.
    let result = take_turn(&board, 2, 42, 57, true, (None, None), potential_checking_pieces);
    assert_eq!(result, Err(TurnError::NotCapture));
}

#[test]
fn test_get_ep_bits_for_turn() {
    // The target is kept only for the double move itself, the capture
    // square only for the move landing on the crossed square.
    assert_eq!(get_ep_bits_for_turn(Some(36), None, 36), (Some(36), None));
    assert_eq!(get_ep_bits_for_turn(Some(36), None, 44), (None, None));
    assert_eq!(get_ep_bits_for_turn(None, Some((33, 41)), 41), (None, Some(33)));
    assert_eq!(get_ep_bits_for_turn(None, Some((33, 41)), 42), (None, None));
}
