use chessbot::board_representation::{read_piece_id, Board, PerspectiveBoards, PieceColor};
use chessbot::fen::read_fen;
use chessbot::move_generation::generate_moves;

// Gathers the data generate_moves needs for one piece of one side.
fn generate_moves_result(
    board: &Board,
    piece_bit: u8,
    for_team: PieceColor,
) -> (u64, Option<u8>, Option<(u8, u8)>) {
    let perspective_boards = PerspectiveBoards::gen(board, for_team);
    let piece_id = read_piece_id(&perspective_boards.friendly_board, piece_bit);
    generate_moves(board, piece_bit, piece_id, for_team, &perspective_boards)
}

#[test]
fn test_generate_moves() {
    // White queen movement with blockers on every ray.
    let board = read_fen("rnbqkbnr/pppppppp/8/8/2Q5/8/PPPPPPPP/RNBQKBNR w KQkq - 0 1");
    let expected_bitboard: u64 = 0b0000000000000000011100001101111101110000101010000010010000000000;
    assert_eq!(
        generate_moves_result(&board, 37, PieceColor::White),
        (expected_bitboard, None, None)
    );

    // Black pawn capturing and moving.
    let board = read_fen("rnbqkbnr/ppp2pp1/7p/3pp3/3P4/8/PPP1PPPP/RNBQKBNR w KQkq - 0 1");
    let expected_bitboard: u64 = 0b0000000000000000000000000001100000000000000000000000000000000000;
    assert_eq!(
        generate_moves_result(&board, 27, PieceColor::Black),
        (expected_bitboard, None, None)
    );

    // Black pawn double move.
    let board = read_fen("rnbqkbnr/ppp2pp1/7p/3pp3/3P4/8/PPP1PPPP/RNBQKBNR w KQkq - 0 1");
    let expected_bitboard: u64 = 0b0000000000000000000000000000000000000010000000100000000000000000;
    assert_eq!(
        generate_moves_result(&board, 9, PieceColor::Black),
        (expected_bitboard, Some(25), None)
    );

    // White pawn double move.
    let board = Board::new();
    let expected_bitboard: u64 = 0b0000000000000000000100000001000000000000000000000000000000000000;
    assert_eq!(
        generate_moves_result(&board, 52, PieceColor::White),
        (expected_bitboard, Some(36), None)
    );

    // White pawn double move blocked by a piece.
    let board = read_fen("rnbqkbnr/ppp2pp1/7p/3pp3/3P4/2N5/PPP1PPPP/R1BQKBNR w KQkq - 0 1");
    assert_eq!(generate_moves_result(&board, 53, PieceColor::White), (0, None, None));

    // White pawn en passant.
    let board = read_fen("rnbqkbnr/ppppp1pp/8/5pP1/8/8/PPPPPP1P/RNBQKBNR w KQkq 26 0 1");
    let expected_bitboard: u64 = 0b0000000000000000000000000000000000000000000001100000000000000000;
    assert_eq!(
        generate_moves_result(&board, 25, PieceColor::White),
        (expected_bitboard, None, Some((26, 18)))
    );
}

#[test]
fn test_black_en_passant_move_bit() {
    // The en-passant landing square's bit joins the move bitboard exactly
    // when the capture is available.
    let board = read_fen("rnbqkbnr/ppppp1pp/8/8/5pP1/8/PPPPPP1P/RNBQKBNR b KQkq 33 0 1");
    let (move_bitboard, _, ep) = generate_moves_result(&board, 34, PieceColor::Black);
    assert_eq!(ep, Some((33, 41)));
    assert!(move_bitboard & (1u64 << 41) != 0);
}

#[test]
fn test_surrounded_slider_has_no_moves() {
    // A queen enclosed by eight friendly pawns cannot move at all.
    let board = read_fen("8/8/8/2PPP3/2PQP3/2PPP3/8/8 w - - 0 1");
    let (move_bitboard, target, ep) = generate_moves_result(&board, 36, PieceColor::White);
    assert_eq!(move_bitboard, 0);
    assert_eq!(target, None);
    assert_eq!(ep, None);
}

#[test]
fn test_starting_pawn_single_and_double_step() {
    // A pawn on its starting rank with both forward squares empty gets the
    // single step and the double step, and the double-move destination is
    // reported as the en-passant target.
    let board = Board::new();
    let (move_bitboard, target, _) = generate_moves_result(&board, 9, PieceColor::Black);
    assert!(move_bitboard & (1u64 << 17) != 0);
    assert!(move_bitboard & (1u64 << 25) != 0);
    assert_eq!(target, Some(25));
}
