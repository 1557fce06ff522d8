use chessbot::board_representation::Board;
use chessbot::bot_eval::eval;
use chessbot::pesto::{convert_bit_to_index, get_table_entry, invert_index, table_total};
use chessbot::fen::read_fen;

#[test]
fn test_convert_bit_to_index() {
    assert_eq!(convert_bit_to_index(8), 15);
}

#[test]
fn test_invert_index() {
    assert_eq!(invert_index(56), 7);
    assert_eq!(invert_index(14), 49);
}

#[test]
fn test_table_entries_match_known_values() {
    // Midgame pawn table, second row, leftmost entry of the source data.
    assert_eq!(get_table_entry(true, 1, 8), 98);
    // Midgame knight table, first entry.
    assert_eq!(get_table_entry(true, 2, 0), -128);
    // Endgame king table, last entry.
    assert_eq!(get_table_entry(false, 6, 63), -43);
}

#[test]
fn test_eval_on_empty_board() {
    // With no pieces and no material change the evaluation is exactly the
    // constant part of the blend: 16380 * 20 + 140400.
    assert_eq!(eval(0, &Board::empty()), 468000);
}

#[test]
fn test_table_value_prefers_developed_position() {
    // Pushing the queen's pawn improves white's midgame table total.
    let board1 = read_fen("rnbqkbnr/pppppppp/8/8/8/8/PPPPPPPP/RNBQKBNR w KQkq - 0 1");
    let board2 = read_fen("rnbqkbnr/pppppppp/8/8/3P4/8/PPP1PPPP/RNBQKBNR w KQkq - 0 1");
    let mg1 = table_total(true, &board1.white_board, false);
    let mg2 = table_total(true, &board2.white_board, false);
    assert!(mg2 > mg1);
}
