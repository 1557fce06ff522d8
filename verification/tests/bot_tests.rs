use std::time::Duration;

use chessbot::bitboard_manipulation::bit_on;
use chessbot::board_representation::{read_piece_id, Board, PerspectiveBoards};
use chessbot::bot::{gen_best_move, order_moves};
use chessbot::check_validation::get_potential_checking_pieces;
use chessbot::fen::read_fen;
use chessbot::move_generation::generate_moves;
use chessbot::turn::{get_ep_bits_for_turn, take_turn};

#[test]
fn test_bot() {
    let board = read_fen("7k/6pp/8/1r6/6b1/8/8/K7 b - - 0 1");
    let best_move = gen_best_move(&board, Duration::from_secs(1));

    assert_eq!(best_move, Ok((33, 19)));
}

#[test]
fn test_order_moves() {
    let board = read_fen("6pk/3p2pp/r7/8/6p1/3Q3q/8/K7 w - - 0 1");
    let perspective_boards = PerspectiveBoards::gen(&board, board.piece_to_move);
    let result = order_moves(&board, None, &perspective_boards).unwrap();

    assert_eq!(result.len(), 27);
}

#[test]
fn test_opening_best_move_is_legal() {
    // From the starting position a one-second search returns a move whose
    // squares are on the board, which the generator produces for its own
    // side, and which the turn function accepts.
    let board = Board::new();
    let best_move = gen_best_move(&board, Duration::from_secs(1));
    let (from, to) = best_move.unwrap();
    assert!(from < 64 && to < 64);

    let perspective_boards = PerspectiveBoards::gen(&board, board.piece_to_move);
    let piece_id = read_piece_id(&perspective_boards.friendly_board, from);
    assert!(piece_id != 0);
    let (move_bitboard, target, cap) =
        generate_moves(&board, from, piece_id, board.piece_to_move, &perspective_boards);
    assert!(bit_on(move_bitboard, to));

    let ep_bits = get_ep_bits_for_turn(target, cap, to);
    let checkers = get_potential_checking_pieces(&board, board.piece_to_move);
    let outcome = take_turn(&board, piece_id, from, to, false, ep_bits, checkers);
    assert!(outcome.is_ok());
}

#[test]
fn test_no_best_move_without_time() {
    // With no time at all, no depth completes and no move is owed.
    let board = Board::new();
    let best_move = gen_best_move(&board, Duration::from_millis(0));
    assert_eq!(best_move, Err(()));
}

#[test]
fn test_capacity_overflow_fails_loudly() {
    // Eight spread-out queens produce far more than the per-side move
    // capacity: the search refuses to answer rather than truncate.
    let board = read_fen("q2q2q1/8/1q4q1/8/1q4q1/8/1q4q1/k6K b - - 0 1");
    assert!(chessbot::board_representation::board_is_wf(&board));
    let best_move = gen_best_move(&board, Duration::from_secs(1));
    assert_eq!(best_move, Err(()));
}
