//! A bitboard chess engine: move generation over direction templates,
//! check detection through a potential-checker shortlist, and an
//! iterative-deepening alpha-beta search with a bounded quiescence tail.
//!
//! Squares are numbered 0..63; bit `b` of a 64-bit bitboard stands for
//! square `b`, with rank `b / 8` and file `b % 8` (file 7 is the leftmost
//! column of the printed board).

pub mod bitboard_manipulation;
pub mod direction_bitboards;
pub mod fixed_vector;
pub mod pieces;
pub mod board_representation;
pub mod en_passant;
pub mod move_generation;
pub mod check_validation;
pub mod turn;
pub mod pesto;
pub mod bot_eval;
pub mod clock;
pub mod bot;
pub mod fen;
