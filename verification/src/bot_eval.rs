//! Leaf evaluation for the search: a blend of the material change along
//! the searched line and the side to move's piece-square-table value.
//!
//! The score is an exact integer: the conventional blend of 70% material
//! (a change of `c` pawns scaled over a 40-pawn window) and 30% table
//! value (scaled over a 600-point window, with the midgame share given by
//! the mover's material out of 39) is multiplied through by the common
//! denominator 936000, so no rounding ever happens.

use vstd::prelude::*;

use crate::board_representation::{Board, PieceColor, spec_piece_id};
use crate::pesto;
use crate::pesto::spec_table_total;

verus! {

/// The factor on the material term: 0.7 / 40 of the common scale.
pub const MATERIAL_TERM_FACTOR: i64 = 16380;

/// The factor on each table term: 0.3 / (600 * 39) of the common scale.
pub const TABLE_TERM_FACTOR: i64 = 12;

/// The constant part: the offsets of both terms, folded together.
pub const EVAL_OFFSET: i64 = 140400;

/// The board half and material total the evaluator reads: those of the
/// side to move; black reads the tables through inverted indices.
pub open spec fn spec_eval(material_change: int, board: Board) -> int {
    let white = board.piece_to_move is White;
    let mover_material = (if white {
        board.white_material
    } else {
        board.black_material
    }) as int;
    let half = if white {
        board.white_board@
    } else {
        board.black_board@
    };
    let midgame_total = spec_table_total(true, half, !white, 64);
    let endgame_total = spec_table_total(false, half, !white, 64);
    MATERIAL_TERM_FACTOR * (material_change + 20) + TABLE_TERM_FACTOR * (midgame_total
        * mover_material + endgame_total * (39 - mover_material)) + EVAL_OFFSET
}

/// Evaluates a leaf: the material change accumulated from the root blended
/// with the mover's piece-square-table value, on the exact integer scale.
pub fn eval(material_change: i64, board: &Board) -> (r: i64)
    requires
        -1000000 <= material_change <= 1000000,
        forall|b: u8| b < 64 ==> spec_piece_id(board.white_board@, b) != 7,
        forall|b: u8| b < 64 ==> spec_piece_id(board.black_board@, b) != 7,
    ensures
        r == spec_eval(material_change as int, *board),
        -20000000000 <= r <= 20000000000,
{
    let (mover_material, invert) = match board.piece_to_move {
        PieceColor::White => (board.white_material, false),
        PieceColor::Black => (board.black_material, true),
    };
    let half = if invert {
        &board.black_board
    } else {
        &board.white_board
    };

    let midgame_total = pesto::table_total(true, half, invert) as i64;
    let endgame_total = pesto::table_total(false, half, invert) as i64;
    let m = mover_material as i64;

    proof {
        assert(-8192 * 128 <= midgame_total * m <= 8192 * 128) by (nonlinear_arith)
            requires
                -8192 <= midgame_total <= 8192,
                -128 <= m <= 128,
        ;
        assert(-8192 * 170 <= endgame_total * (39 - m) <= 8192 * 170) by (nonlinear_arith)
            requires
                -8192 <= endgame_total <= 8192,
                -128 <= m <= 128,
        ;
    }

    MATERIAL_TERM_FACTOR * (material_change + 20) + TABLE_TERM_FACTOR * (midgame_total * m
        + endgame_total * (39 - m)) + EVAL_OFFSET
}

} // verus!
