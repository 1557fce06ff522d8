//! En-passant capture detection. The board's en-passant target names the
//! square the enemy pawn double-stepped onto; a friendly pawn beside it
//! captures by moving one rank past it, onto the crossed square.

use vstd::prelude::*;

use crate::board_representation;
use crate::board_representation::{Board, PieceColor, spec_piece_id};
use crate::pieces;

verus! {

/// The square an en-passant capture lands on, one rank beyond the target
/// in the mover's forward direction.
pub open spec fn spec_ep_move_bit(en_passant_target_bit: u8, piece_color: PieceColor) -> int {
    match piece_color {
        PieceColor::White => en_passant_target_bit - 8,
        PieceColor::Black => en_passant_target_bit + 8,
    }
}

/// The en-passant capture available to the pawn at `piece_bit`, if any:
/// the pair of the captured pawn's square and the landing square. It
/// exists exactly when the board has an en-passant target within one
/// square of the pawn, an enemy pawn sits on the target, and the landing
/// square is empty on both boards.
pub open spec fn spec_en_passant_capture(
    board: Board,
    friendly_board: Seq<u64>,
    enemy_board: Seq<u64>,
    piece_bit: u8,
) -> Option<(u8, u8)> {
    if spec_piece_id(friendly_board, piece_bit) != pieces::PAWN_ID {
        None
    } else {
        match board.en_passant_target_bit {
            Some(target) => {
                if piece_bit as int - target as int > 1 || target as int - piece_bit as int > 1 {
                    None
                } else if spec_piece_id(enemy_board, target) == pieces::PAWN_ID {
                    let move_bit = spec_ep_move_bit(target, board.piece_to_move) as u8;
                    if spec_piece_id(friendly_board, move_bit) + spec_piece_id(
                        enemy_board,
                        move_bit,
                    ) == 0 {
                        Some((target, move_bit))
                    } else {
                        None
                    }
                } else {
                    None
                }
            },
            None => None,
        }
    }
}

/// Returns the en-passant capture and landing squares when the piece at
/// `piece_bit` is a pawn that can capture en passant, `None` otherwise.
pub fn get_en_passant_capture(
    board: &Board,
    friendly_board: &[u64; 3],
    enemy_board: &[u64; 3],
    piece_bit: u8,
) -> (r: Option<(u8, u8)>)
    requires
        piece_bit < 64,
        board.en_passant_target_bit matches Some(t) ==> t < 64 && (
        board.piece_to_move is White ==> t >= 8) && (board.piece_to_move is Black ==> t < 56),
    ensures
        r == spec_en_passant_capture(*board, friendly_board@, enemy_board@, piece_bit),
        // An en-passant capture is reported exactly when every condition
        // holds: the piece is a pawn, a target square is set at most one
        // square away, an enemy pawn sits on it, and the landing square is
        // empty.
        r matches Some(bits) ==> {
            &&& spec_piece_id(friendly_board@, piece_bit) == pieces::PAWN_ID
            &&& board.en_passant_target_bit == Some(bits.0)
            &&& -1 <= piece_bit as int - bits.0 as int <= 1
            &&& spec_piece_id(enemy_board@, bits.0) == pieces::PAWN_ID
            &&& bits.1 == spec_ep_move_bit(bits.0, board.piece_to_move)
            &&& spec_piece_id(friendly_board@, bits.1) == 0
            &&& spec_piece_id(enemy_board@, bits.1) == 0
        },
        (r is None && spec_piece_id(friendly_board@, piece_bit) == pieces::PAWN_ID
            && board.en_passant_target_bit is Some) ==> {
            let target = board.en_passant_target_bit->0;
            ||| piece_bit as int - target as int > 1
            ||| target as int - piece_bit as int > 1
            ||| spec_piece_id(enemy_board@, target) != pieces::PAWN_ID
            ||| spec_piece_id(friendly_board@, spec_ep_move_bit(target, board.piece_to_move) as u8)
                + spec_piece_id(
                enemy_board@,
                spec_ep_move_bit(target, board.piece_to_move) as u8,
            ) != 0
        },
{
    // Nothing to check when the piece is not a pawn.
    if board_representation::read_piece_id(friendly_board, piece_bit) != pieces::PAWN_ID {
        return None;
    }

    if let Some(en_passant_target_bit) = board.en_passant_target_bit {
        // The capture is impossible when the pawn is not beside the target.
        let bit_distance = piece_bit as i8 - en_passant_target_bit as i8;
        if bit_distance > 1 || bit_distance < -1 {
            return None;
        }

        // There must be an enemy pawn on the target square.
        if board_representation::read_piece_id(enemy_board, en_passant_target_bit)
            == pieces::PAWN_ID {
            let ep_move_bit = calc_ep_move_bit(en_passant_target_bit, board.piece_to_move);
            let friendly_move_bit_id = board_representation::read_piece_id(
                friendly_board,
                ep_move_bit,
            );
            let enemy_move_bit_id = board_representation::read_piece_id(enemy_board, ep_move_bit);

            // The pawn can perform the capture only when the landing
            // square is empty on both boards.
            if friendly_move_bit_id + enemy_move_bit_id == 0 {
                return Some((en_passant_target_bit, ep_move_bit));
            }
        }
    }

    None
}

/// The en-passant landing square for the given target square and mover.
fn calc_ep_move_bit(en_passant_target_bit: u8, piece_color: PieceColor) -> (r: u8)
    requires
        piece_color is White ==> en_passant_target_bit >= 8,
        piece_color is Black ==> en_passant_target_bit < 248,
    ensures
        r == spec_ep_move_bit(en_passant_target_bit, piece_color),
{
    match piece_color {
        PieceColor::White => en_passant_target_bit - 8,
        PieceColor::Black => en_passant_target_bit + 8,
    }
}

} // verus!
