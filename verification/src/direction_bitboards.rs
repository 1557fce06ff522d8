//! Direction templates: reusable bitboard patterns for rays and step
//! patterns, together with the origin square at which each pattern is
//! already aligned and the kind of shift that moves it elsewhere.
//!
//! Board geometry (bit = rank * 8 + file; file 7 is the leftmost column):
//!
//! ```text
//!      C7 C6 C5 C4 C3 C2 C1 C0
//! -----------------------------
//! R0 | 07 06 05 04 03 02 01 00
//! R1 | 15 14 13 12 11 10 09 08
//! R2 | 23 22 21 20 19 18 17 16
//! R3 | 31 30 29 28 27 26 25 24
//! R4 | 39 38 37 36 35 34 33 32
//! R5 | 47 46 45 44 43 42 41 40
//! R6 | 55 54 53 52 51 50 49 48
//! R7 | 63 62 61 60 59 58 57 56
//! ```

use vstd::prelude::*;

verus! {

/// A direction pattern plus the data needed to move it to a piece's
/// square: no shift is needed when the piece sits at `origin_bit`.
#[derive(Debug, PartialEq, Clone, Copy)]
pub struct DirectionBitboard {
    pub bitboard: u64,
    pub origin_bit: u8,
    pub shift_type: ShiftType,
}

/// How a direction pattern is moved to a piece's square.
#[derive(Debug, PartialEq, Clone, Copy)]
pub enum ShiftType {
    /// Shift the whole word by ranks.
    Standard,
    /// Shift each byte lane by files.
    Byte,
    /// Re-anchor a diagonal through the piece's square, lane by lane.
    Diagonal,
    /// Shift by ranks, then by files.
    Both,
}

/// A diagonal line running from the bottom left of the board to the top right.
pub const DIAGONAL_RIGHT_BITBOARD: u64 =
    0b1000000001000000001000000001000000001000000001000000001000000001;

/// A diagonal line running from the top left of the board to the bottom right.
pub const DIAGONAL_LEFT_BITBOARD: u64 =
    0b0000000100000010000001000000100000010000001000000100000010000000;

/// A vertical line in file 7.
pub const VERTICAL_LINE_BITBOARD: u64 =
    0b1000000010000000100000001000000010000000100000001000000010000000;

/// A horizontal line in rank 7.
pub const HORIZONTAL_LINE_BITBOARD: u64 =
    0b1111111100000000000000000000000000000000000000000000000000000000;

pub const KNIGHT_MOVES_BITBOARD: u64 =
    0b0000000000101000010001000000000001000100001010000000000000000000;

pub const KING_MOVES_BITBOARD: u64 =
    0b0000000000000000001110000010100000111000000000000000000000000000;

pub const WHITE_PAWN_MOVES_BITBOARD: u64 =
    0b0000000000000000000000000000000000010000000000000000000000000000;

pub const WHITE_PAWN_CAPTURE_MOVES_BITBOARD: u64 =
    0b0000000000000000000000000000000000101000000000000000000000000000;

pub const BLACK_PAWN_MOVES_BITBOARD: u64 =
    0b0000000000000000000100000000000000000000000000000000000000000000;

pub const BLACK_PAWN_CAPTURE_MOVES_BITBOARD: u64 =
    0b0000000000000000001010000000000000000000000000000000000000000000;

pub const WHITE_PAWN_DOUBLE_MOVES_BITBOARD: u64 =
    0b0000000000000000000000010000000100000000000000000000000000000000;

pub const BLACK_PAWN_DOUBLE_MOVES_BITBOARD: u64 =
    0b0000000000000000000000000000000000000001000000010000000000000000;

pub open spec fn spec_diagonal_right() -> DirectionBitboard {
    DirectionBitboard {
        bitboard: DIAGONAL_RIGHT_BITBOARD,
        origin_bit: 36,
        shift_type: ShiftType::Diagonal,
    }
}

pub open spec fn spec_diagonal_left() -> DirectionBitboard {
    DirectionBitboard {
        bitboard: DIAGONAL_LEFT_BITBOARD,
        origin_bit: 35,
        shift_type: ShiftType::Diagonal,
    }
}

pub open spec fn spec_vertical_line() -> DirectionBitboard {
    DirectionBitboard {
        bitboard: VERTICAL_LINE_BITBOARD,
        origin_bit: 31,
        shift_type: ShiftType::Byte,
    }
}

pub open spec fn spec_horizontal_line() -> DirectionBitboard {
    DirectionBitboard {
        bitboard: HORIZONTAL_LINE_BITBOARD,
        origin_bit: 60,
        shift_type: ShiftType::Standard,
    }
}

pub open spec fn spec_knight_moves() -> DirectionBitboard {
    DirectionBitboard {
        bitboard: KNIGHT_MOVES_BITBOARD,
        origin_bit: 36,
        shift_type: ShiftType::Both,
    }
}

pub open spec fn spec_king_moves() -> DirectionBitboard {
    DirectionBitboard {
        bitboard: KING_MOVES_BITBOARD,
        origin_bit: 36,
        shift_type: ShiftType::Both,
    }
}

pub open spec fn spec_white_pawn_moves() -> DirectionBitboard {
    DirectionBitboard {
        bitboard: WHITE_PAWN_MOVES_BITBOARD,
        origin_bit: 36,
        shift_type: ShiftType::Both,
    }
}

pub open spec fn spec_white_pawn_capture_moves() -> DirectionBitboard {
    DirectionBitboard {
        bitboard: WHITE_PAWN_CAPTURE_MOVES_BITBOARD,
        origin_bit: 36,
        shift_type: ShiftType::Both,
    }
}

pub open spec fn spec_black_pawn_moves() -> DirectionBitboard {
    DirectionBitboard {
        bitboard: BLACK_PAWN_MOVES_BITBOARD,
        origin_bit: 36,
        shift_type: ShiftType::Both,
    }
}

pub open spec fn spec_black_pawn_capture_moves() -> DirectionBitboard {
    DirectionBitboard {
        bitboard: BLACK_PAWN_CAPTURE_MOVES_BITBOARD,
        origin_bit: 36,
        shift_type: ShiftType::Both,
    }
}

pub open spec fn spec_white_pawn_double_moves() -> DirectionBitboard {
    DirectionBitboard {
        bitboard: WHITE_PAWN_DOUBLE_MOVES_BITBOARD,
        origin_bit: 48,
        shift_type: ShiftType::Both,
    }
}

pub open spec fn spec_black_pawn_double_moves() -> DirectionBitboard {
    DirectionBitboard {
        bitboard: BLACK_PAWN_DOUBLE_MOVES_BITBOARD,
        origin_bit: 8,
        shift_type: ShiftType::Both,
    }
}

pub fn diagonal_right() -> (r: DirectionBitboard)
    ensures
        r == spec_diagonal_right(),
{
    DirectionBitboard {
        bitboard: DIAGONAL_RIGHT_BITBOARD,
        origin_bit: 36,
        shift_type: ShiftType::Diagonal,
    }
}

pub fn diagonal_left() -> (r: DirectionBitboard)
    ensures
        r == spec_diagonal_left(),
{
    DirectionBitboard {
        bitboard: DIAGONAL_LEFT_BITBOARD,
        origin_bit: 35,
        shift_type: ShiftType::Diagonal,
    }
}

pub fn vertical_line() -> (r: DirectionBitboard)
    ensures
        r == spec_vertical_line(),
{
    DirectionBitboard {
        bitboard: VERTICAL_LINE_BITBOARD,
        origin_bit: 31,
        shift_type: ShiftType::Byte,
    }
}

pub fn horizontal_line() -> (r: DirectionBitboard)
    ensures
        r == spec_horizontal_line(),
{
    DirectionBitboard {
        bitboard: HORIZONTAL_LINE_BITBOARD,
        origin_bit: 60,
        shift_type: ShiftType::Standard,
    }
}

pub fn knight_moves() -> (r: DirectionBitboard)
    ensures
        r == spec_knight_moves(),
{
    DirectionBitboard {
        bitboard: KNIGHT_MOVES_BITBOARD,
        origin_bit: 36,
        shift_type: ShiftType::Both,
    }
}

pub fn king_moves() -> (r: DirectionBitboard)
    ensures
        r == spec_king_moves(),
{
    DirectionBitboard {
        bitboard: KING_MOVES_BITBOARD,
        origin_bit: 36,
        shift_type: ShiftType::Both,
    }
}

pub fn white_pawn_moves() -> (r: DirectionBitboard)
    ensures
        r == spec_white_pawn_moves(),
{
    DirectionBitboard {
        bitboard: WHITE_PAWN_MOVES_BITBOARD,
        origin_bit: 36,
        shift_type: ShiftType::Both,
    }
}

pub fn white_pawn_capture_moves() -> (r: DirectionBitboard)
    ensures
        r == spec_white_pawn_capture_moves(),
{
    DirectionBitboard {
        bitboard: WHITE_PAWN_CAPTURE_MOVES_BITBOARD,
        origin_bit: 36,
        shift_type: ShiftType::Both,
    }
}

pub fn black_pawn_moves() -> (r: DirectionBitboard)
    ensures
        r == spec_black_pawn_moves(),
{
    DirectionBitboard {
        bitboard: BLACK_PAWN_MOVES_BITBOARD,
        origin_bit: 36,
        shift_type: ShiftType::Both,
    }
}

pub fn black_pawn_capture_moves() -> (r: DirectionBitboard)
    ensures
        r == spec_black_pawn_capture_moves(),
{
    DirectionBitboard {
        bitboard: BLACK_PAWN_CAPTURE_MOVES_BITBOARD,
        origin_bit: 36,
        shift_type: ShiftType::Both,
    }
}

pub fn white_pawn_double_moves() -> (r: DirectionBitboard)
    ensures
        r == spec_white_pawn_double_moves(),
{
    DirectionBitboard {
        bitboard: WHITE_PAWN_DOUBLE_MOVES_BITBOARD,
        origin_bit: 48,
        shift_type: ShiftType::Both,
    }
}

pub fn black_pawn_double_moves() -> (r: DirectionBitboard)
    ensures
        r == spec_black_pawn_double_moves(),
{
    DirectionBitboard {
        bitboard: BLACK_PAWN_DOUBLE_MOVES_BITBOARD,
        origin_bit: 8,
        shift_type: ShiftType::Both,
    }
}

/// The six templates a piece could capture along, aligned at the king's
/// square to shortlist potential checkers.
pub open spec fn spec_all_capture_bitboards() -> Seq<DirectionBitboard> {
    seq![
        spec_diagonal_right(),
        spec_diagonal_left(),
        spec_vertical_line(),
        spec_horizontal_line(),
        spec_knight_moves(),
        spec_king_moves(),
    ]
}

pub fn all_capture_bitboards() -> (r: [DirectionBitboard; 6])
    ensures
        r@ == spec_all_capture_bitboards(),
{
    let r = [
        diagonal_right(),
        diagonal_left(),
        vertical_line(),
        horizontal_line(),
        knight_moves(),
        king_moves(),
    ];
    proof {
        assert(r@ =~= spec_all_capture_bitboards());
    }
    r
}

} // verus!
