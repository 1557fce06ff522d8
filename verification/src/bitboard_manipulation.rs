//! Bit primitives on 64-bit board words: byte isolation, whole-word and
//! per-byte shifts, bit tests, and the moving of direction templates
//! to a piece's square.
//!
//! Board geometry (bit = rank * 8 + file; file 7 is the leftmost column):
//!
//! ```text
//!      C7 C6 C5 C4 C3 C2 C1 C0
//! -----------------------------
//! R0 | 07 06 05 04 03 02 01 00
//! R1 | 15 14 13 12 11 10 09 08
//! R2 | 23 22 21 20 19 18 17 16
//! R3 | 31 30 29 28 27 26 25 24
//! R4 | 39 38 37 36 35 34 33 32
//! R5 | 47 46 45 44 43 42 41 40
//! R6 | 55 54 53 52 51 50 49 48
//! R7 | 63 62 61 60 59 58 57 56
//! ```

use vstd::prelude::*;

use crate::direction_bitboards;
use crate::direction_bitboards::{DirectionBitboard, ShiftType, HORIZONTAL_LINE_BITBOARD};
use crate::fixed_vector::FixedVector;

verus! {

broadcast use vstd::std_specs::bits::axiom_u8_trailing_zeros, vstd::std_specs::bits::axiom_u64_trailing_zeros, vstd::array::group_array_axioms;

/// Bit `k` of `w`, as a boolean.
pub open spec fn nth_bit(w: u64, k: u64) -> bool {
    (w >> k) & 1u64 == 1u64
}

/// Bit `k` of a single byte.
pub open spec fn nth_bit_u8(b: u8, k: u8) -> bool {
    (b >> k) & 1u8 == 1u8
}

/// Byte `k` of `w` (byte 0 holds the least significant bits).
pub open spec fn byte_of(w: u64, k: int) -> u8 {
    (w >> ((8 * k) as u64)) as u8
}

/// A whole-word shift; negative amounts shift left, positive shift right.
pub open spec fn spec_shift_u64(w: u64, s: int) -> u64 {
    if s < 0 {
        w << ((-s) as u64)
    } else {
        w >> (s as u64)
    }
}

/// A single byte lane shifted; negative amounts shift left, positive right.
pub open spec fn spec_shift_byte(b: u8, s: int) -> u8 {
    if s < 0 {
        b << ((-s) as u8)
    } else {
        b >> (s as u8)
    }
}

/// The low `n` byte lanes of the per-byte shift of `w`, reassembled.
pub open spec fn spec_shift_bytes_prefix(w: u64, s: int, n: int) -> u64
    decreases n,
{
    if n <= 0 {
        0u64
    } else {
        spec_shift_bytes_prefix(w, s, n - 1) | ((spec_shift_byte(byte_of(w, n - 1), s) as u64) << (
        (8 * (n - 1)) as u64))
    }
}

/// Per-byte shift: every byte lane of `w` is shifted by `s` on its own,
/// so no bit ever crosses a byte boundary.
pub open spec fn spec_shift_bytes(w: u64, s: int) -> u64 {
    spec_shift_bytes_prefix(w, s, 8)
}

/// The (file, rank) coordinates of a square.
pub open spec fn spec_piece_coordinates(piece_bit: u8) -> (int, int) {
    (piece_bit as int % 8, piece_bit as int / 8)
}

/// The square at (file, rank) coordinates.
pub open spec fn spec_piece_bit(piece_coordinates: (int, int)) -> int {
    piece_coordinates.1 * 8 + piece_coordinates.0
}

proof fn lemma_mask_test_is_nth_bit(w: u64, b: u64)
    by (bit_vector)
    requires
        b < 64,
    ensures
        (w & (1u64 << b) != 0) == nth_bit(w, b),
{
}

/// Isolates byte `isolate` of a 64-bit word; byte 0 is the least
/// significant one.
pub fn isolate_byte(num: &u64, isolate: u8) -> (r: u8)
    requires
        isolate < 8,
    ensures
        r == byte_of(*num, isolate as int),
{
    (*num >> ((isolate as u64) * 8)) as u8
}

/// Shifts a whole 64-bit word; the sign of `shift` gives the direction
/// (negative left, positive right).
pub fn shift_u64(num_to_shift: u64, shift: i8) -> (r: u64)
    requires
        -63 <= shift <= 63,
    ensures
        r == spec_shift_u64(num_to_shift, shift as int),
{
    if shift < 0 {
        return num_to_shift << ((-shift) as u64);
    }
    num_to_shift >> (shift as u64)
}

/// Shifts each byte of a 64-bit word independently, so a pattern can move
/// across files without bleeding between ranks. The sign of `shift` gives
/// the direction (negative left, positive right).
pub fn shift_bytes(num: u64, shift: i8) -> (r: u64)
    requires
        -7 <= shift <= 7,
    ensures
        r == spec_shift_bytes(num, shift as int),
{
    let mut output: u64 = 0;
    for i in 0..8u8
        invariant
            -7 <= shift <= 7,
            output == spec_shift_bytes_prefix(num, shift as int, i as int),
    {
        let current_byte = isolate_byte(&num, i);

        let new_byte = if shift < 0 {
            current_byte << ((-shift) as u8)
        } else {
            current_byte >> (shift as u8)
        };

        output |= (new_byte as u64) << ((i as u64) * 8);
    }
    output
}

/// Returns true when bit `bit` of `num` is set.
pub fn bit_on(num: u64, bit: u8) -> (r: bool)
    requires
        bit < 64,
    ensures
        r == nth_bit(num, bit as u64),
{
    let mask: u64 = 1u64 << (bit as u64);
    proof {
        lemma_mask_test_is_nth_bit(num, bit as u64);
    }
    (num & mask) != 0
}

proof fn lemma_mask_test_is_nth_bit_u8(b: u8, k: u8)
    by (bit_vector)
    requires
        k < 8,
    ensures
        (b & (1u8 << k) != 0) == nth_bit_u8(b, k),
{
}

/// Returns true when bit `bit` of a single byte is set.
pub(crate) fn bit_on_u8(num: u8, bit: u8) -> (r: bool)
    requires
        bit < 8,
    ensures
        r == nth_bit_u8(num, bit),
{
    let mask: u8 = 1u8 << bit;
    proof {
        lemma_mask_test_is_nth_bit_u8(num, bit);
    }
    (num & mask) != 0
}

/// The (file, rank) coordinates of a square.
pub fn get_piece_coordinates(piece_bit: u8) -> (r: (i8, i8))
    ensures
        (r.0 as int, r.1 as int) == spec_piece_coordinates(piece_bit),
        0 <= r.0 < 8,
        0 <= r.1 < 32,
{
    let piece_column = piece_bit % 8;
    let piece_row = piece_bit / 8;

    (piece_column as i8, piece_row as i8)
}

/// The square at (file, rank) coordinates.
pub fn get_piece_bit(piece_coordinates: (i8, i8)) -> (r: i8)
    requires
        0 <= piece_coordinates.0 <= 8,
        0 <= piece_coordinates.1 <= 7,
    ensures
        r == spec_piece_bit((piece_coordinates.0 as int, piece_coordinates.1 as int)),
{
    piece_coordinates.1 * 8 + piece_coordinates.0
}

/// Splitting a square into (file, rank) coordinates and reassembling them
/// gives the square back.
pub proof fn lemma_piece_bit_round_trip(b: u8)
    requires
        b < 64,
    ensures
        spec_piece_bit(spec_piece_coordinates(b)) == b,
{
}

/// Per-byte shifting confines every bit to its own byte lane: byte `k` of
/// the result is a function of byte `k` of the input alone.
pub proof fn lemma_shift_bytes_lane_confinement(w: u64, s: i8, k: u64)
    requires
        -7 <= s <= 7,
        k < 8,
    ensures
        byte_of(spec_shift_bytes(w, s as int), k as int) == spec_shift_byte(
            byte_of(w, k as int),
            s as int,
        ),
{
    lemma_shift_bytes_lane_prefix(w, s, 8, k);
}

proof fn lemma_shift_bytes_lane_prefix(w: u64, s: i8, n: u64, k: u64)
    requires
        -7 <= s <= 7,
        k < 8,
        k < n <= 8,
    ensures
        byte_of(spec_shift_bytes_prefix(w, s as int, n as int), k as int) == spec_shift_byte(
            byte_of(w, k as int),
            s as int,
        ),
    decreases n,
{
    let prev = spec_shift_bytes_prefix(w, s as int, n - 1);
    let lane = spec_shift_byte(byte_of(w, n - 1), s as int);
    if k == n - 1 {
        lemma_prefix_lanes_empty_above(w, s, (n - 1) as u64, k);
        assert(byte_of(prev | ((lane as u64) << ((8 * (n - 1)) as u64)), k as int) == lane)
            by (bit_vector)
            requires
                k < 8,
                k == n - 1,
                n - 1 < 8,
                byte_of(prev, k as int) == 0,
        ;
    } else {
        lemma_shift_bytes_lane_prefix(w, s, (n - 1) as u64, k);
        assert(byte_of(prev | ((lane as u64) << ((8 * (n - 1)) as u64)), k as int) == byte_of(
            prev,
            k as int,
        ))
            by (bit_vector)
            requires
                k < 8,
                n >= 1,
                k < n - 1,
                n - 1 < 8,
        ;
    }
}

proof fn lemma_prefix_lanes_empty_above(w: u64, s: i8, n: u64, k: u64)
    requires
        -7 <= s <= 7,
        n <= 8,
        n <= k < 8,
    ensures
        byte_of(spec_shift_bytes_prefix(w, s as int, n as int), k as int) == 0,
    decreases n,
{
    if n > 0 {
        lemma_prefix_lanes_empty_above(w, s, (n - 1) as u64, k);
        let prev = spec_shift_bytes_prefix(w, s as int, n - 1);
        let lane = spec_shift_byte(byte_of(w, n - 1), s as int);
        assert(byte_of(prev | ((lane as u64) << ((8 * (n - 1)) as u64)), k as int) == 0)
            by (bit_vector)
            requires
                n >= 1,
                n - 1 < 8,
                n - 1 < k < 8,
                byte_of(prev, k as int) == 0,
        ;
    } else {
        assert(byte_of(0u64, k as int) == 0) by (bit_vector)
            requires
                k < 8,
        ;
    }
}

/// Per-byte shifting distributes over masking: shifting a masked word is
/// the shifted word masked by the shifted mask, lane by lane.
pub proof fn lemma_shift_bytes_mask(w: u64, m: u64, s: i8)
    requires
        -7 <= s <= 7,
    ensures
        spec_shift_bytes(w & m, s as int) == spec_shift_bytes(w, s as int) & spec_shift_bytes(
            m,
            s as int,
        ),
{
    lemma_shift_bytes_mask_prefix(w, m, s, 8);
}

proof fn lemma_shift_bytes_mask_prefix(w: u64, m: u64, s: i8, n: u64)
    requires
        -7 <= s <= 7,
        n <= 8,
    ensures
        spec_shift_bytes_prefix(w & m, s as int, n as int) == spec_shift_bytes_prefix(
            w,
            s as int,
            n as int,
        ) & spec_shift_bytes_prefix(m, s as int, n as int),
    decreases n,
{
    if n > 0 {
        lemma_shift_bytes_mask_prefix(w, m, s, (n - 1) as u64);
        let pw = spec_shift_bytes_prefix(w, s as int, n - 1);
        let pm = spec_shift_bytes_prefix(m, s as int, n - 1);
        let pwm = spec_shift_bytes_prefix(w & m, s as int, n - 1);
        let k = (n - 1) as u64;
        lemma_prefix_lanes_empty_above(w, s, k, k);
        lemma_prefix_lanes_empty_above(m, s, k, k);
        assert(pwm | ((spec_shift_byte(byte_of(w & m, k as int), s as int) as u64) << ((8 * (
        k as int)) as u64)) == (pw | ((spec_shift_byte(byte_of(w, k as int), s as int) as u64) << ((
        8 * (k as int)) as u64))) & (pm | ((spec_shift_byte(byte_of(m, k as int), s as int) as u64)
            << ((8 * (k as int)) as u64))))
            by (bit_vector)
            requires
                k < 8,
                -7 <= s <= 7,
                pwm == pw & pm,
                byte_of(pw, k as int) == 0,
                byte_of(pm, k as int) == 0,
        ;
    } else {
        assert(0u64 & 0u64 == 0u64) by (bit_vector);
    }
}

/// A masked vertical or diagonal ray trimmed in one direction: ranks are
/// kept outwards from `piece_row` while the masked byte still equals the
/// template byte, and the first differing rank is reported.
pub open spec fn spec_remove_vertical(
    piece_row: int,
    move_bitboard: u64,
    masked_bitboard: u64,
    check_up: bool,
) -> (u64, Option<i8>)
    decreases (if check_up {
        8 - piece_row
    } else {
        piece_row + 1
    }),
{
    if piece_row > 7 || piece_row < 0 {
        (0u64, None)
    } else {
        let move_byte = byte_of(move_bitboard, piece_row);
        let mask_byte = byte_of(masked_bitboard, piece_row);
        if move_byte == mask_byte {
            let next = if check_up {
                spec_remove_vertical(piece_row + 1, move_bitboard, masked_bitboard, check_up)
            } else {
                spec_remove_vertical(piece_row - 1, move_bitboard, masked_bitboard, check_up)
            };
            ((((mask_byte as u64) << ((8 * piece_row) as u64)) | next.0), next.1)
        } else {
            (0u64, Some(piece_row as i8))
        }
    }
}

/// The rank at which the trimming stopped is always on the board, and its
/// template byte differs from its masked byte there.
pub proof fn lemma_remove_vertical_stop_row(
    piece_row: int,
    move_bitboard: u64,
    masked_bitboard: u64,
    check_up: bool,
)
    ensures
        spec_remove_vertical(piece_row, move_bitboard, masked_bitboard, check_up).1 matches Some(v)
            ==> 0 <= v <= 7 && byte_of(move_bitboard, v as int) != byte_of(
            masked_bitboard,
            v as int,
        ),
    decreases (if check_up {
        8 - piece_row
    } else {
        piece_row + 1
    }),
{
    if 0 <= piece_row <= 7 {
        if byte_of(move_bitboard, piece_row) == byte_of(masked_bitboard, piece_row) {
            if check_up {
                lemma_remove_vertical_stop_row(piece_row + 1, move_bitboard, masked_bitboard, true);
            } else {
                lemma_remove_vertical_stop_row(
                    piece_row - 1,
                    move_bitboard,
                    masked_bitboard,
                    false,
                );
            }
        }
    }
}

/// Removes the floating end of a trimmed vertical or diagonal ray in one
/// direction, working outwards from `piece_row` a rank at a time; the
/// companion call with the other `check_up` trims the other side.
pub fn remove_move_end_vertical(
    piece_row: i8,
    move_bitboard: &u64,
    masked_bitboard: &u64,
    check_up: bool,
) -> (r: (u64, Option<i8>))
    ensures
        r == spec_remove_vertical(piece_row as int, *move_bitboard, *masked_bitboard, check_up),
    decreases (if check_up {
        8 - piece_row as int
    } else {
        piece_row as int + 1
    }),
{
    if piece_row > 7 || piece_row < 0 {
        return (0, None);
    }
    let move_byte = isolate_byte(move_bitboard, piece_row as u8);
    let mask_byte = isolate_byte(masked_bitboard, piece_row as u8);

    // As long as the move byte equals the mask byte the rank is unblocked,
    // so it is kept and the walk moves one rank further out.
    if move_byte == mask_byte {
        let own_rank: u64 = (mask_byte as u64) << ((piece_row as u64) * 8);
        let next_output = if check_up {
            remove_move_end_vertical(piece_row + 1, move_bitboard, masked_bitboard, check_up)
        } else {
            remove_move_end_vertical(piece_row - 1, move_bitboard, masked_bitboard, check_up)
        };
        (own_rank | next_output.0, next_output.1)
    } else {
        (0, Some(piece_row))
    }
}

/// A masked horizontal ray byte trimmed in one direction: bits are kept
/// outwards from `bit` while they stay set, and the first clear bit is
/// reported.
pub open spec fn spec_remove_byte_ends(bit: int, test_byte: u8, check_up: bool) -> (u8, Option<i8>)
    decreases (if check_up {
        8 - bit
    } else {
        bit + 1
    }),
{
    if bit > 7 || bit < 0 {
        (0u8, None)
    } else if nth_bit_u8(test_byte, bit as u8) {
        let next = if check_up {
            spec_remove_byte_ends(bit + 1, test_byte, check_up)
        } else {
            spec_remove_byte_ends(bit - 1, test_byte, check_up)
        };
        (((1u8 << (bit as u8)) | next.0), next.1)
    } else {
        (0u8, Some(bit as i8))
    }
}

/// The bit at which the byte trimming stopped is always within the byte.
pub proof fn lemma_remove_byte_ends_stop_bit(bit: int, test_byte: u8, check_up: bool)
    ensures
        spec_remove_byte_ends(bit, test_byte, check_up).1 matches Some(v) ==> 0 <= v <= 7,
    decreases (if check_up {
        8 - bit
    } else {
        bit + 1
    }),
{
    if 0 <= bit <= 7 {
        if nth_bit_u8(test_byte, bit as u8) {
            if check_up {
                lemma_remove_byte_ends_stop_bit(bit + 1, test_byte, true);
            } else {
                lemma_remove_byte_ends_stop_bit(bit - 1, test_byte, false);
            }
        }
    }
}

/// Removes the floating end of a masked horizontal ray byte in one
/// direction, working outwards from `bit` one bit at a time.
pub fn remove_byte_ends(bit: i8, test_byte: u8, check_up: bool) -> (r: (u8, Option<i8>))
    ensures
        r == spec_remove_byte_ends(bit as int, test_byte, check_up),
    decreases (if check_up {
        8 - bit as int
    } else {
        bit as int + 1
    }),
{
    if bit > 7 || bit < 0 {
        return (0, None);
    }

    // Bits are kept while they stay set; the first clear bit blocks the ray.
    if bit_on_u8(test_byte, bit as u8) {
        let own_bit: u8 = 1u8 << (bit as u8);
        let next_output = if check_up {
            remove_byte_ends(bit + 1, test_byte, check_up)
        } else {
            remove_byte_ends(bit - 1, test_byte, check_up)
        };
        (own_bit | next_output.0, next_output.1)
    } else {
        (0, Some(bit))
    }
}

/// The file of the single intercept bit in the given rank of
/// `intercept_bitboard`, found by a trailing-zero scan of that rank's byte.
pub open spec fn spec_get_column_from_row(row: Option<i8>, intercept_bitboard: u64) -> Option<i8> {
    match row {
        Some(r) => Some(
            vstd::std_specs::bits::u8_trailing_zeros(byte_of(intercept_bitboard, r as int)) as i8,
        ),
        None => None,
    }
}

fn get_column_from_row(row: Option<i8>, intercept_bitboard: u64) -> (r: Option<i8>)
    requires
        row matches Some(v) ==> 0 <= v <= 7,
    ensures
        r == spec_get_column_from_row(row, intercept_bitboard),
        r matches Some(c) ==> 0 <= c <= 8,
{
    if let Some(row) = row {
        return Some(isolate_byte(&intercept_bitboard, row as u8).trailing_zeros() as i8);
    }

    None
}

/// Combines an optional file and an optional rank into an optional square.
pub open spec fn spec_piece_bit_option(
    piece_column: Option<i8>,
    piece_row: Option<i8>,
) -> Option<i8> {
    match (piece_column, piece_row) {
        (Some(c), Some(r)) => Some(((r as int) * 8 + (c as int)) as i8),
        _ => None,
    }
}

fn get_piece_bit_option(piece_column: Option<i8>, piece_row: Option<i8>) -> (r: Option<i8>)
    requires
        piece_column matches Some(c) ==> 0 <= c <= 8,
        piece_row matches Some(v) ==> 0 <= v <= 7,
    ensures
        r == spec_piece_bit_option(piece_column, piece_row),
{
    if let (Some(piece_column), Some(piece_row)) = (piece_column, piece_row) {
        return Some(get_piece_bit((piece_column, piece_row)));
    }
    None
}

/// A sliding move bitboard with the squares beyond the first blocker in
/// each direction removed, together with the blockers' squares.
pub open spec fn spec_fix_move_bitboard(
    piece_coordinates: (i8, i8),
    direction_bitboard: u64,
    move_bitboard: u64,
    masked_bitboard: u64,
) -> (u64, (Option<i8>, Option<i8>)) {
    if move_bitboard == masked_bitboard {
        (masked_bitboard, (Option::<i8>::None, Option::<i8>::None))
    } else {
        let col = piece_coordinates.0 as int;
        let row = piece_coordinates.1 as int;
        if direction_bitboard != HORIZONTAL_LINE_BITBOARD {
            let lower = spec_remove_vertical(row - 1, move_bitboard, masked_bitboard, false);
            let upper = spec_remove_vertical(row + 1, move_bitboard, masked_bitboard, true);
            let intercept = move_bitboard ^ masked_bitboard;
            let intercept_bits = (
                spec_piece_bit_option(spec_get_column_from_row(lower.1, intercept), lower.1),
                spec_piece_bit_option(spec_get_column_from_row(upper.1, intercept), upper.1),
            );
            ((lower.0 | upper.0), intercept_bits)
        } else {
            let mask_byte = byte_of(masked_bitboard, row);
            let fix_lower = spec_remove_byte_ends(col - 1, mask_byte, false);
            let fix_upper = spec_remove_byte_ends(col + 1, mask_byte, true);
            let intercept_bits = (
                spec_piece_bit_option(fix_lower.1, Some(piece_coordinates.1)),
                spec_piece_bit_option(fix_upper.1, Some(piece_coordinates.1)),
            );
            ((((fix_lower.0 | fix_upper.0) as u64) << ((8 * row) as u64)), intercept_bits)
        }
    }
}

/// Trims a sliding piece's move bitboard so the ray stops at the first
/// blocking piece in each direction, and reports where it stopped. The
/// caller decides whether a blocker may be captured.
pub fn fix_move_bitboard(
    piece_coordinates: (i8, i8),
    direction_bitboard: &u64,
    move_bitboard: &u64,
    masked_bitboard: &u64,
) -> (r: (u64, (Option<i8>, Option<i8>)))
    requires
        0 <= piece_coordinates.0 < 8,
        0 <= piece_coordinates.1 < 8,
    ensures
        r == spec_fix_move_bitboard(
            piece_coordinates,
            *direction_bitboard,
            *move_bitboard,
            *masked_bitboard,
        ),
{
    if *move_bitboard == *masked_bitboard {
        return (*masked_bitboard, (None, None));
    }

    let (piece_column, piece_row) = piece_coordinates;

    // Vertical and diagonal rays are trimmed a rank at a time.
    if *direction_bitboard != HORIZONTAL_LINE_BITBOARD {
        let fix_bitboard_lower = remove_move_end_vertical(
            piece_row - 1,
            move_bitboard,
            masked_bitboard,
            false,
        );
        let fix_bitboard_upper = remove_move_end_vertical(
            piece_row + 1,
            move_bitboard,
            masked_bitboard,
            true,
        );

        let intercept_bitboard = *move_bitboard ^ *masked_bitboard;

        proof {
            lemma_remove_vertical_stop_row(
                piece_row as int - 1,
                *move_bitboard,
                *masked_bitboard,
                false,
            );
            lemma_remove_vertical_stop_row(
                piece_row as int + 1,
                *move_bitboard,
                *masked_bitboard,
                true,
            );
        }

        // The squares where the walk stopped in each direction.
        let intercept_bits = (
            get_piece_bit_option(
                get_column_from_row(fix_bitboard_lower.1, intercept_bitboard),
                fix_bitboard_lower.1,
            ),
            get_piece_bit_option(
                get_column_from_row(fix_bitboard_upper.1, intercept_bitboard),
                fix_bitboard_upper.1,
            ),
        );

        let fixed_bitboard = fix_bitboard_lower.0 | fix_bitboard_upper.0;
        return (fixed_bitboard, intercept_bits);
    }

    // Horizontal rays are trimmed within the piece's rank byte.
    let move_mask_byte = isolate_byte(masked_bitboard, piece_row as u8);

    let fix_byte_lower = remove_byte_ends(piece_column - 1, move_mask_byte, false);
    let fix_byte_upper = remove_byte_ends(piece_column + 1, move_mask_byte, true);

    proof {
        lemma_remove_byte_ends_stop_bit(piece_column as int - 1, move_mask_byte, false);
        lemma_remove_byte_ends_stop_bit(piece_column as int + 1, move_mask_byte, true);
    }

    let intercept_bits = (
        get_piece_bit_option(fix_byte_lower.1, Some(piece_row)),
        get_piece_bit_option(fix_byte_upper.1, Some(piece_row)),
    );

    let fixed_byte = fix_byte_lower.0 | fix_byte_upper.0;
    let fixed_bitboard = (fixed_byte as u64) << ((piece_row as u64) * 8);

    (fixed_bitboard, intercept_bits)
}

/// The squares whose bits are set in `w`, in ascending order, scanning
/// upwards from square `i`.
pub open spec fn on_bits_from(w: u64, i: u64) -> Seq<u8>
    decreases 64 - i,
{
    if i >= 64 {
        Seq::empty()
    } else if nth_bit(w, i) {
        seq![i as u8] + on_bits_from(w, (i + 1) as u64)
    } else {
        on_bits_from(w, (i + 1) as u64)
    }
}

/// The squares whose bits are set in `w`, in ascending order.
pub open spec fn on_bits(w: u64) -> Seq<u8> {
    on_bits_from(w, 0)
}

/// Every reported square index is on the board.
pub proof fn lemma_on_bits_elements(w: u64, i: u64)
    requires
        i <= 64,
    ensures
        forall|j: int|
            0 <= j < on_bits_from(w, i).len() ==> i <= #[trigger] on_bits_from(w, i)[j] < 64,
    decreases 64 - i,
{
    if i < 64 {
        lemma_on_bits_elements(w, (i + 1) as u64);
        let rest = on_bits_from(w, (i + 1) as u64);
        if nth_bit(w, i) {
            let whole = seq![i as u8] + rest;
            assert forall|j: int| 0 <= j < whole.len() implies i <= #[trigger] whole[j] < 64 by {
                if j > 0 {
                    assert(whole[j] == rest[j - 1]);
                }
            }
        }
    }
}

/// Every reported square's bit really is set in the word.
pub proof fn lemma_on_bits_set(w: u64, i: u64)
    requires
        i <= 64,
    ensures
        forall|j: int|
            0 <= j < on_bits_from(w, i).len() ==> nth_bit(
                w,
                (#[trigger] on_bits_from(w, i)[j]) as u64,
            ),
    decreases 64 - i,
{
    if i < 64 {
        lemma_on_bits_set(w, (i + 1) as u64);
        let rest = on_bits_from(w, (i + 1) as u64);
        if nth_bit(w, i) {
            let whole = seq![i as u8] + rest;
            assert forall|j: int| 0 <= j < whole.len() implies nth_bit(
                w,
                (#[trigger] whole[j]) as u64,
            ) by {
                if j > 0 {
                    assert(whole[j] == rest[j - 1]);
                }
            }
        }
    }
}

/// At most one square per remaining bit position is ever reported.
pub proof fn lemma_on_bits_len_bound(w: u64, i: u64)
    requires
        i <= 64,
    ensures
        on_bits_from(w, i).len() <= 64 - i,
    decreases 64 - i,
{
    if i < 64 {
        lemma_on_bits_len_bound(w, (i + 1) as u64);
    }
}

/// Every set bit at or above the scan start is reported.
pub proof fn lemma_on_bits_complete(w: u64, i: u64, k: u8)
    requires
        i <= k < 64,
        nth_bit(w, k as u64),
    ensures
        exists|j: int|
            0 <= j < on_bits_from(w, i).len() && #[trigger] on_bits_from(w, i)[j] == k,
    decreases 64 - i,
{
    let rest = on_bits_from(w, (i + 1) as u64);
    if nth_bit(w, i) {
        let whole = seq![i as u8] + rest;
        assert(on_bits_from(w, i) == whole);
        if k == i {
            assert(on_bits_from(w, i)[0] == k);
        } else {
            lemma_on_bits_complete(w, (i + 1) as u64, k);
            let j = choose|j: int| 0 <= j < rest.len() && #[trigger] rest[j] == k;
            assert(whole[j + 1] == rest[j]);
            assert(on_bits_from(w, i)[j + 1] == k);
        }
    } else {
        lemma_on_bits_complete(w, (i + 1) as u64, k);
        let j = choose|j: int| 0 <= j < rest.len() && #[trigger] rest[j] == k;
        assert(on_bits_from(w, i)[j] == k);
    }
}

/// A word with a bitwise subset of another's bits never reports more
/// squares.
pub proof fn lemma_on_bits_subset(a: u64, b: u64, i: u64)
    requires
        i <= 64,
        forall|d: u64| d < 64 ==> (#[trigger] nth_bit(a, d) ==> nth_bit(b, d)),
    ensures
        on_bits_from(a, i).len() <= on_bits_from(b, i).len(),
    decreases 64 - i,
{
    if i < 64 {
        lemma_on_bits_subset(a, b, (i + 1) as u64);
    }
}

proof fn lemma_on_bits_from_range_clear(w: u64, i: u64, j: u64)
    requires
        i <= j <= 64,
        forall|k: u64| i <= k < j ==> !nth_bit(w, k),
    ensures
        on_bits_from(w, i) == on_bits_from(w, j),
    decreases j - i,
{
    if i < j {
        assert(!nth_bit(w, i));
        lemma_on_bits_from_range_clear(w, (i + 1) as u64, j);
    }
}

#[verifier::rlimit(50)]
proof fn lemma_shr_shr(w: u64, a: u64, b: u64, c: u64)
    by (bit_vector)
    requires
        a < 64,
        b < 64,
        c == a + b,
        c < 64,
    ensures
        (w >> a) >> b == w >> c,
{
}

proof fn lemma_set_bit_in_range(w: u64, b: u64, t: u64)
    by (bit_vector)
    requires
        b < 64,
        t < 64,
        ((w >> b) >> t) & 1u64 == 1u64,
    ensures
        b + t < 64,
{
}

/// Collects the indices of the set bits of `num` into a fixed vector, in
/// ascending order, skipping runs of zeros with trailing-zero scans. When
/// more than `L` bits are set, only the lowest `L` indices are collected.
pub fn bits_on<const L: usize>(num: u64, placeholder_num: u8) -> (r: FixedVector<u8, L>)
    ensures
        r.length <= L,
        r.length <= on_bits(num).len(),
        r.length == on_bits(num).len() || (r.length == L && on_bits(num).len() >= L),
        forall|i: int| 0 <= i < r.length ==> r.internal_array@[i] == on_bits(num)[i],
        forall|i: int| r.length <= i < L ==> r.internal_array@[i] == placeholder_num,
        r.internal_array@.len() == L,
{
    let mut bits_on_vector: FixedVector<u8, L> = FixedVector::new(placeholder_num);

    let mut num_left = num;

    proof {
        assert(num >> 0u64 == num) by (bit_vector);
        assert(bits_on_vector.elements() + on_bits_from(num, 0) =~= on_bits(num));
    }

    let mut bits_counted: u8 = 0;
    while bits_counted < 64 && bits_on_vector.len() < L
        invariant
            bits_counted <= 64,
            bits_counted < 64 ==> num_left == num >> (bits_counted as u64),
            bits_counted == 64 ==> num_left == 0,
            bits_on_vector.length <= L,
            bits_on_vector.internal_array@.len() == L,
            on_bits(num) == bits_on_vector.elements() + on_bits_from(num, bits_counted as u64),
            forall|i: int|
                bits_on_vector.length <= i < L ==> bits_on_vector.internal_array@[i]
                    == placeholder_num,
        ensures
            bits_counted == 64 || bits_on_vector.length == L || on_bits_from(
                num,
                bits_counted as u64,
            ) == Seq::<u8>::empty(),
        decreases 64 - bits_counted,
    {
        let trailing_zeros = num_left.trailing_zeros() as u8;

        if num_left == 0 {
            proof {
                let b = bits_counted as u64;
                assert forall|k: u64| b <= k < 64 implies !nth_bit(num, k) by {
                    let d = (k - b) as u64;
                    lemma_shr_shr(num, b, d, (b + d) as u64);
                    assert((0u64 >> d) & 1u64 != 1u64) by (bit_vector);
                }
                lemma_on_bits_from_range_clear(num, b, 64);
            }
            break ;
        }
        // Count trailing zeros to avoid having to iterate over every bit.

        if trailing_zeros > 0 {
            proof {
                let b = bits_counted as u64;
                let t = trailing_zeros as u64;
                lemma_set_bit_in_range(num, b, t);
                assert forall|k: u64| b <= k < b + t implies !nth_bit(num, k) by {
                    let d = (k - b) as u64;
                    lemma_shr_shr(num, b, d, (b + d) as u64);
                }
                lemma_on_bits_from_range_clear(num, b, (b + t) as u64);
                lemma_shr_shr(num, b, t, (b + t) as u64);
            }
            bits_counted += trailing_zeros;
            num_left = num_left >> (trailing_zeros as u64);
        } else {
            // Bit 0 of the remaining word is on, so the current square is
            // added to the output vector.
            proof {
                let b = bits_counted as u64;
                assert((num_left >> 0u64) == num_left) by (bit_vector);
                assert(nth_bit(num, b));
            }
            let ghost pre = bits_on_vector;
            bits_on_vector.push(bits_counted);
            proof {
                let b = bits_counted as u64;
                assert(bits_on_vector.elements() =~= pre.elements() + seq![bits_counted]);
                if b < 63 {
                    lemma_shr_shr(num, b, 1, (b + 1) as u64);
                } else {
                    assert((num >> 63u64) >> 1u64 == 0) by (bit_vector);
                }
            }
            num_left = num_left >> 1u64;

            bits_counted += 1;
        }
    }

    proof {
        assert(bits_on_vector.elements().len() == bits_on_vector.length as int);
        if bits_counted == 64 {
            assert(on_bits_from(num, 64) == Seq::<u8>::empty());
        }
    }

    bits_on_vector
}

proof fn lemma_byte_xor(a: u64, b: u64, k: u64)
    by (bit_vector)
    requires
        k < 8,
    ensures
        byte_of(a ^ b, k as int) == byte_of(a, k as int) ^ byte_of(b, k as int),
        byte_of(a, k as int) != byte_of(b, k as int) ==> byte_of(a ^ b, k as int) != 0,
{
}

/// The blocker squares that ray trimming reports are always on the board.
pub proof fn lemma_fix_blocker_bits(
    piece_coordinates: (i8, i8),
    direction_bitboard: u64,
    move_bitboard: u64,
    masked_bitboard: u64,
)
    requires
        0 <= piece_coordinates.0 < 8,
        0 <= piece_coordinates.1 < 8,
    ensures
        spec_fix_move_bitboard(
            piece_coordinates,
            direction_bitboard,
            move_bitboard,
            masked_bitboard,
        ).1.0 matches Some(b) ==> 0 <= b < 64,
        spec_fix_move_bitboard(
            piece_coordinates,
            direction_bitboard,
            move_bitboard,
            masked_bitboard,
        ).1.1 matches Some(b) ==> 0 <= b < 64,
{
    if move_bitboard != masked_bitboard {
        let row = piece_coordinates.1 as int;
        let col = piece_coordinates.0 as int;
        if direction_bitboard != HORIZONTAL_LINE_BITBOARD {
            let lower = spec_remove_vertical(row - 1, move_bitboard, masked_bitboard, false);
            let upper = spec_remove_vertical(row + 1, move_bitboard, masked_bitboard, true);
            let intercept = move_bitboard ^ masked_bitboard;
            lemma_remove_vertical_stop_row(row - 1, move_bitboard, masked_bitboard, false);
            lemma_remove_vertical_stop_row(row + 1, move_bitboard, masked_bitboard, true);
            if lower.1 is Some {
                let v = lower.1->0;
                lemma_byte_xor(move_bitboard, masked_bitboard, v as u64);
                assert(vstd::std_specs::bits::u8_trailing_zeros(byte_of(intercept, v as int)) < 8);
            }
            if upper.1 is Some {
                let v = upper.1->0;
                lemma_byte_xor(move_bitboard, masked_bitboard, v as u64);
                assert(vstd::std_specs::bits::u8_trailing_zeros(byte_of(intercept, v as int)) < 8);
            }
        } else {
            lemma_remove_byte_ends_stop_bit(col - 1, byte_of(masked_bitboard, row), false);
            lemma_remove_byte_ends_stop_bit(col + 1, byte_of(masked_bitboard, row), true);
        }
    }
}

proof fn lemma_single_bit_byte(b: u64)
    by (bit_vector)
    requires
        b < 64,
    ensures
        ((1u64 << b) >> ((8 * (b / 8)) as u64)) as u8 == 1u8 << ((b % 8) as u8),
{
}

proof fn lemma_tz_single_bit(c: u8)
    requires
        c < 8,
    ensures
        vstd::std_specs::bits::u8_trailing_zeros(1u8 << c) == c,
{
    let i: u8 = 1u8 << c;
    assert(i != 0) by (bit_vector)
        requires
            c < 8,
            i == 1u8 << c,
    ;
    let t = vstd::std_specs::bits::u8_trailing_zeros(i) as u8;
    assert(((1u8 << c) >> t) & 1u8 == 1u8 ==> t == c || t >= 8) by (bit_vector)
        requires
            c < 8,
    ;
}

/// The direction template aligned at a piece's square: the pattern is
/// moved from its origin square by whole ranks, by files within each
/// byte lane, or re-anchored through the piece's rank for diagonals. When
/// the piece already sits at the template's origin the pattern is returned
/// unshifted.
pub open spec fn spec_shift_direction_bitboard(piece_bit: u8, db: DirectionBitboard) -> u64 {
    let origin = spec_piece_coordinates(db.origin_bit);
    let piece = spec_piece_coordinates(piece_bit);
    if origin == piece {
        db.bitboard
    } else {
        let dx = origin.0 - piece.0;
        let dy = origin.1 - piece.1;
        match db.shift_type {
            ShiftType::Standard => spec_shift_u64(db.bitboard, dy * 8),
            ShiftType::Byte => spec_shift_bytes(db.bitboard, dx),
            ShiftType::Both => spec_shift_bytes(spec_shift_u64(db.bitboard, dy * 8), dx),
            ShiftType::Diagonal => {
                let db_row_zeros = vstd::std_specs::bits::u8_trailing_zeros(
                    byte_of(db.bitboard, piece.1),
                ) as int;
                let piece_row_zeros = vstd::std_specs::bits::u8_trailing_zeros(
                    byte_of(1u64 << (piece_bit as u64), piece.1),
                ) as int;
                spec_shift_bytes(db.bitboard, db_row_zeros - piece_row_zeros)
            },
        }
    }
}

/// Aligns a direction template at `piece_bit`: the result is the
/// template's pattern shifted so its origin square becomes the piece's
/// square, honoring file boundaries. If the piece already sits at the
/// template's origin, the pattern is returned unshifted.
pub fn shift_direction_bitboard(
    piece_bit: u8,
    piece_coordinates: (i8, i8),
    direction_bitboard: &DirectionBitboard,
) -> (r: u64)
    requires
        piece_bit < 64,
        direction_bitboard.origin_bit < 64,
        (piece_coordinates.0 as int, piece_coordinates.1 as int) == spec_piece_coordinates(
            piece_bit,
        ),
        direction_bitboard.shift_type == ShiftType::Diagonal ==> byte_of(
            direction_bitboard.bitboard,
            piece_bit as int / 8,
        ) != 0,
    ensures
        r == spec_shift_direction_bitboard(piece_bit, *direction_bitboard),
        spec_piece_coordinates(direction_bitboard.origin_bit) == spec_piece_coordinates(piece_bit)
            ==> r == direction_bitboard.bitboard,
{
    let origin_coordinates = get_piece_coordinates(direction_bitboard.origin_bit);

    // If the piece is already at the template origin then no work has to
    // be done.
    if origin_coordinates.0 == piece_coordinates.0 && origin_coordinates.1 == piece_coordinates.1 {
        return direction_bitboard.bitboard;
    }

    let dx = origin_coordinates.0 - piece_coordinates.0;
    let dy = origin_coordinates.1 - piece_coordinates.1;

    match direction_bitboard.shift_type {
        ShiftType::Standard => shift_u64(direction_bitboard.bitboard, dy * 8),
        ShiftType::Byte => shift_bytes(direction_bitboard.bitboard, dx),
        ShiftType::Both => shift_bytes(shift_u64(direction_bitboard.bitboard, dy * 8), dx),
        ShiftType::Diagonal => {
            let piece_row = piece_coordinates.1 as u8;

            let direction_bitboard_row_byte = isolate_byte(
                &direction_bitboard.bitboard,
                piece_row,
            );
            let piece_position_bitboard_row_byte = isolate_byte(
                &(1u64 << (piece_bit as u64)),
                piece_row,
            );

            proof {
                lemma_single_bit_byte(piece_bit as u64);
                lemma_tz_single_bit((piece_bit % 8) as u8);
            }

            // How far the template's diagonal sits from the piece's file
            // within the piece's own rank.
            let shift = direction_bitboard_row_byte.trailing_zeros() as i8
                - piece_position_bitboard_row_byte.trailing_zeros() as i8;
            shift_bytes(direction_bitboard.bitboard, shift)
        },
    }
}

} // verus!
