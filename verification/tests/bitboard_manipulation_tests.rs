use chessbot::bitboard_manipulation::{
    bit_on, bits_on, fix_move_bitboard, get_piece_bit, get_piece_coordinates, isolate_byte,
    remove_byte_ends, remove_move_end_vertical, shift_bytes, shift_direction_bitboard,
};
use chessbot::direction_bitboards::{
    diagonal_left, diagonal_right, horizontal_line, king_moves, knight_moves, vertical_line,
    DIAGONAL_RIGHT_BITBOARD, HORIZONTAL_LINE_BITBOARD, KING_MOVES_BITBOARD,
};
use chessbot::fixed_vector::FixedVector;

#[test]
fn test_coordinate_manipulation() {
    assert_eq!(get_piece_bit(get_piece_coordinates(32)), 32);
}

#[test]
fn test_shift_bytes() {
    let expected_right_shift: u64 =
        0b1100000001100000001100000001100000001100000001100000001100000001 ^ DIAGONAL_RIGHT_BITBOARD;
    let expected_left_shift: u64 =
        0b1000000001000000101000000101000000101000000101000000101000000101 ^ DIAGONAL_RIGHT_BITBOARD;

    assert_eq!(shift_bytes(DIAGONAL_RIGHT_BITBOARD, 1), expected_right_shift);
    assert_eq!(shift_bytes(DIAGONAL_RIGHT_BITBOARD, -2), expected_left_shift);
}

#[test]
fn test_isolate_bytes() {
    assert_eq!(isolate_byte(&52, 0), 52);
    assert_eq!(isolate_byte(&342, 1), 1);
}

#[test]
fn test_remove_move_end_vertical() {
    let test_mask: u64 = 0b0000000001000000001000000001000000001000000001000000000000000001;
    let expected_d: u64 = 0b0000000000000000000000000001000000001000000001000000000000000000;
    let expected_u: u64 = 0b0000000001000000001000000001000000000000000000000000000000000000;

    let result_d = remove_move_end_vertical(4, &DIAGONAL_RIGHT_BITBOARD, &test_mask, false);
    let result_u = remove_move_end_vertical(4, &DIAGONAL_RIGHT_BITBOARD, &test_mask, true);

    assert_eq!(result_d, (expected_d, Some(1)));
    assert_eq!(result_u, (expected_u, Some(7)));
}

#[test]
fn test_remove_byte_ends() {
    let test_byte = 0b11111101;
    let expected_d = 0b00001100;
    let expected_u = 0b11111000;

    assert_eq!(remove_byte_ends(3, test_byte, false), (expected_d, Some(1)));
    assert_eq!(remove_byte_ends(3, test_byte, true), (expected_u, None));

    let test_byte = 0b00111101;
    let expected_d = 0b00011100;
    let expected_u = 0b00110000;

    assert_eq!(remove_byte_ends(4, test_byte, false), (expected_d, Some(1)));
    assert_eq!(remove_byte_ends(4, test_byte, true), (expected_u, Some(6)));
}

#[test]
fn test_bit_on() {
    assert_eq!(bit_on(129, 7), true);
}

#[test]
fn test_fix_move_bitboard() {
    // Vertical case.
    let test_mask: u64 = 0b0000000001000000001000000001000000001000000001000000000000000001;
    let expected: u64 = 0b0000000001000000001000000000000000001000000001000000000000000000;

    let result = fix_move_bitboard(
        get_piece_coordinates(36),
        &DIAGONAL_RIGHT_BITBOARD,
        &DIAGONAL_RIGHT_BITBOARD,
        &test_mask,
    );

    assert_eq!(result, (expected, (Some(9), Some(63))));

    // Horizontal case.
    let row = 4;
    let column = 5;
    let move_bitboard = 0b0000000000000000000000001111111100000000000000000000000000000000;
    let test_mask = 0b0000000000000000000000001101111100000000000000000000000000000000;
    let expected = 0b0000000000000000000000001101111100000000000000000000000000000000;
    let result = fix_move_bitboard(
        (column, row),
        &HORIZONTAL_LINE_BITBOARD,
        &move_bitboard,
        &test_mask,
    );

    assert_eq!(result, (expected, (None, None)));
}

#[test]
fn test_bits_on() {
    let mut expected_vec: FixedVector<u8, 16> = FixedVector::new(255);
    expected_vec.push(2);
    expected_vec.push(4);

    assert_eq!(bits_on(20, 255), expected_vec);

    let mut expected_vec: FixedVector<u8, 64> = FixedVector::new(0);
    expected_vec.push(2);
    expected_vec.push(4);
    expected_vec.push(5);
    expected_vec.push(6);
    expected_vec.push(11);

    assert_eq!(bits_on(2164, 0), expected_vec);

    let num: u64 = 0b1000000000000000000000000000000000000000000000000000000000000000;
    assert_eq!(
        bits_on::<19>(131071, 255).internal_array,
        [0, 1, 2, 3, 4, 5, 6, 7, 8, 9, 10, 11, 12, 13, 14, 15, 16, 255, 255]
    );
    assert_eq!(bits_on::<2>(num, 21).internal_array, [63, 21]);
}

#[test]
fn test_shift_direction_bitboard() {
    // Knight moving.
    let expected: u64 = 2833441750646784;
    let piece_bit = 34;
    let piece_coordinates = get_piece_coordinates(piece_bit);
    let result = shift_direction_bitboard(piece_bit, piece_coordinates, &knight_moves());
    assert_eq!(result, expected);

    // Shifting the diagonal-left bitboard.
    let expected: u64 = 4328785936;
    let piece_bit = 11;
    let piece_coordinates = get_piece_coordinates(piece_bit);
    let result = shift_direction_bitboard(piece_bit, piece_coordinates, &diagonal_left());
    assert_eq!(result, expected);

    // Shifting the diagonal-right bitboard.
    let expected: u64 = 141012904183812;
    let piece_bit = 47;
    let piece_coordinates = get_piece_coordinates(piece_bit);
    let result = shift_direction_bitboard(piece_bit, piece_coordinates, &diagonal_right());
    assert_eq!(result, expected);

    // Shifting the vertical-line bitboard.
    let expected: u64 = 1157442765409226768;
    let piece_bit = 52;
    let piece_coordinates = get_piece_coordinates(piece_bit);
    let result = shift_direction_bitboard(piece_bit, piece_coordinates, &vertical_line());
    assert_eq!(result, expected);

    // Shifting the horizontal-line bitboard.
    let expected: u64 = 1095216660480;
    let piece_bit = 39;
    let piece_coordinates = get_piece_coordinates(piece_bit);
    let result = shift_direction_bitboard(piece_bit, piece_coordinates, &horizontal_line());
    assert_eq!(result, expected);
}

#[test]
fn test_alignment_identity_at_origin() {
    // A piece standing on a template's origin square gets the pattern back
    // unshifted.
    let piece_bit = 36;
    let piece_coordinates = get_piece_coordinates(piece_bit);
    let result = shift_direction_bitboard(piece_bit, piece_coordinates, &king_moves());
    assert_eq!(result, KING_MOVES_BITBOARD);
}

#[test]
fn test_shift_bytes_keeps_lanes() {
    // Shifting per byte never lets a bit cross into a neighbouring rank.
    let word: u64 = 0x8040201008040201;
    let shifted = shift_bytes(word, -1);
    for lane in 0..8 {
        let expected = (isolate_byte(&word, lane) << 1) as u64;
        assert_eq!(isolate_byte(&shifted, lane) as u64, expected & 0xff);
    }
}

#[test]
fn test_coordinate_round_trip_all_squares() {
    for bit in 0..64u8 {
        assert_eq!(get_piece_bit(get_piece_coordinates(bit)), bit as i8);
    }
}
