//! Check detection in two stages: a cheap shortlist of the enemy pieces
//! that could geometrically threaten the king's square, then verification
//! by generating each shortlisted piece's moves against the king square.

use vstd::prelude::*;

use crate::bitboard_manipulation;
use crate::bitboard_manipulation::{
    get_piece_coordinates, nth_bit, on_bits, shift_direction_bitboard,
    spec_shift_direction_bitboard,
};
use crate::board_representation;
use crate::board_representation::{Board, PerspectiveBoards, PieceColor, spec_piece_id};
use crate::direction_bitboards::{
    DIAGONAL_LEFT_BITBOARD, DIAGONAL_RIGHT_BITBOARD, all_capture_bitboards,
    spec_all_capture_bitboards,
};
use crate::move_generation::{generate_moves, spec_generate_moves};
use crate::fixed_vector::FixedVector;

verus! {

pub const FIXED_VECTOR_PLACEHOLDER_VALUE: u8 = 255;

/// Maximum number of pieces that could potentially check the king at once.
pub const MAX_CHECKING_PIECES: usize = 16;

/// The side whose pieces attack the given king.
pub open spec fn spec_enemy_color(king_color: PieceColor) -> PieceColor {
    if king_color is White {
        PieceColor::Black
    } else {
        PieceColor::White
    }
}

/// The enemy half board of the given king.
pub open spec fn spec_enemy_halfboard(board: Board, king_color: PieceColor) -> Seq<u64> {
    if king_color is White {
        board.black_board@
    } else {
        board.white_board@
    }
}

/// The given king's cached square.
pub open spec fn spec_king_bit(board: Board, king_color: PieceColor) -> u8 {
    if king_color is White {
        board.white_king_bit
    } else {
        board.black_king_bit
    }
}

/// The enemy squares covered by the first `n` capture templates aligned at
/// the king's square.
pub open spec fn spec_potential_prefix(king_bit: u8, enemy_bitboard: u64, n: int) -> u64
    decreases n,
{
    if n <= 0 {
        0u64
    } else {
        spec_potential_prefix(king_bit, enemy_bitboard, n - 1) | (spec_shift_direction_bitboard(
            king_bit,
            spec_all_capture_bitboards()[n - 1],
        ) & enemy_bitboard)
    }
}

/// The bitboard of enemy pieces that could geometrically threaten the
/// king: the union over all six capture templates, aligned at the king's
/// square, of their intersections with the enemy occupancy.
pub open spec fn spec_potential_checkers_bitboard(board: Board, king_color: PieceColor) -> u64 {
    let enemy = spec_enemy_halfboard(board, king_color);
    spec_potential_prefix(
        spec_king_bit(board, king_color),
        enemy[0] | enemy[1] | enemy[2],
        6,
    )
}

/// The potential-checkers bitboard only ever marks enemy-occupied squares.
proof fn lemma_potential_subset(king_bit: u8, enemy_bitboard: u64, n: int, d: u64)
    requires
        d < 64,
        nth_bit(spec_potential_prefix(king_bit, enemy_bitboard, n), d),
    ensures
        nth_bit(enemy_bitboard, d),
    decreases n,
{
    if n <= 0 {
        crate::move_generation::lemma_bit_or(0, 0, d);
    } else {
        let prev = spec_potential_prefix(king_bit, enemy_bitboard, n - 1);
        let aligned = spec_shift_direction_bitboard(
            king_bit,
            spec_all_capture_bitboards()[n - 1],
        );
        crate::move_generation::lemma_bit_or(prev, aligned & enemy_bitboard, d);
        if nth_bit(prev, d) {
            lemma_potential_subset(king_bit, enemy_bitboard, n - 1, d);
        } else {
            crate::move_generation::lemma_bit_or(aligned, enemy_bitboard, d);
        }
    }
}

proof fn lemma_capture_template_facts(j: int)
    requires
        0 <= j < 6,
    ensures
        spec_all_capture_bitboards()[j].origin_bit < 64,
        spec_all_capture_bitboards()[j].shift_type is Diagonal ==> (
        spec_all_capture_bitboards()[j].bitboard == DIAGONAL_LEFT_BITBOARD
            || spec_all_capture_bitboards()[j].bitboard == DIAGONAL_RIGHT_BITBOARD),
{
}

/// Shortlists the squares of enemy pieces which could be putting the king
/// in check: the set bits of the potential-checkers bitboard, in ascending
/// order; unused slots hold the placeholder value 255.
pub fn get_potential_checking_pieces(board: &Board, king_color: PieceColor) -> (r: FixedVector<
    u8,
    MAX_CHECKING_PIECES,
>)
    requires
        spec_king_bit(*board, king_color) < 64,
        board_representation::spec_piece_count(spec_enemy_halfboard(*board, king_color)) <= 16,
    ensures
        ({
            let bb = spec_potential_checkers_bitboard(*board, king_color);
            &&& r.length <= MAX_CHECKING_PIECES
            &&& r.internal_array@.len() == MAX_CHECKING_PIECES
            &&& r.length == on_bits(bb).len()
            &&& (forall|i: int| 0 <= i < r.length ==> r.internal_array@[i] == on_bits(bb)[i])
            &&& (forall|i: int|
                r.length <= i < MAX_CHECKING_PIECES ==> r.internal_array@[i]
                    == FIXED_VECTOR_PLACEHOLDER_VALUE)
            &&& (forall|i: int| 0 <= i < r.length ==> r.internal_array@[i] < 64)
        }),
{
    let mut potential_checking_pieces_bitboard: u64 = 0;

    let (enemy_board, king_bit) = match king_color {
        PieceColor::Black => (&board.white_board, board.black_king_bit),
        PieceColor::White => (&board.black_board, board.white_king_bit),
    };

    let enemy_bitboard = enemy_board[0] | enemy_board[1] | enemy_board[2];

    let king_coordinates = get_piece_coordinates(king_bit);

    let capture_bitboards = all_capture_bitboards();

    let mut i: usize = 0;
    while i < 6
        invariant
            king_bit == spec_king_bit(*board, king_color),
            king_bit < 64,
            (king_coordinates.0 as int, king_coordinates.1 as int)
                == bitboard_manipulation::spec_piece_coordinates(king_bit),
            capture_bitboards@ == spec_all_capture_bitboards(),
            enemy_bitboard == ({
                let enemy = spec_enemy_halfboard(*board, king_color);
                enemy[0] | enemy[1] | enemy[2]
            }),
            i <= 6,
            potential_checking_pieces_bitboard == spec_potential_prefix(
                king_bit,
                enemy_bitboard,
                i as int,
            ),
        decreases 6 - i,
    {
        proof {
            lemma_capture_template_facts(i as int);
            if capture_bitboards@[i as int].shift_type is Diagonal {
                crate::move_generation::lemma_diagonal_bytes_nonzero(king_bit as int / 8);
            }
        }

        // Align the capture template on the king; any enemy collision is a
        // piece which could be putting the king in check.
        let direction_bitboard = shift_direction_bitboard(
            king_bit,
            king_coordinates,
            &capture_bitboards[i],
        );

        potential_checking_pieces_bitboard |= direction_bitboard & enemy_bitboard;

        i += 1;
    }

    let result = bitboard_manipulation::bits_on(
        potential_checking_pieces_bitboard,
        FIXED_VECTOR_PLACEHOLDER_VALUE,
    );
    proof {
        // An enemy side holds at most sixteen pieces, so the shortlist's
        // sixteen slots can never drop a potential checker.
        let ghost enemy_half = spec_enemy_halfboard(*board, king_color);
        assert forall|d: u64|
            d < 64 && #[trigger] nth_bit(potential_checking_pieces_bitboard, d) implies nth_bit(
            enemy_bitboard,
            d,
        ) by {
            lemma_potential_subset(king_bit, enemy_bitboard, 6, d);
        }
        bitboard_manipulation::lemma_on_bits_subset(
            potential_checking_pieces_bitboard,
            enemy_bitboard,
            0,
        );
        board_representation::lemma_piece_count_matches_occupancy(enemy_half, 0);
        board_representation::lemma_piece_count_nonneg(enemy_half, 0);
        crate::bitboard_manipulation::lemma_on_bits_elements(
            potential_checking_pieces_bitboard,
            0,
        );
        let bb = potential_checking_pieces_bitboard;
        assert forall|i: int| 0 <= i < result.length implies result.internal_array@[i] < 64 by {
            assert(result.internal_array@[i] == on_bits(bb)[i]);
            assert(on_bits(bb)[i] == crate::bitboard_manipulation::on_bits_from(bb, 0)[i]);
        }
    }
    result
}

/// The king is in check when some non-placeholder entry of the shortlist
/// names an enemy piece whose generated moves cover the king's square.
pub open spec fn spec_entry_checks(board: Board, king_color: PieceColor, entry: u8) -> bool {
    entry != FIXED_VECTOR_PLACEHOLDER_VALUE && nth_bit(
        spec_generate_moves(
            board,
            entry,
            spec_piece_id(spec_enemy_halfboard(board, king_color), entry),
            spec_enemy_color(king_color),
        ).0,
        spec_king_bit(board, king_color) as u64,
    )
}

pub open spec fn spec_king_in_check(board: Board, king_color: PieceColor, entries: Seq<u8>) -> bool {
    exists|i: int| 0 <= i < entries.len() && spec_entry_checks(board, king_color, #[trigger] entries[i])
}

/// Returns true when the king of `king_color` is in check: each potential
/// checker's pseudo-legal moves are generated, and the king is in check
/// exactly when one of them could capture the king's square.
pub fn is_king_in_check(
    board: &Board,
    king_color: PieceColor,
    potential_checking_pieces: &FixedVector<u8, MAX_CHECKING_PIECES>,
) -> (r: bool)
    requires
        board.white_king_bit < 64,
        board.black_king_bit < 64,
        board.en_passant_target_bit matches Some(t) ==> 8 <= t < 56,
        forall|b: u8| b < 64 ==> spec_piece_id(spec_enemy_halfboard(*board, king_color), b) != 7,
        potential_checking_pieces.length <= MAX_CHECKING_PIECES,
        forall|i: int|
            0 <= i < potential_checking_pieces.length
                ==> #[trigger] potential_checking_pieces.internal_array@[i] < 64
                || potential_checking_pieces.internal_array@[i] == FIXED_VECTOR_PLACEHOLDER_VALUE,
    ensures
        r == spec_king_in_check(*board, king_color, potential_checking_pieces.elements()),
{
    let (enemy_color, king_bit) = match king_color {
        PieceColor::Black => (PieceColor::White, board.black_king_bit),
        PieceColor::White => (PieceColor::Black, board.white_king_bit),
    };

    let ghost entries = potential_checking_pieces.elements();

    // Generate the moves of every shortlisted piece; if any of them can
    // capture the king's square then the king is in check.
    let mut i: usize = 0;
    while i < potential_checking_pieces.len()
        invariant
            potential_checking_pieces.length <= MAX_CHECKING_PIECES,
            potential_checking_pieces.internal_array@.len() == MAX_CHECKING_PIECES,
            board.white_king_bit < 64,
            board.black_king_bit < 64,
            board.en_passant_target_bit matches Some(t) ==> 8 <= t < 56,
            forall|b: u8|
                b < 64 ==> spec_piece_id(spec_enemy_halfboard(*board, king_color), b) != 7,
            forall|j: int|
                0 <= j < potential_checking_pieces.length
                    ==> #[trigger] potential_checking_pieces.internal_array@[j] < 64
                    || potential_checking_pieces.internal_array@[j]
                    == FIXED_VECTOR_PLACEHOLDER_VALUE,
            enemy_color == spec_enemy_color(king_color),
            king_bit == spec_king_bit(*board, king_color),
            entries == potential_checking_pieces.elements(),
            i <= potential_checking_pieces.length,
            forall|j: int|
                0 <= j < i ==> !spec_entry_checks(*board, king_color, #[trigger] entries[j]),
        decreases potential_checking_pieces.length - i,
    {
        let potential_checking_piece_bit = potential_checking_pieces.internal_array[i];

        if potential_checking_piece_bit != FIXED_VECTOR_PLACEHOLDER_VALUE {
            let enemy_perspective_boards = PerspectiveBoards::gen(board, enemy_color);
            let enemy_piece_id = board_representation::read_piece_id(
                &enemy_perspective_boards.friendly_board,
                potential_checking_piece_bit,
            );
            let enemy_piece_moves = generate_moves(
                board,
                potential_checking_piece_bit,
                enemy_piece_id,
                enemy_color,
                &enemy_perspective_boards,
            ).0;

            if bitboard_manipulation::bit_on(enemy_piece_moves, king_bit) {
                proof {
                    assert(entries[i as int] == potential_checking_piece_bit);
                    assert(spec_entry_checks(*board, king_color, entries[i as int]));
                }
                return true;
            }
            proof {
                assert(!spec_entry_checks(*board, king_color, entries[i as int]));
            }
        } else {
            proof {
                assert(!spec_entry_checks(*board, king_color, entries[i as int]));
            }
        }

        i += 1;
    }

    false
}

} // verus!
