//! Pseudo-legal move bitboards for a single piece, taking friendly and
//! enemy occupancy into account. King safety is not considered here; the
//! turn logic rejects moves that leave the mover's king in check.

use vstd::prelude::*;

use crate::bitboard_manipulation::{
    byte_of, fix_move_bitboard, get_piece_coordinates, lemma_fix_blocker_bits, nth_bit,
    shift_direction_bitboard, spec_fix_move_bitboard, spec_shift_direction_bitboard,
};
use crate::board_representation;
use crate::board_representation::{
    Board, PerspectiveBoards, PieceColor, spec_piece_id, spec_starting_black_board,
    spec_starting_white_board,
};
use crate::direction_bitboards::{
    DIAGONAL_LEFT_BITBOARD, DIAGONAL_RIGHT_BITBOARD, DirectionBitboard, ShiftType,
};
use crate::en_passant::{get_en_passant_capture, spec_en_passant_capture};
use crate::pieces::{spec_directions, spec_is_sliding, spec_pawn_capture, spec_pawn_double};

verus! {

broadcast use vstd::std_specs::bits::axiom_u8_trailing_zeros, vstd::std_specs::bits::axiom_u64_trailing_zeros, vstd::std_specs::bits::axiom_u64_leading_zeros;

/// The aligned move bitboard of one direction template, its friendly and
/// enemy intercepts, and the template with all intercepts removed.
pub open spec fn spec_calc_move_bitboards(
    piece_bit: u8,
    db: DirectionBitboard,
    friendly_bitboard: u64,
    enemy_bitboard: u64,
) -> (u64, u64, u64, u64) {
    let move_bitboard = spec_shift_direction_bitboard(piece_bit, db);
    let friendly_hits = move_bitboard & friendly_bitboard;
    let enemy_hits = move_bitboard & enemy_bitboard;
    (move_bitboard, friendly_hits, enemy_hits, move_bitboard ^ (friendly_hits | enemy_hits))
}

/// The squares one direction template contributes for the piece: steppers
/// may land on empties or enemies, pawns step only into empty squares and
/// capture only along their capture template, and sliders stop at the
/// first blocker in each direction but may capture an enemy blocker.
pub open spec fn spec_direction_moves(
    piece_bit: u8,
    db: DirectionBitboard,
    is_sliding: bool,
    pawn_capture: Option<DirectionBitboard>,
    friendly_bitboard: u64,
    enemy_bitboard: u64,
) -> u64 {
    let calcs = spec_calc_move_bitboards(piece_bit, db, friendly_bitboard, enemy_bitboard);
    if !is_sliding {
        if pawn_capture is None {
            calcs.0 ^ calcs.1
        } else {
            calcs.3 | (enemy_bitboard & spec_shift_direction_bitboard(piece_bit, pawn_capture->0))
        }
    } else {
        let fixed = spec_fix_move_bitboard(
            ((piece_bit as int % 8) as i8, (piece_bit as int / 8) as i8),
            db.bitboard,
            calcs.0,
            calcs.3,
        );
        let cutoff = (match fixed.1.0 {
            Some(b) => 1u64 << (b as u64),
            None => 0u64,
        }) | (match fixed.1.1 {
            Some(b) => 1u64 << (b as u64),
            None => 0u64,
        });
        fixed.0 | (enemy_bitboard & cutoff)
    }
}

/// The union of the contributions of the first `n` direction templates.
pub open spec fn spec_directions_moves(
    piece_bit: u8,
    dirs: Seq<DirectionBitboard>,
    is_sliding: bool,
    pawn_capture: Option<DirectionBitboard>,
    friendly_bitboard: u64,
    enemy_bitboard: u64,
    n: int,
) -> u64
    decreases n,
{
    if n <= 0 {
        0u64
    } else {
        spec_directions_moves(
            piece_bit,
            dirs,
            is_sliding,
            pawn_capture,
            friendly_bitboard,
            enemy_bitboard,
            n - 1,
        ) | spec_direction_moves(
            piece_bit,
            dirs[n - 1],
            is_sliding,
            pawn_capture,
            friendly_bitboard,
            enemy_bitboard,
        )
    }
}

/// The double-move destination square that becomes the en-passant target:
/// the far end of the aligned double-step pattern in the pawn's forward
/// direction.
pub open spec fn spec_ep_target_bit(move_bitboard: u64, piece_color: PieceColor) -> int {
    match piece_color {
        PieceColor::White => vstd::std_specs::bits::u64_trailing_zeros(move_bitboard) as int,
        PieceColor::Black => 63 - vstd::std_specs::bits::u64_leading_zeros(move_bitboard),
    }
}

/// The pawn double-step contribution: available only while the pawn stands
/// on its starting square and no piece of either side intercepts the
/// pattern; it reports the en-passant target square alongside the moves.
pub open spec fn spec_double_move(
    piece_bit: u8,
    piece_id: int,
    piece_color: PieceColor,
    starting_board: Seq<u64>,
    pawn_double: Option<DirectionBitboard>,
    friendly_bitboard: u64,
    enemy_bitboard: u64,
) -> (u64, Option<u8>) {
    if pawn_double is Some && piece_id == spec_piece_id(starting_board, piece_bit) {
        let calcs = spec_calc_move_bitboards(
            piece_bit,
            pawn_double->0,
            friendly_bitboard,
            enemy_bitboard,
        );
        if calcs.3 == calcs.0 {
            (calcs.0, Some(spec_ep_target_bit(calcs.0, piece_color) as u8))
        } else {
            (0u64, Option::<u8>::None)
        }
    } else {
        (0u64, Option::<u8>::None)
    }
}

/// The full pseudo-legal move bitboard of the piece at `piece_bit`, its
/// en-passant target square when the double step is among the moves, and
/// its en-passant capture squares when that capture is available.
pub open spec fn spec_generate_moves(
    board: Board,
    piece_bit: u8,
    piece_id: int,
    piece_color: PieceColor,
) -> (u64, Option<u8>, Option<(u8, u8)>) {
    let white = piece_color is White;
    let friendly = if white {
        board.white_board@
    } else {
        board.black_board@
    };
    let enemy = if white {
        board.black_board@
    } else {
        board.white_board@
    };
    let starting = if white {
        spec_starting_white_board()
    } else {
        spec_starting_black_board()
    };
    let friendly_bitboard = friendly[0] | friendly[1] | friendly[2];
    let enemy_bitboard = enemy[0] | enemy[1] | enemy[2];
    let dirs = spec_directions(white, piece_id);
    let double = spec_double_move(
        piece_bit,
        piece_id,
        piece_color,
        starting,
        spec_pawn_double(white, piece_id),
        friendly_bitboard,
        enemy_bitboard,
    );
    let dir_moves = double.0 | spec_directions_moves(
        piece_bit,
        dirs,
        spec_is_sliding(piece_id),
        spec_pawn_capture(white, piece_id),
        friendly_bitboard,
        enemy_bitboard,
        dirs.len() as int,
    );
    let ep = spec_en_passant_capture(board, friendly, enemy, piece_bit);
    let full = if ep is Some {
        dir_moves | (1u64 << ((ep->0).1 as u64))
    } else {
        dir_moves
    };
    (full, double.1, ep)
}

/// Every direction template the movement tables hand out has its origin on
/// the board, and the diagonal ones carry a diagonal pattern whose every
/// rank byte is populated.
proof fn lemma_direction_template_facts(white: bool, id: int, j: int)
    requires
        0 <= id < 7,
        0 <= j < spec_directions(white, id).len(),
    ensures
        spec_directions(white, id)[j].origin_bit < 64,
        spec_directions(white, id)[j].shift_type is Diagonal ==> (spec_directions(white, id)[j].bitboard
            == DIAGONAL_LEFT_BITBOARD || spec_directions(white, id)[j].bitboard
            == DIAGONAL_RIGHT_BITBOARD),
{
    let dirs = spec_directions(white, id);
    if id == 3 || id == 5 {
        assert(dirs[0].origin_bit == 35);
        assert(dirs[1].origin_bit == 36);
    }
}

/// Every byte lane of the two diagonal patterns is populated.
pub(crate) proof fn lemma_diagonal_bytes_nonzero(row: int)
    requires
        0 <= row < 8,
    ensures
        byte_of(DIAGONAL_LEFT_BITBOARD, row) != 0,
        byte_of(DIAGONAL_RIGHT_BITBOARD, row) != 0,
{
    assert(byte_of(DIAGONAL_LEFT_BITBOARD, 0) != 0 && byte_of(DIAGONAL_LEFT_BITBOARD, 1) != 0
        && byte_of(DIAGONAL_LEFT_BITBOARD, 2) != 0 && byte_of(DIAGONAL_LEFT_BITBOARD, 3) != 0
        && byte_of(DIAGONAL_LEFT_BITBOARD, 4) != 0 && byte_of(DIAGONAL_LEFT_BITBOARD, 5) != 0
        && byte_of(DIAGONAL_LEFT_BITBOARD, 6) != 0 && byte_of(DIAGONAL_LEFT_BITBOARD, 7) != 0
        && byte_of(DIAGONAL_RIGHT_BITBOARD, 0) != 0 && byte_of(DIAGONAL_RIGHT_BITBOARD, 1) != 0
        && byte_of(DIAGONAL_RIGHT_BITBOARD, 2) != 0 && byte_of(DIAGONAL_RIGHT_BITBOARD, 3) != 0
        && byte_of(DIAGONAL_RIGHT_BITBOARD, 4) != 0 && byte_of(DIAGONAL_RIGHT_BITBOARD, 5) != 0
        && byte_of(DIAGONAL_RIGHT_BITBOARD, 6) != 0 && byte_of(DIAGONAL_RIGHT_BITBOARD, 7) != 0)
        by (bit_vector);
    if row == 0 {
    } else if row == 1 {
    } else if row == 2 {
    } else if row == 3 {
    } else if row == 4 {
    } else if row == 5 {
    } else if row == 6 {
    }
}

proof fn lemma_or_assoc(a: u64, b: u64, c: u64)
    by (bit_vector)
    ensures
        (a | b) | c == a | (b | c),
        a | 0u64 == a,
        0u64 | a == a,
{
}

/// Calculates the aligned move bitboard and the intercept bitboards for
/// one direction template.
fn calc_move_bitboards(
    piece_bit: u8,
    piece_coordinates: (i8, i8),
    direction_bitboard: &DirectionBitboard,
    friendly_bitboard: &u64,
    enemy_bitboard: &u64,
) -> (r: (u64, u64, u64, u64))
    requires
        piece_bit < 64,
        direction_bitboard.origin_bit < 64,
        (piece_coordinates.0 as int, piece_coordinates.1 as int)
            == crate::bitboard_manipulation::spec_piece_coordinates(piece_bit),
        direction_bitboard.shift_type is Diagonal ==> byte_of(
            direction_bitboard.bitboard,
            piece_bit as int / 8,
        ) != 0,
    ensures
        r == spec_calc_move_bitboards(
            piece_bit,
            *direction_bitboard,
            *friendly_bitboard,
            *enemy_bitboard,
        ),
{
    // Shift the direction template so it aligns with the piece's square.
    let move_bitboard = shift_direction_bitboard(piece_bit, piece_coordinates, direction_bitboard);

    let friendly_mbb_intercepts = move_bitboard & *friendly_bitboard;
    let enemy_mbb_intercepts = move_bitboard & *enemy_bitboard;

    // Remove the intercept squares from the aligned template.
    let intercepted_mbb = move_bitboard ^ (friendly_mbb_intercepts | enemy_mbb_intercepts);

    (move_bitboard, friendly_mbb_intercepts, enemy_mbb_intercepts, intercepted_mbb)
}

/// The en-passant target square of a pawn's double move: the far end of
/// the aligned double-step bitboard in the pawn's forward direction.
fn calc_ep_target_bit(move_bitboard: &u64, piece_color: PieceColor) -> (r: u8)
    requires
        piece_color is Black ==> *move_bitboard != 0,
    ensures
        r == spec_ep_target_bit(*move_bitboard, piece_color),
{
    match piece_color {
        PieceColor::White => move_bitboard.trailing_zeros() as u8,
        PieceColor::Black => 63 - move_bitboard.leading_zeros() as u8,
    }
}

/// Generates the pseudo-legal moves of the piece at `piece_bit` as a move
/// bitboard, together with the en-passant target square when a pawn double
/// step is among the moves, and the en-passant capture and landing squares
/// when that capture is available. Only collisions with friendly and enemy
/// pieces are considered; the king may be left in check.
///
/// The function does not care whose turn it is, so it can generate enemy
/// moves, as check detection does.
pub fn generate_moves(
    board: &Board,
    piece_bit: u8,
    piece_id: usize,
    piece_color: PieceColor,
    perspective_boards: &PerspectiveBoards,
) -> (r: (u64, Option<u8>, Option<(u8, u8)>))
    requires
        piece_bit < 64,
        piece_id < 7,
        perspective_boards.wf_for(*board, piece_color),
        board.en_passant_target_bit matches Some(t) ==> t < 64 && (
        board.piece_to_move is White ==> t >= 8) && (board.piece_to_move is Black ==> t < 56),
    ensures
        r == spec_generate_moves(*board, piece_bit, piece_id as int, piece_color),
{
    let ghost white = piece_color is White;
    let ghost dirs = spec_directions(white, piece_id as int);
    let ghost sliding = spec_is_sliding(piece_id as int);
    let ghost capture_template = spec_pawn_capture(white, piece_id as int);

    let mut output_move_bitboard: u64 = 0;

    // Set when a double move is part of the pawn's generated move set.
    let mut en_passant_target_bit: Option<u8> = None;

    let piece_coordinates = get_piece_coordinates(piece_bit);
    let piece_information = &perspective_boards.friendly_piece_information[piece_id];

    let (friendly_bitboard, enemy_bitboard) = perspective_boards.gen_bitboards();

    let ghost double_part = spec_double_move(
        piece_bit,
        piece_id as int,
        piece_color,
        perspective_boards.friendly_starting_board@,
        spec_pawn_double(white, piece_id as int),
        friendly_bitboard,
        enemy_bitboard,
    );

    // Use the double-move template if the piece has one; it only applies
    // while the pawn is still on its starting square.
    if piece_information.pawn_double_move_bitboard.is_some() {
        if piece_id == board_representation::read_piece_id(
            &perspective_boards.friendly_starting_board,
            piece_bit,
        ) {
            let direction_bitboard = piece_information.pawn_double_move_bitboard.as_ref().unwrap();

            let calcs = calc_move_bitboards(
                piece_bit,
                piece_coordinates,
                direction_bitboard,
                &friendly_bitboard,
                &enemy_bitboard,
            );
            let move_bitboard = calcs.0;
            let intercepted_mbb = calcs.3;

            // Use the double move only when no piece of either side
            // intercepts it.
            if intercepted_mbb == move_bitboard {
                proof {
                    if piece_color is Black {
                        lemma_black_double_move_nonzero(piece_bit, perspective_boards.friendly_starting_board@, move_bitboard);
                    }
                    lemma_or_assoc(move_bitboard, 0, 0);
                }
                output_move_bitboard |= move_bitboard;
                en_passant_target_bit = Some(calc_ep_target_bit(&move_bitboard, piece_color));
            }
        }
    }

    proof {
        lemma_or_assoc(double_part.0, 0, 0);
        assert(output_move_bitboard == double_part.0);
        assert(en_passant_target_bit == double_part.1);
    }

    // Accumulate the contribution of every direction template.
    let mut i: usize = 0;
    while i < piece_information.direction_bitboards.len()
        invariant
            piece_bit < 64,
            piece_id < 7,
            perspective_boards.wf_for(*board, piece_color),
            white == (piece_color is White),
            dirs == spec_directions(white, piece_id as int),
            sliding == spec_is_sliding(piece_id as int),
            capture_template == spec_pawn_capture(white, piece_id as int),
            crate::pieces::piece_information_wf(white, piece_id as int, *piece_information),
            (piece_coordinates.0 as int, piece_coordinates.1 as int)
                == crate::bitboard_manipulation::spec_piece_coordinates(piece_bit),
            friendly_bitboard == (perspective_boards.friendly_board@[0]
                | perspective_boards.friendly_board@[1] | perspective_boards.friendly_board@[2]),
            enemy_bitboard == (perspective_boards.enemy_board@[0]
                | perspective_boards.enemy_board@[1] | perspective_boards.enemy_board@[2]),
            i <= dirs.len(),
            piece_information.direction_bitboards@ == dirs,
            output_move_bitboard == (double_part.0 | spec_directions_moves(
                piece_bit,
                dirs,
                sliding,
                capture_template,
                friendly_bitboard,
                enemy_bitboard,
                i as int,
            )),
        decreases dirs.len() - i,
    {
        let direction_bitboard = &piece_information.direction_bitboards[i];

        proof {
            lemma_direction_template_facts(white, piece_id as int, i as int);
            if direction_bitboard.shift_type is Diagonal {
                lemma_diagonal_bytes_nonzero(piece_bit as int / 8);
            }
        }

        let calcs = calc_move_bitboards(
            piece_bit,
            piece_coordinates,
            direction_bitboard,
            &friendly_bitboard,
            &enemy_bitboard,
        );
        let move_bitboard = calcs.0;
        let friendly_mbb_intercepts = calcs.1;
        let intercepted_mbb = calcs.3;

        let ghost contribution = spec_direction_moves(
            piece_bit,
            dirs[i as int],
            sliding,
            capture_template,
            friendly_bitboard,
            enemy_bitboard,
        );
        let ghost before = output_move_bitboard;

        // A non-sliding piece's move bitboard needs no blocker correction.
        if !piece_information.is_sliding {
            if piece_information.pawn_capture_bitboard.is_none() {
                // The piece may land on empty squares or on enemies, but
                // not on friends.
                output_move_bitboard |= move_bitboard ^ friendly_mbb_intercepts;
            } else {
                // Pawns step only into empty squares...
                output_move_bitboard |= intercepted_mbb;

                // ...and capture only along their capture template.
                let capture_bitboard = shift_direction_bitboard(
                    piece_bit,
                    piece_coordinates,
                    piece_information.pawn_capture_bitboard.as_ref().unwrap(),
                );
                proof {
                    lemma_or_assoc(
                        before,
                        intercepted_mbb,
                        enemy_bitboard & capture_bitboard,
                    );
                }
                output_move_bitboard |= enemy_bitboard & capture_bitboard;
            }
        } else {
            // Trim the ray so sliders cannot jump over blockers.
            let fixed = fix_move_bitboard(
                piece_coordinates,
                &direction_bitboard.bitboard,
                &move_bitboard,
                &intercepted_mbb,
            );
            let fixed_bitboard = fixed.0;
            let first_intersecting_bits = fixed.1;
            output_move_bitboard |= fixed_bitboard;

            proof {
                lemma_fix_blocker_bits(
                    piece_coordinates,
                    direction_bitboard.bitboard,
                    move_bitboard,
                    intercepted_mbb,
                );
            }

            // Add enemy blockers back in, so they can be captured.
            let mut cutoff_bitboard: u64 = 0;
            if let Some(intersecting_bit) = first_intersecting_bits.0 {
                proof {
                    lemma_or_assoc(1u64 << (intersecting_bit as u64), 0, 0);
                }
                cutoff_bitboard |= 1u64 << (intersecting_bit as u64);
            }

            if let Some(intersecting_bit) = first_intersecting_bits.1 {
                cutoff_bitboard |= 1u64 << (intersecting_bit as u64);
            }

            proof {
                lemma_or_assoc(0, 0, 0);
                lemma_or_assoc(before, fixed_bitboard, enemy_bitboard & cutoff_bitboard);
            }
            output_move_bitboard |= enemy_bitboard & cutoff_bitboard;
        }

        proof {
            lemma_or_assoc(double_part.0, spec_directions_moves(
                piece_bit,
                dirs,
                sliding,
                capture_template,
                friendly_bitboard,
                enemy_bitboard,
                i as int,
            ), contribution);
        }

        i += 1;
    }

    // Add the en-passant capture's landing square, if the capture exists.
    let en_passant_cap_bits = get_en_passant_capture(
        board,
        &perspective_boards.friendly_board,
        &perspective_boards.enemy_board,
        piece_bit,
    );
    if let Some(cap_bits) = en_passant_cap_bits {
        output_move_bitboard |= 1u64 << (cap_bits.1 as u64);
    }

    (output_move_bitboard, en_passant_target_bit, en_passant_cap_bits)
}

/// A black pawn standing on its starting square always has a populated
/// aligned double-step bitboard.
proof fn lemma_black_double_move_nonzero(piece_bit: u8, starting_board: Seq<u64>, aligned: u64)
    requires
        piece_bit < 64,
        starting_board == spec_starting_black_board(),
        spec_piece_id(starting_board, piece_bit) == 1,
        aligned == spec_shift_direction_bitboard(
            piece_bit,
            crate::direction_bitboards::spec_black_pawn_double_moves(),
        ),
    ensures
        aligned != 0,
{
    let template = crate::direction_bitboards::BLACK_PAWN_DOUBLE_MOVES_BITBOARD;
    assert(8 <= piece_bit < 16) by (bit_vector)
        requires
            piece_bit < 64,
            ((crate::board_representation::STARTING_BLACK_BOARD_0 >> (piece_bit as u64)) & 1u64
                == 1u64),
            !((crate::board_representation::STARTING_BLACK_BOARD_1 >> (piece_bit as u64)) & 1u64
                == 1u64),
            !((crate::board_representation::STARTING_BLACK_BOARD_2 >> (piece_bit as u64)) & 1u64
                == 1u64),
    ;
    let col = piece_bit as int % 8;
    if col == 0 {
        assert(piece_bit == 8);
        assert(template != 0);
    } else {
        let s = (0 - col) as i8;
        assert(crate::bitboard_manipulation::spec_shift_u64(template, 0) == template)
            by (bit_vector);
        crate::bitboard_manipulation::lemma_shift_bytes_lane_confinement(template, s, 2);
        assert(byte_of(crate::direction_bitboards::BLACK_PAWN_DOUBLE_MOVES_BITBOARD, 2) == 1)
            by (bit_vector);
        assert(crate::bitboard_manipulation::spec_shift_byte(1u8, s as int) != 0) by (bit_vector)
            requires
                -7 <= s <= -1,
        ;
        lemma_byte_nonzero_word_nonzero(aligned, 2);
    }
}

proof fn lemma_byte_nonzero_word_nonzero(w: u64, k: u64)
    by (bit_vector)
    requires
        k < 8,
        byte_of(w, k as int) != 0,
    ensures
        w != 0,
{
}

pub(crate) proof fn lemma_bit_or(a: u64, b: u64, d: u64)
    by (bit_vector)
    requires
        d < 64,
    ensures
        nth_bit(a | b, d) == (nth_bit(a, d) || nth_bit(b, d)),
        !nth_bit(0u64, d),
        nth_bit(a & b, d) == (nth_bit(a, d) && nth_bit(b, d)),
{
}

proof fn lemma_bit_unblocked(mb: u64, f: u64, e: u64, d: u64)
    by (bit_vector)
    requires
        d < 64,
    ensures
        nth_bit(mb ^ ((mb & f) | (mb & e)), d) ==> !nth_bit(f, d) && !nth_bit(e, d),
        nth_bit(mb ^ (mb & f), d) ==> !nth_bit(f, d),
{
}

proof fn lemma_bit_single(b: u64, d: u64)
    by (bit_vector)
    requires
        b < 64,
        d < 64,
    ensures
        nth_bit(1u64 << b, d) ==> d == b,
{
}

proof fn lemma_rank_byte_bit(x: u8, r: u64, d: u64)
    by (bit_vector)
    requires
        r < 8,
        d < 64,
    ensures
        nth_bit((x as u64) << ((8 * r) as u64), d) ==> (8 * r <= d < 8 * r + 8
            && crate::bitboard_manipulation::nth_bit_u8(x, (d - 8 * r) as u8)),
{
}

proof fn lemma_lane_bit(w: u64, r: u64, j: u8)
    by (bit_vector)
    requires
        r < 8,
        j < 8,
    ensures
        crate::bitboard_manipulation::nth_bit_u8(byte_of(w, r as int), j) == nth_bit(
            w,
            (8 * r + j) as u64,
        ),
{
}

proof fn lemma_bit_u8_facts(a: u8, b: u8, c: u8, k: u8)
    by (bit_vector)
    requires
        k < 8,
    ensures
        crate::bitboard_manipulation::nth_bit_u8(a | b, k) == (
        crate::bitboard_manipulation::nth_bit_u8(a, k)
            || crate::bitboard_manipulation::nth_bit_u8(b, k)),
        !crate::bitboard_manipulation::nth_bit_u8(0u8, k),
        c < 8 ==> (crate::bitboard_manipulation::nth_bit_u8(1u8 << c, k) ==> k == c),
{
}

/// One side's occupancy word has a square's bit on exactly when its piece
/// id there is not zero.
pub proof fn lemma_occupancy_bit(half: Seq<u64>, d: u8)
    requires
        half.len() == 3,
        d < 64,
    ensures
        nth_bit(half[0] | half[1] | half[2], d as u64) <==> spec_piece_id(half, d) != 0,
{
    lemma_bit_or(half[0] | half[1], half[2], d as u64);
    lemma_bit_or(half[0], half[1], d as u64);
}

proof fn lemma_remove_vertical_subset(row: int, mv: u64, mask: u64, up: bool, d: u64)
    requires
        d < 64,
        nth_bit(
            crate::bitboard_manipulation::spec_remove_vertical(row, mv, mask, up).0,
            d,
        ),
    ensures
        nth_bit(mask, d),
    decreases (if up {
        8 - row
    } else {
        row + 1
    }),
{
    let result = crate::bitboard_manipulation::spec_remove_vertical(row, mv, mask, up);
    if row > 7 || row < 0 {
        lemma_bit_or(0, 0, d);
    } else {
        let move_byte = byte_of(mv, row);
        let mask_byte = byte_of(mask, row);
        if move_byte == mask_byte {
            let own: u64 = (mask_byte as u64) << ((8 * row) as u64);
            let next = if up {
                crate::bitboard_manipulation::spec_remove_vertical(row + 1, mv, mask, up)
            } else {
                crate::bitboard_manipulation::spec_remove_vertical(row - 1, mv, mask, up)
            };
            lemma_bit_or(own, next.0, d);
            if nth_bit(own, d) {
                lemma_rank_byte_bit(mask_byte, row as u64, d);
                lemma_lane_bit(mask, row as u64, (d - 8 * row) as u8);
            } else {
                if up {
                    lemma_remove_vertical_subset(row + 1, mv, mask, up, d);
                } else {
                    lemma_remove_vertical_subset(row - 1, mv, mask, up, d);
                }
            }
        } else {
            lemma_bit_or(0, 0, d);
        }
    }
}

proof fn lemma_remove_byte_ends_subset(bit: int, tb: u8, up: bool, k: u8)
    requires
        k < 8,
        crate::bitboard_manipulation::nth_bit_u8(
            crate::bitboard_manipulation::spec_remove_byte_ends(bit, tb, up).0,
            k,
        ),
    ensures
        crate::bitboard_manipulation::nth_bit_u8(tb, k),
    decreases (if up {
        8 - bit
    } else {
        bit + 1
    }),
{
    if bit > 7 || bit < 0 {
        lemma_bit_u8_facts(0, 0, 0, k);
    } else if crate::bitboard_manipulation::nth_bit_u8(tb, bit as u8) {
        let own: u8 = 1u8 << (bit as u8);
        let next = if up {
            crate::bitboard_manipulation::spec_remove_byte_ends(bit + 1, tb, up)
        } else {
            crate::bitboard_manipulation::spec_remove_byte_ends(bit - 1, tb, up)
        };
        lemma_bit_u8_facts(own, next.0, bit as u8, k);
        if crate::bitboard_manipulation::nth_bit_u8(own, k) {
        } else {
            if up {
                lemma_remove_byte_ends_subset(bit + 1, tb, up, k);
            } else {
                lemma_remove_byte_ends_subset(bit - 1, tb, up, k);
            }
        }
    } else {
        lemma_bit_u8_facts(0, 0, 0, k);
    }
}

/// The ray trimming never adds a square: every bit of the trimmed board
/// was a bit of the masked board.
proof fn lemma_fix_subset(
    piece_coordinates: (i8, i8),
    direction_bitboard: u64,
    move_bitboard: u64,
    masked_bitboard: u64,
    d: u64,
)
    requires
        0 <= piece_coordinates.0 < 8,
        0 <= piece_coordinates.1 < 8,
        d < 64,
        nth_bit(
            spec_fix_move_bitboard(
                piece_coordinates,
                direction_bitboard,
                move_bitboard,
                masked_bitboard,
            ).0,
            d,
        ),
    ensures
        nth_bit(masked_bitboard, d),
{
    if move_bitboard == masked_bitboard {
    } else {
        let row = piece_coordinates.1 as int;
        let col = piece_coordinates.0 as int;
        if direction_bitboard != crate::direction_bitboards::HORIZONTAL_LINE_BITBOARD {
            let lower = crate::bitboard_manipulation::spec_remove_vertical(
                row - 1,
                move_bitboard,
                masked_bitboard,
                false,
            );
            let upper = crate::bitboard_manipulation::spec_remove_vertical(
                row + 1,
                move_bitboard,
                masked_bitboard,
                true,
            );
            lemma_bit_or(lower.0, upper.0, d);
            if nth_bit(lower.0, d) {
                lemma_remove_vertical_subset(row - 1, move_bitboard, masked_bitboard, false, d);
            } else {
                lemma_remove_vertical_subset(row + 1, move_bitboard, masked_bitboard, true, d);
            }
        } else {
            let mask_byte = byte_of(masked_bitboard, row);
            let fix_lower = crate::bitboard_manipulation::spec_remove_byte_ends(
                col - 1,
                mask_byte,
                false,
            );
            let fix_upper = crate::bitboard_manipulation::spec_remove_byte_ends(
                col + 1,
                mask_byte,
                true,
            );
            lemma_rank_byte_bit(fix_lower.0 | fix_upper.0, row as u64, d);
            let k = (d - 8 * row) as u8;
            lemma_bit_u8_facts(fix_lower.0, fix_upper.0, 0, k);
            if crate::bitboard_manipulation::nth_bit_u8(fix_lower.0, k) {
                lemma_remove_byte_ends_subset(col - 1, mask_byte, false, k);
            } else {
                lemma_remove_byte_ends_subset(col + 1, mask_byte, true, k);
            }
            lemma_lane_bit(masked_bitboard, row as u64, k);
        }
    }
}

/// A square one direction template contributes is never occupied by a
/// friendly piece — unless it is occupied by an enemy piece (then the
/// friendly one is absent wherever the occupancies are disjoint).
proof fn lemma_direction_q(
    piece_bit: u8,
    db: DirectionBitboard,
    is_sliding: bool,
    pawn_capture: Option<DirectionBitboard>,
    friendly_bitboard: u64,
    enemy_bitboard: u64,
    d: u64,
)
    requires
        piece_bit < 64,
        d < 64,
        nth_bit(
            spec_direction_moves(
                piece_bit,
                db,
                is_sliding,
                pawn_capture,
                friendly_bitboard,
                enemy_bitboard,
            ),
            d,
        ),
    ensures
        !nth_bit(friendly_bitboard, d) || nth_bit(enemy_bitboard, d),
{
    let calcs = spec_calc_move_bitboards(piece_bit, db, friendly_bitboard, enemy_bitboard);
    if !is_sliding {
        if pawn_capture is None {
            lemma_bit_unblocked(calcs.0, friendly_bitboard, enemy_bitboard, d);
        } else {
            let cap = enemy_bitboard & spec_shift_direction_bitboard(
                piece_bit,
                pawn_capture->0,
            );
            lemma_bit_or(calcs.3, cap, d);
            if nth_bit(calcs.3, d) {
                lemma_bit_unblocked(calcs.0, friendly_bitboard, enemy_bitboard, d);
            } else {
                lemma_bit_or(
                    enemy_bitboard,
                    spec_shift_direction_bitboard(piece_bit, pawn_capture->0),
                    d,
                );
            }
        }
    } else {
        let coords = ((piece_bit as int % 8) as i8, (piece_bit as int / 8) as i8);
        let fixed = spec_fix_move_bitboard(coords, db.bitboard, calcs.0, calcs.3);
        let cutoff = (match fixed.1.0 {
            Some(b) => 1u64 << (b as u64),
            None => 0u64,
        }) | (match fixed.1.1 {
            Some(b) => 1u64 << (b as u64),
            None => 0u64,
        });
        lemma_bit_or(fixed.0, enemy_bitboard & cutoff, d);
        if nth_bit(fixed.0, d) {
            lemma_fix_subset(coords, db.bitboard, calcs.0, calcs.3, d);
            lemma_bit_unblocked(calcs.0, friendly_bitboard, enemy_bitboard, d);
        } else {
            lemma_bit_or(enemy_bitboard, cutoff, d);
        }
    }
}

proof fn lemma_directions_q(
    piece_bit: u8,
    dirs: Seq<DirectionBitboard>,
    is_sliding: bool,
    pawn_capture: Option<DirectionBitboard>,
    friendly_bitboard: u64,
    enemy_bitboard: u64,
    n: int,
    d: u64,
)
    requires
        piece_bit < 64,
        d < 64,
        nth_bit(
            spec_directions_moves(
                piece_bit,
                dirs,
                is_sliding,
                pawn_capture,
                friendly_bitboard,
                enemy_bitboard,
                n,
            ),
            d,
        ),
    ensures
        !nth_bit(friendly_bitboard, d) || nth_bit(enemy_bitboard, d),
    decreases n,
{
    if n <= 0 {
        lemma_bit_or(0, 0, d);
    } else {
        let prev = spec_directions_moves(
            piece_bit,
            dirs,
            is_sliding,
            pawn_capture,
            friendly_bitboard,
            enemy_bitboard,
            n - 1,
        );
        let contribution = spec_direction_moves(
            piece_bit,
            dirs[n - 1],
            is_sliding,
            pawn_capture,
            friendly_bitboard,
            enemy_bitboard,
        );
        lemma_bit_or(prev, contribution, d);
        if nth_bit(prev, d) {
            lemma_directions_q(
                piece_bit,
                dirs,
                is_sliding,
                pawn_capture,
                friendly_bitboard,
                enemy_bitboard,
                n - 1,
                d,
            );
        } else {
            lemma_direction_q(
                piece_bit,
                dirs[n - 1],
                is_sliding,
                pawn_capture,
                friendly_bitboard,
                enemy_bitboard,
                d,
            );
        }
    }
}

/// A generated move never lands on a friendly piece: wherever the two
/// occupancies are disjoint, every set bit of the move bitboard names a
/// square that is empty on the mover's own board.
pub proof fn lemma_generated_move_squares(
    board: Board,
    piece_bit: u8,
    piece_id: int,
    piece_color: PieceColor,
    d: u8,
)
    requires
        piece_bit < 64,
        d < 64,
        forall|b: u8|
            b < 64 ==> spec_piece_id(board.white_board@, b) == 0 || spec_piece_id(
                board.black_board@,
                b,
            ) == 0,
        board.en_passant_target_bit matches Some(t) ==> 8 <= t < 56,
        nth_bit(spec_generate_moves(board, piece_bit, piece_id, piece_color).0, d as u64),
    ensures
        spec_piece_id(
            if piece_color is White {
                board.white_board@
            } else {
                board.black_board@
            },
            d,
        ) == 0,
{
    let white = piece_color is White;
    let friendly = if white {
        board.white_board@
    } else {
        board.black_board@
    };
    let enemy = if white {
        board.black_board@
    } else {
        board.white_board@
    };
    let starting = if white {
        spec_starting_white_board()
    } else {
        spec_starting_black_board()
    };
    let friendly_bitboard = friendly[0] | friendly[1] | friendly[2];
    let enemy_bitboard = enemy[0] | enemy[1] | enemy[2];
    let dirs = spec_directions(white, piece_id);
    let double = spec_double_move(
        piece_bit,
        piece_id,
        piece_color,
        starting,
        spec_pawn_double(white, piece_id),
        friendly_bitboard,
        enemy_bitboard,
    );
    let fold_moves = spec_directions_moves(
        piece_bit,
        dirs,
        spec_is_sliding(piece_id),
        spec_pawn_capture(white, piece_id),
        friendly_bitboard,
        enemy_bitboard,
        dirs.len() as int,
    );
    let dir_moves = double.0 | fold_moves;
    let ep = spec_en_passant_capture(board, friendly, enemy, piece_bit);
    let dd = d as u64;

    let on_ep_landing = if ep is Some {
        lemma_bit_or(dir_moves, 1u64 << ((ep->0).1 as u64), dd);
        if !nth_bit(dir_moves, dd) {
            lemma_bit_single(((ep->0).1) as u64, dd);
            true
        } else {
            false
        }
    } else {
        false
    };

    if on_ep_landing {
        // The en-passant landing square is empty on both boards.
        assert(spec_piece_id(friendly, d) == 0);
    } else {
        lemma_bit_or(double.0, fold_moves, dd);
        if nth_bit(double.0, dd) {
            let calcs = spec_calc_move_bitboards(
                piece_bit,
                spec_pawn_double(white, piece_id)->0,
                friendly_bitboard,
                enemy_bitboard,
            );
            lemma_bit_unblocked(calcs.0, friendly_bitboard, enemy_bitboard, dd);
            if double.0 != 0 {
                assert(double.0 == calcs.0 && calcs.0 == calcs.3);
            } else {
                lemma_bit_or(0, 0, dd);
            }
        } else {
            lemma_directions_q(
                piece_bit,
                dirs,
                spec_is_sliding(piece_id),
                spec_pawn_capture(white, piece_id),
                friendly_bitboard,
                enemy_bitboard,
                dirs.len() as int,
                dd,
            );
        }
        lemma_occupancy_bit(friendly, d);
        if nth_bit(friendly_bitboard, dd) {
            lemma_occupancy_bit(enemy, d);
        }
    }
}

proof fn lemma_bit_set_lane(w: u64, t: u64)
    by (bit_vector)
    requires
        t < 64,
        (w >> t) & 1u64 == 1u64,
    ensures
        byte_of(w, (t / 8) as int) != 0,
{
}

proof fn lemma_shift_byte_of_zero(s: i8)
    by (bit_vector)
    requires
        -7 <= s <= 7,
    ensures
        crate::bitboard_manipulation::spec_shift_byte(0u8, s as int) == 0u8,
{
}

/// An en-passant target square reported with a pawn double move always
/// lies between ranks 1 and 6, the zone where double moves land.
pub proof fn lemma_double_target_bounds(
    board: Board,
    piece_bit: u8,
    piece_id: int,
    piece_color: PieceColor,
)
    requires
        piece_bit < 64,
    ensures
        spec_generate_moves(board, piece_bit, piece_id, piece_color).1 matches Some(t) ==> 8 <= t
            < 56,
{
    let white = piece_color is White;
    let friendly = if white {
        board.white_board@
    } else {
        board.black_board@
    };
    let enemy = if white {
        board.black_board@
    } else {
        board.white_board@
    };
    let starting = if white {
        spec_starting_white_board()
    } else {
        spec_starting_black_board()
    };
    let friendly_bitboard = friendly[0] | friendly[1] | friendly[2];
    let enemy_bitboard = enemy[0] | enemy[1] | enemy[2];
    let pawn_double = spec_pawn_double(white, piece_id);
    let double = spec_double_move(
        piece_bit,
        piece_id,
        piece_color,
        starting,
        pawn_double,
        friendly_bitboard,
        enemy_bitboard,
    );
    if double.1 is Some {
        let template = pawn_double->0;
        let aligned = spec_shift_direction_bitboard(piece_bit, template);
        let col = piece_bit as int % 8;
        assert(piece_id == 1);
        if white {
            assert(48 <= piece_bit < 56) by (bit_vector)
                requires
                    piece_bit < 64,
                    ((crate::board_representation::STARTING_WHITE_BOARD_0 >> (piece_bit as u64))
                        & 1u64 == 1u64),
                    !((crate::board_representation::STARTING_WHITE_BOARD_1 >> (piece_bit as u64))
                        & 1u64 == 1u64),
                    !((crate::board_representation::STARTING_WHITE_BOARD_2 >> (piece_bit as u64))
                        & 1u64 == 1u64),
            ;
            lemma_double_lanes(
                crate::direction_bitboards::WHITE_PAWN_DOUBLE_MOVES_BITBOARD,
                aligned,
                piece_bit,
                48,
            );
            let zeros = vstd::std_specs::bits::u64_trailing_zeros(aligned) as u64;
            assert(aligned != 0) by {
                lemma_byte_nonzero_word_nonzero(aligned, 4);
            }
            assert((aligned >> zeros) & 1u64 == 1u64);
            lemma_bit_set_lane(aligned, zeros);
            assert(32 <= zeros < 48);
        } else {
            assert(8 <= piece_bit < 16) by (bit_vector)
                requires
                    piece_bit < 64,
                    ((crate::board_representation::STARTING_BLACK_BOARD_0 >> (piece_bit as u64))
                        & 1u64 == 1u64),
                    !((crate::board_representation::STARTING_BLACK_BOARD_1 >> (piece_bit as u64))
                        & 1u64 == 1u64),
                    !((crate::board_representation::STARTING_BLACK_BOARD_2 >> (piece_bit as u64))
                        & 1u64 == 1u64),
            ;
            lemma_double_lanes(
                crate::direction_bitboards::BLACK_PAWN_DOUBLE_MOVES_BITBOARD,
                aligned,
                piece_bit,
                8,
            );
            let lz = vstd::std_specs::bits::u64_leading_zeros(aligned);
            assert(aligned != 0) by {
                lemma_byte_nonzero_word_nonzero(aligned, 2);
            }
            let top = (63 - lz) as u64;
            assert((aligned >> (vstd::prelude::sub(63u64, lz as u64))) & 1u64 != 0u64);
            assert((aligned >> top) & 1u64 == 1u64) by (bit_vector)
                requires
                    (aligned >> top) & 1u64 != 0u64,
            ;
            lemma_bit_set_lane(aligned, top);
            assert(16 <= top < 32);
        }
    }
}

/// The aligned double-move pattern of a pawn on its starting rank occupies
/// exactly the two byte lanes in front of the pawn.
proof fn lemma_double_lanes(template: u64, aligned: u64, piece_bit: u8, origin: u8)
    requires
        piece_bit < 64,
        origin == 48 || origin == 8,
        origin as int / 8 == piece_bit as int / 8,
        origin <= piece_bit,
        (piece_bit as int) < (origin as int) + 8,
        template == (if origin == 48 {
            crate::direction_bitboards::WHITE_PAWN_DOUBLE_MOVES_BITBOARD
        } else {
            crate::direction_bitboards::BLACK_PAWN_DOUBLE_MOVES_BITBOARD
        }),
        aligned == spec_shift_direction_bitboard(
            piece_bit,
            if origin == 48 {
                crate::direction_bitboards::spec_white_pawn_double_moves()
            } else {
                crate::direction_bitboards::spec_black_pawn_double_moves()
            },
        ),
    ensures
        origin == 48 ==> byte_of(aligned, 4) != 0 && (forall|k: u64|
            k < 8 && k != 4 && k != 5 ==> byte_of(aligned, k as int) == 0),
        origin == 8 ==> byte_of(aligned, 2) != 0 && (forall|k: u64|
            k < 8 && k != 2 && k != 3 ==> byte_of(aligned, k as int) == 0),
{
    let col = piece_bit as int % 8;
    assert(byte_of(crate::direction_bitboards::WHITE_PAWN_DOUBLE_MOVES_BITBOARD, 0) == 0
        && byte_of(crate::direction_bitboards::WHITE_PAWN_DOUBLE_MOVES_BITBOARD, 1) == 0
        && byte_of(crate::direction_bitboards::WHITE_PAWN_DOUBLE_MOVES_BITBOARD, 2) == 0
        && byte_of(crate::direction_bitboards::WHITE_PAWN_DOUBLE_MOVES_BITBOARD, 3) == 0
        && byte_of(crate::direction_bitboards::WHITE_PAWN_DOUBLE_MOVES_BITBOARD, 4) == 1
        && byte_of(crate::direction_bitboards::WHITE_PAWN_DOUBLE_MOVES_BITBOARD, 5) == 1
        && byte_of(crate::direction_bitboards::WHITE_PAWN_DOUBLE_MOVES_BITBOARD, 6) == 0
        && byte_of(crate::direction_bitboards::WHITE_PAWN_DOUBLE_MOVES_BITBOARD, 7) == 0
        && byte_of(crate::direction_bitboards::BLACK_PAWN_DOUBLE_MOVES_BITBOARD, 0) == 0
        && byte_of(crate::direction_bitboards::BLACK_PAWN_DOUBLE_MOVES_BITBOARD, 1) == 0
        && byte_of(crate::direction_bitboards::BLACK_PAWN_DOUBLE_MOVES_BITBOARD, 2) == 1
        && byte_of(crate::direction_bitboards::BLACK_PAWN_DOUBLE_MOVES_BITBOARD, 3) == 1
        && byte_of(crate::direction_bitboards::BLACK_PAWN_DOUBLE_MOVES_BITBOARD, 4) == 0
        && byte_of(crate::direction_bitboards::BLACK_PAWN_DOUBLE_MOVES_BITBOARD, 5) == 0
        && byte_of(crate::direction_bitboards::BLACK_PAWN_DOUBLE_MOVES_BITBOARD, 6) == 0
        && byte_of(crate::direction_bitboards::BLACK_PAWN_DOUBLE_MOVES_BITBOARD, 7) == 0)
        by (bit_vector);
    if col == 0 {
        // The piece sits at the template origin: the pattern is unshifted.
        assert(aligned == template);
        assert(1u8 << 0u8 == 1u8) by (bit_vector);
    } else {
        let s = (0 - col) as i8;
        assert(crate::bitboard_manipulation::spec_shift_u64(template, 0) == template)
            by (bit_vector);
        assert(aligned == crate::bitboard_manipulation::spec_shift_bytes(template, s as int));
        assert forall|k: u64| k < 8 implies byte_of(aligned, k as int)
            == crate::bitboard_manipulation::spec_shift_byte(
            byte_of(template, k as int),
            s as int,
        ) by {
            crate::bitboard_manipulation::lemma_shift_bytes_lane_confinement(template, s, k);
        }
        assert forall|k: u64| k < 8 && byte_of(template, k as int) == 0 implies byte_of(
            aligned,
            k as int,
        ) == 0 by {
            lemma_shift_byte_of_zero(s);
        }
        assert(crate::bitboard_manipulation::spec_shift_byte(1u8, s as int) != 0) by (bit_vector)
            requires
                -7 <= s <= -1,
        ;
    }
}

} // verus!
