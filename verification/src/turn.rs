//! Turn application: moving a piece produces a fresh board, captures are
//! resolved (including en passant), the clocks and en-passant state are
//! maintained, and a move that leaves the mover's own king in check is
//! rejected without any effect on the caller's board.

use vstd::prelude::*;

use crate::board_representation;
use crate::board_representation::{
    Board, PieceColor, spec_insert_piece, spec_material, spec_piece_id, spec_remove_piece,
};
use crate::check_validation;
use crate::check_validation::{
    FIXED_VECTOR_PLACEHOLDER_VALUE, MAX_CHECKING_PIECES, spec_king_in_check,
    spec_potential_checkers_bitboard,
};
use crate::bitboard_manipulation::on_bits;
use crate::fixed_vector::FixedVector;
use crate::pieces;
use crate::pieces::spec_piece_value;

verus! {

broadcast use vstd::array::group_array_axioms;

#[derive(Debug, PartialEq, Eq, Structural, Clone, Copy)]
pub enum TurnError {
    /// The move would leave the mover's own king in check.
    Check,
    /// The move captures nothing, and only captures were asked for.
    NotCapture,
}

/// A half board array rewritten to hold the given three words.
pub open spec fn spec_half_with(arr: [u64; 3], s: Seq<u64>) -> [u64; 3] {
    vstd::array::spec_array_update(
        vstd::array::spec_array_update(vstd::array::spec_array_update(arr, 0, s[0]), 1, s[1]),
        2,
        s[2],
    )
}

pub proof fn lemma_half_with_view(arr: [u64; 3], s: Seq<u64>)
    requires
        s.len() == 3,
    ensures
        spec_half_with(arr, s)@ == s,
{
    assert(spec_half_with(arr, s)@ =~= s);
}

/// The checkers shortlist that a recomputation produces: the set bits of
/// the potential-checkers bitboard. A side never has more than sixteen
/// pieces, so the sixteen-slot shortlist holds all of them.
pub open spec fn spec_recomputed_checkers(board: Board, color: PieceColor) -> Seq<u8> {
    on_bits(spec_potential_checkers_bitboard(board, color))
}

/// The mover's half board after the turn: the piece leaves `initial_bit`
/// and lands on `final_bit`.
pub open spec fn spec_turn_friendly(friendly: Seq<u64>, piece_id: usize, initial_bit: u8, final_bit: u8) -> Seq<u64> {
    spec_insert_piece(spec_remove_piece(friendly, initial_bit), final_bit, piece_id)
}

/// The opponent's half board after the turn: an en-passant victim leaves
/// its square, and whatever piece sat on the landing square is removed.
pub open spec fn spec_turn_enemy(enemy: Seq<u64>, final_bit: u8, ep_capture_bit: Option<u8>) -> Seq<u64> {
    let after_ep = match ep_capture_bit {
        Some(c) => spec_remove_piece(enemy, c),
        None => enemy,
    };
    spec_remove_piece(after_ep, final_bit)
}

/// The id of the piece the turn captures: the one on the en-passant
/// capture square if the move is an en passant, else the one on the
/// landing square.
pub open spec fn spec_capture_piece_id(enemy: Seq<u64>, final_bit: u8, ep_capture_bit: Option<u8>) -> int {
    match ep_capture_bit {
        Some(c) => spec_piece_id(enemy, c),
        None => spec_piece_id(enemy, final_bit),
    }
}

/// The board as it stands when king safety is tested: pieces moved and
/// captured, material updated, the en-passant target cleared by an
/// en-passant capture, but clocks and side to move still untouched.
pub open spec fn spec_mid_board(
    board: Board,
    piece_id: usize,
    initial_bit: u8,
    final_bit: u8,
    ep_capture_bit: Option<u8>,
) -> Board {
    let white_moves = board.piece_to_move is White;
    let friendly0 = if white_moves {
        board.white_board@
    } else {
        board.black_board@
    };
    let enemy0 = if white_moves {
        board.black_board@
    } else {
        board.white_board@
    };
    let capture_piece_id = spec_capture_piece_id(enemy0, final_bit, ep_capture_bit);
    let capture_piece_value = if capture_piece_id == 0 {
        0int
    } else {
        spec_piece_value(capture_piece_id) as int
    };
    let friendly1 = spec_turn_friendly(friendly0, piece_id, initial_bit, final_bit);
    let enemy1 = spec_turn_enemy(enemy0, final_bit, ep_capture_bit);
    let king_moved = piece_id == pieces::KING_ID;
    Board {
        white_board: spec_half_with(
            board.white_board,
            if white_moves {
                friendly1
            } else {
                enemy1
            },
        ),
        black_board: spec_half_with(
            board.black_board,
            if white_moves {
                enemy1
            } else {
                friendly1
            },
        ),
        white_king_bit: if white_moves && king_moved {
            final_bit
        } else {
            board.white_king_bit
        },
        black_king_bit: if !white_moves && king_moved {
            final_bit
        } else {
            board.black_king_bit
        },
        piece_to_move: board.piece_to_move,
        en_passant_target_bit: if ep_capture_bit is Some {
            None
        } else {
            board.en_passant_target_bit
        },
        castling_availability: board.castling_availability,
        white_material: if white_moves {
            board.white_material
        } else {
            (board.white_material - capture_piece_value) as i8
        },
        black_material: if white_moves {
            (board.black_material - capture_piece_value) as i8
        } else {
            board.black_material
        },
        halfmove_clock: board.halfmove_clock,
        fullmove_number: board.fullmove_number,
    }
}

/// What taking a turn returns: the rejection of a non-capture in
/// captures-only mode, the rejection of a move that leaves the mover's
/// king in check, or the fully updated board paired with the captured
/// piece's value.
pub open spec fn spec_take_turn(
    board: Board,
    piece_id: usize,
    initial_bit: u8,
    final_bit: u8,
    only_use_captures: bool,
    ep_bits_for_turn: (Option<u8>, Option<u8>),
    checkers: Seq<u8>,
) -> Result<(Board, i8), TurnError> {
    let white_moves = board.piece_to_move is White;
    let enemy0 = if white_moves {
        board.black_board@
    } else {
        board.white_board@
    };
    let capture_piece_id = spec_capture_piece_id(enemy0, final_bit, ep_bits_for_turn.1);
    if capture_piece_id == 0 && only_use_captures {
        Err(TurnError::NotCapture)
    } else {
        let capture_piece_value = if capture_piece_id == 0 {
            0i8
        } else {
            spec_piece_value(capture_piece_id)
        };
        let mid = spec_mid_board(board, piece_id, initial_bit, final_bit, ep_bits_for_turn.1);
        let king_moved = piece_id == pieces::KING_ID;
        let used_checkers = if king_moved {
            spec_recomputed_checkers(mid, board.piece_to_move)
        } else {
            checkers
        };
        if spec_king_in_check(mid, board.piece_to_move, used_checkers) {
            Err(TurnError::Check)
        } else {
            let finished = Board {
                en_passant_target_bit: ep_bits_for_turn.0,
                piece_to_move: if white_moves {
                    PieceColor::Black
                } else {
                    PieceColor::White
                },
                fullmove_number: if !white_moves {
                    (board.fullmove_number + 1) as i16
                } else {
                    board.fullmove_number
                },
                halfmove_clock: if capture_piece_value == 0 {
                    if piece_id == pieces::PAWN_ID {
                        0i16
                    } else {
                        (board.halfmove_clock + 1) as i16
                    }
                } else {
                    0i16
                },
                ..mid
            };
            Ok((finished, capture_piece_value))
        }
    }
}

/// The half board of the side to move.
pub open spec fn spec_friendly_half(board: Board) -> Seq<u64> {
    if board.piece_to_move is White {
        board.white_board@
    } else {
        board.black_board@
    }
}

/// The half board of the side not moving.
pub open spec fn spec_enemy_half(board: Board) -> Seq<u64> {
    if board.piece_to_move is White {
        board.black_board@
    } else {
        board.white_board@
    }
}

/// Takes a turn by moving the piece at `initial_bit` to `final_bit` on a
/// fresh copy of the board, and returns the new board and the value of any
/// captured piece. A move that captures nothing is rejected when
/// `only_use_captures` is set, and a move that leaves the mover's own king
/// in check is rejected with `Check`; either rejection carries no board,
/// so the caller's board is untouched.
#[verifier::rlimit(100)]
pub fn take_turn(
    initial_board: &Board,
    piece_id: usize,
    initial_bit: u8,
    final_bit: u8,
    only_use_captures: bool,
    ep_bits_for_turn: (Option<u8>, Option<u8>),
    potential_checking_pieces: FixedVector<u8, MAX_CHECKING_PIECES>,
) -> (r: Result<(Board, i8), TurnError>)
    requires
        initial_board.wf(),
        initial_bit < 64,
        final_bit < 64,
        piece_id == spec_piece_id(spec_friendly_half(*initial_board), initial_bit),
        final_bit == initial_bit || spec_piece_id(spec_friendly_half(*initial_board), final_bit)
            == 0,
        ep_bits_for_turn.0 matches Some(t) ==> 8 <= t < 56,
        ep_bits_for_turn.1 matches Some(c) ==> c < 64 && spec_piece_id(
            spec_enemy_half(*initial_board),
            final_bit,
        ) == 0,
        initial_board.halfmove_clock < i16::MAX,
        initial_board.fullmove_number < i16::MAX,
        potential_checking_pieces.length <= MAX_CHECKING_PIECES,
        forall|i: int|
            0 <= i < potential_checking_pieces.length
                ==> #[trigger] potential_checking_pieces.internal_array@[i] < 64
                || potential_checking_pieces.internal_array@[i] == FIXED_VECTOR_PLACEHOLDER_VALUE,
    ensures
        r == spec_take_turn(
            *initial_board,
            piece_id,
            initial_bit,
            final_bit,
            only_use_captures,
            ep_bits_for_turn,
            potential_checking_pieces.elements(),
        ),
        r matches Ok(p) ==> p.0.wf() && 0 <= p.1 <= 9 && p.0.piece_to_move == (
        if initial_board.piece_to_move is White {
            PieceColor::Black
        } else {
            PieceColor::White
        }),
{
    let white_moves = match initial_board.piece_to_move {
        PieceColor::White => true,
        PieceColor::Black => false,
    };

    let mut friendly_board: [u64; 3] = if white_moves {
        initial_board.white_board
    } else {
        initial_board.black_board
    };
    let mut enemy_board: [u64; 3] = if white_moves {
        initial_board.black_board
    } else {
        initial_board.white_board
    };

    let (en_passant_target_bit, en_passant_capture_bit) = ep_bits_for_turn;

    let mut mid_en_passant = initial_board.en_passant_target_bit;

    // Resolve the captured piece: on the en-passant capture square when the
    // move is an en passant, else on the landing square.
    let capture_piece_id = if let Some(capture_bit) = en_passant_capture_bit {
        let id = board_representation::read_piece_id(&enemy_board, capture_bit);
        board_representation::remove_piece(capture_bit, &mut enemy_board);
        mid_en_passant = None;

        id
    } else {
        board_representation::read_piece_id(&enemy_board, final_bit)
    };

    // In captures-only mode a quiet move is rejected before anything else
    // is computed.
    let capture_piece_value = if capture_piece_id == 0 {
        if only_use_captures {
            return Err(TurnError::NotCapture);
        }
        0
    } else {
        pieces::piece_value(capture_piece_id)
    };

    let ghost enemy0 = spec_enemy_half(*initial_board);
    let ghost friendly0 = spec_friendly_half(*initial_board);

    proof {
        board_representation::lemma_material_nonneg(enemy0, 64);
        board_representation::lemma_material_nonneg(friendly0, 64);
    }

    // Subtract the captured material from the enemy's total.
    let mut white_material = initial_board.white_material;
    let mut black_material = initial_board.black_material;
    if white_moves {
        black_material = black_material - capture_piece_value;
    } else {
        white_material = white_material - capture_piece_value;
    }

    // Move the friendly piece to its new position and remove any enemy
    // piece from the square it lands on.
    board_representation::remove_piece(initial_bit, &mut friendly_board);
    board_representation::insert_piece(final_bit, piece_id, &mut friendly_board);
    board_representation::remove_piece(final_bit, &mut enemy_board);

    // A king move invalidates the cached king square.
    let mut white_king_bit = initial_board.white_king_bit;
    let mut black_king_bit = initial_board.black_king_bit;
    if piece_id == pieces::KING_ID {
        if white_moves {
            white_king_bit = final_bit;
        } else {
            black_king_bit = final_bit;
        }
    }

    let mid_board = Board {
        white_board: if white_moves {
            friendly_board
        } else {
            enemy_board
        },
        black_board: if white_moves {
            enemy_board
        } else {
            friendly_board
        },
        white_king_bit,
        black_king_bit,
        piece_to_move: initial_board.piece_to_move,
        en_passant_target_bit: mid_en_passant,
        castling_availability: initial_board.castling_availability,
        white_material,
        black_material,
        halfmove_clock: initial_board.halfmove_clock,
        fullmove_number: initial_board.fullmove_number,
    };

    let ghost smid = spec_mid_board(
        *initial_board,
        piece_id,
        initial_bit,
        final_bit,
        en_passant_capture_bit,
    );
    let ghost friendly1 = spec_turn_friendly(friendly0, piece_id, initial_bit, final_bit);
    let ghost enemy1 = spec_turn_enemy(enemy0, final_bit, en_passant_capture_bit);

    proof {
        lemma_half_with_view(
            initial_board.white_board,
            if white_moves {
                friendly1
            } else {
                enemy1
            },
        );
        lemma_half_with_view(
            initial_board.black_board,
            if white_moves {
                enemy1
            } else {
                friendly1
            },
        );
        assert(mid_board.white_board =~= smid.white_board);
        assert(mid_board.black_board =~= smid.black_board);
        assert(mid_board == smid);
        lemma_turn_halves_ok(*initial_board, piece_id, initial_bit, final_bit, en_passant_capture_bit);
        lemma_turn_piece_count(
            *initial_board,
            piece_id,
            initial_bit,
            final_bit,
            en_passant_capture_bit,
        );
    }

    // If the king moved, the potential checkers must be recomputed from
    // the new king square; otherwise the caller's shortlist is reused.
    let used_checkers: FixedVector<u8, MAX_CHECKING_PIECES> = if piece_id == pieces::KING_ID {
        let recomputed = check_validation::get_potential_checking_pieces(
            &mid_board,
            initial_board.piece_to_move,
        );
        proof {
            assert(recomputed.elements() =~= on_bits(
                spec_potential_checkers_bitboard(mid_board, initial_board.piece_to_move),
            ));
        }
        recomputed
    } else {
        potential_checking_pieces
    };

    // A move that leaves the mover's own king in check is illegal.
    if check_validation::is_king_in_check(
        &mid_board,
        initial_board.piece_to_move,
        &used_checkers,
    ) {
        return Err(TurnError::Check);
    }

    let mut new_board = mid_board;

    if !white_moves {
        new_board.fullmove_number = new_board.fullmove_number + 1;
    }

    // Set or reset the en-passant target square.
    new_board.en_passant_target_bit = en_passant_target_bit;

    if capture_piece_value == 0 {
        if piece_id == pieces::PAWN_ID {
            // The halfmove clock resets when a pawn advances...
            new_board.halfmove_clock = 0;
        } else {
            new_board.halfmove_clock = new_board.halfmove_clock + 1;
        }
    } else {
        // ...and when a capture is made.
        new_board.halfmove_clock = 0;
    }

    new_board.piece_to_move = if white_moves {
        PieceColor::Black
    } else {
        PieceColor::White
    };

    proof {
        lemma_turn_material(*initial_board, piece_id, initial_bit, final_bit, en_passant_capture_bit);
    }

    Ok((new_board, capture_piece_value))
}

/// After a turn the two half boards still hold no id 7 and never both
/// occupy one square.
proof fn lemma_turn_halves_ok(
    board: Board,
    piece_id: usize,
    initial_bit: u8,
    final_bit: u8,
    ep_capture_bit: Option<u8>,
)
    requires
        board.wf(),
        initial_bit < 64,
        final_bit < 64,
        piece_id == spec_piece_id(spec_friendly_half(board), initial_bit),
        final_bit == initial_bit || spec_piece_id(spec_friendly_half(board), final_bit) == 0,
        ep_capture_bit matches Some(c) ==> c < 64,
    ensures
        ({
            let friendly1 = spec_turn_friendly(
                spec_friendly_half(board),
                piece_id,
                initial_bit,
                final_bit,
            );
            let enemy1 = spec_turn_enemy(spec_enemy_half(board), final_bit, ep_capture_bit);
            &&& friendly1.len() == 3
            &&& enemy1.len() == 3
            &&& spec_piece_id(friendly1, final_bit) == piece_id
            &&& (forall|b: u8|
                b < 64 && b != final_bit && b != initial_bit ==> spec_piece_id(friendly1, b)
                    == spec_piece_id(spec_friendly_half(board), b))
            &&& (initial_bit != final_bit ==> spec_piece_id(friendly1, initial_bit) == 0)
            &&& (forall|b: u8| b < 64 ==> spec_piece_id(friendly1, b) != 7)
            &&& (forall|b: u8| b < 64 ==> spec_piece_id(enemy1, b) != 7)
            &&& (forall|b: u8|
                b < 64 ==> spec_piece_id(friendly1, b) == 0 || spec_piece_id(enemy1, b) == 0)
            &&& spec_piece_id(enemy1, final_bit) == 0
        }),
{
    let friendly0 = spec_friendly_half(board);
    let enemy0 = spec_enemy_half(board);
    let removed = spec_remove_piece(friendly0, initial_bit);
    let friendly1 = spec_turn_friendly(friendly0, piece_id, initial_bit, final_bit);
    let after_ep = match ep_capture_bit {
        Some(c) => spec_remove_piece(enemy0, c),
        None => enemy0,
    };
    let enemy1 = spec_turn_enemy(enemy0, final_bit, ep_capture_bit);
    board_representation::lemma_spec_remove_piece_ids(friendly0, initial_bit);
    assert(spec_piece_id(removed, final_bit) == 0);
    assert(piece_id < 8);
    board_representation::lemma_spec_insert_piece_ids(removed, final_bit, piece_id);
    if let Some(c) = ep_capture_bit {
        board_representation::lemma_spec_remove_piece_ids(enemy0, c);
    }
    board_representation::lemma_spec_remove_piece_ids(after_ep, final_bit);
    assert forall|b: u8| b < 64 && b != final_bit && b != initial_bit implies spec_piece_id(
        friendly1,
        b,
    ) == spec_piece_id(friendly0, b) by {
        assert(spec_piece_id(friendly1, b) == spec_piece_id(removed, b));
        assert(spec_piece_id(removed, b) == spec_piece_id(friendly0, b));
    }
    assert forall|b: u8| b < 64 implies spec_piece_id(friendly1, b) != 7 by {
        if b == final_bit {
            assert(spec_piece_id(friendly1, b) == piece_id);
            assert(piece_id == spec_piece_id(friendly0, initial_bit));
        } else if b == initial_bit {
            assert(spec_piece_id(friendly1, b) == spec_piece_id(removed, b));
        } else {
            assert(spec_piece_id(friendly1, b) == spec_piece_id(friendly0, b));
        }
    }
    assert forall|b: u8| b < 64 implies spec_piece_id(enemy1, b) != 7 by {
        if b == final_bit {
            assert(spec_piece_id(enemy1, b) == 0);
        } else {
            assert(spec_piece_id(enemy1, b) == spec_piece_id(after_ep, b));
            if let Some(c) = ep_capture_bit {
                if b == c {
                    assert(spec_piece_id(after_ep, b) == 0);
                } else {
                    assert(spec_piece_id(after_ep, b) == spec_piece_id(enemy0, b));
                }
            }
        }
    }
    assert forall|b: u8| b < 64 implies spec_piece_id(friendly1, b) == 0 || spec_piece_id(
        enemy1,
        b,
    ) == 0 by {
        if b == final_bit {
            assert(spec_piece_id(enemy1, b) == 0);
        } else {
            assert(spec_piece_id(enemy1, b) == spec_piece_id(after_ep, b));
            if b == initial_bit {
                assert(spec_piece_id(friendly1, b) == 0);
            } else {
                assert(spec_piece_id(friendly1, b) == spec_piece_id(friendly0, b));
                if let Some(c) = ep_capture_bit {
                    if b == c {
                        assert(spec_piece_id(after_ep, b) == 0);
                    } else {
                        assert(spec_piece_id(after_ep, b) == spec_piece_id(enemy0, b));
                    }
                } else {
                    assert(spec_piece_id(after_ep, b) == spec_piece_id(enemy0, b));
                }
                assert(spec_piece_id(friendly0, b) == 0 || spec_piece_id(enemy0, b) == 0);
            }
        }
    }
}

/// After a turn each side's material total still equals the sum of its
/// piece values, and it has not grown.
proof fn lemma_turn_material(
    board: Board,
    piece_id: usize,
    initial_bit: u8,
    final_bit: u8,
    ep_capture_bit: Option<u8>,
)
    requires
        board.wf(),
        initial_bit < 64,
        final_bit < 64,
        piece_id == spec_piece_id(spec_friendly_half(board), initial_bit),
        final_bit == initial_bit || spec_piece_id(spec_friendly_half(board), final_bit) == 0,
        ep_capture_bit matches Some(c) ==> c < 64 && spec_piece_id(
            spec_enemy_half(board),
            final_bit,
        ) == 0,
    ensures
        ({
            let friendly1 = spec_turn_friendly(
                spec_friendly_half(board),
                piece_id,
                initial_bit,
                final_bit,
            );
            let enemy1 = spec_turn_enemy(spec_enemy_half(board), final_bit, ep_capture_bit);
            let capture_piece_id = spec_capture_piece_id(
                spec_enemy_half(board),
                final_bit,
                ep_capture_bit,
            );
            let capture_piece_value = if capture_piece_id == 0 {
                0int
            } else {
                spec_piece_value(capture_piece_id) as int
            };
            &&& spec_material(friendly1) == spec_material(spec_friendly_half(board))
            &&& spec_material(enemy1) == spec_material(spec_enemy_half(board))
                - capture_piece_value
        }),
{
    let friendly0 = spec_friendly_half(board);
    let enemy0 = spec_enemy_half(board);
    let removed = spec_remove_piece(friendly0, initial_bit);
    let friendly1 = spec_turn_friendly(friendly0, piece_id, initial_bit, final_bit);
    let after_ep = match ep_capture_bit {
        Some(c) => spec_remove_piece(enemy0, c),
        None => enemy0,
    };
    let enemy1 = spec_turn_enemy(enemy0, final_bit, ep_capture_bit);

    board_representation::lemma_spec_remove_piece_ids(friendly0, initial_bit);
    board_representation::lemma_material_change(friendly0, removed, initial_bit, 64);
    assert(spec_piece_id(removed, final_bit) == 0);
    board_representation::lemma_spec_insert_piece_ids(removed, final_bit, piece_id);
    board_representation::lemma_material_change(removed, friendly1, final_bit, 64);

    if let Some(c) = ep_capture_bit {
        board_representation::lemma_spec_remove_piece_ids(enemy0, c);
        board_representation::lemma_material_change(enemy0, after_ep, c, 64);
        assert(spec_piece_id(after_ep, final_bit) == 0);
        board_representation::lemma_spec_remove_piece_ids(after_ep, final_bit);
        board_representation::lemma_material_change(after_ep, enemy1, final_bit, 64);
    } else {
        board_representation::lemma_spec_remove_piece_ids(enemy0, final_bit);
        board_representation::lemma_material_change(enemy0, enemy1, final_bit, 64);
    }
}

/// One side's cached king square is truthful: a king stands on it, and on
/// no other square of that side.
pub open spec fn spec_king_cache_ok(half: Seq<u64>, king_bit: u8) -> bool {
    &&& spec_piece_id(half, king_bit) == pieces::KING_ID
    &&& forall|b: u8| b < 64 && spec_piece_id(half, b) == pieces::KING_ID ==> b == king_bit
}

/// A successful turn keeps both cached king squares truthful: the mover's
/// cache follows its king, and the opponent keeps its king as long as the
/// move did not capture it.
pub proof fn lemma_turn_preserves_king_cache(
    board: Board,
    piece_id: usize,
    initial_bit: u8,
    final_bit: u8,
    only_use_captures: bool,
    ep_bits_for_turn: (Option<u8>, Option<u8>),
    checkers: Seq<u8>,
)
    requires
        board.wf(),
        initial_bit < 64,
        final_bit < 64,
        piece_id == spec_piece_id(spec_friendly_half(board), initial_bit),
        piece_id != 0,
        final_bit == initial_bit || spec_piece_id(spec_friendly_half(board), final_bit) == 0,
        ep_bits_for_turn.1 matches Some(c) ==> c < 64 && spec_piece_id(
            spec_enemy_half(board),
            final_bit,
        ) == 0,
        spec_king_cache_ok(
            spec_friendly_half(board),
            if board.piece_to_move is White {
                board.white_king_bit
            } else {
                board.black_king_bit
            },
        ),
        spec_king_cache_ok(
            spec_enemy_half(board),
            if board.piece_to_move is White {
                board.black_king_bit
            } else {
                board.white_king_bit
            },
        ),
        spec_capture_piece_id(spec_enemy_half(board), final_bit, ep_bits_for_turn.1)
            != pieces::KING_ID,
        spec_take_turn(
            board,
            piece_id,
            initial_bit,
            final_bit,
            only_use_captures,
            ep_bits_for_turn,
            checkers,
        ) matches Ok(p),
    ensures
        ({
            let new_board = spec_take_turn(
                board,
                piece_id,
                initial_bit,
                final_bit,
                only_use_captures,
                ep_bits_for_turn,
                checkers,
            )->Ok_0.0;
            &&& spec_king_cache_ok(new_board.white_board@, new_board.white_king_bit)
            &&& spec_king_cache_ok(new_board.black_board@, new_board.black_king_bit)
        }),
{
    let friendly0 = spec_friendly_half(board);
    let enemy0 = spec_enemy_half(board);
    let removed = spec_remove_piece(friendly0, initial_bit);
    let friendly1 = spec_turn_friendly(friendly0, piece_id, initial_bit, final_bit);
    let after_ep = match ep_bits_for_turn.1 {
        Some(c) => spec_remove_piece(enemy0, c),
        None => enemy0,
    };
    let enemy1 = spec_turn_enemy(enemy0, final_bit, ep_bits_for_turn.1);
    let friendly_king = if board.piece_to_move is White {
        board.white_king_bit
    } else {
        board.black_king_bit
    };
    let enemy_king = if board.piece_to_move is White {
        board.black_king_bit
    } else {
        board.white_king_bit
    };
    let mid = spec_mid_board(board, piece_id, initial_bit, final_bit, ep_bits_for_turn.1);
    lemma_half_with_view(board.white_board, if board.piece_to_move is White { friendly1 } else { enemy1 });
    lemma_half_with_view(board.black_board, if board.piece_to_move is White { enemy1 } else { friendly1 });
    board_representation::lemma_spec_remove_piece_ids(friendly0, initial_bit);
    board_representation::lemma_spec_insert_piece_ids(removed, final_bit, piece_id);
    if let Some(c) = ep_bits_for_turn.1 {
        board_representation::lemma_spec_remove_piece_ids(enemy0, c);
    }
    board_representation::lemma_spec_remove_piece_ids(after_ep, final_bit);

    // The mover's cache: a king move lands the king on the cached square;
    // any other move leaves the king where the cache says.
    if piece_id == pieces::KING_ID {
        assert(initial_bit == friendly_king);
        assert(spec_piece_id(friendly1, final_bit) == pieces::KING_ID);
        assert forall|b: u8|
            b < 64 && spec_piece_id(friendly1, b) == pieces::KING_ID implies b == final_bit by {
            if b != final_bit && b != initial_bit {
                assert(spec_piece_id(friendly1, b) == spec_piece_id(friendly0, b));
            }
        }
    } else {
        assert(initial_bit != friendly_king);
        assert(final_bit != friendly_king) by {
            if final_bit != initial_bit {
                assert(spec_piece_id(friendly0, friendly_king) == pieces::KING_ID);
            }
        }
        assert(spec_piece_id(friendly1, friendly_king) == pieces::KING_ID);
        assert forall|b: u8|
            b < 64 && spec_piece_id(friendly1, b) == pieces::KING_ID implies b
            == friendly_king by {
            if b != final_bit && b != initial_bit {
                assert(spec_piece_id(friendly1, b) == spec_piece_id(friendly0, b));
            }
        }
    }

    // The opponent's cache: its king was not the captured piece, so it is
    // still on its square, and no removal created a new king.
    assert(spec_piece_id(enemy1, enemy_king) == pieces::KING_ID) by {
        if let Some(c) = ep_bits_for_turn.1 {
            assert(c != enemy_king);
            assert(final_bit != enemy_king);
        } else {
            assert(final_bit != enemy_king);
        }
    }
    assert forall|b: u8|
        b < 64 && spec_piece_id(enemy1, b) == pieces::KING_ID implies b == enemy_king by {
        assert(spec_piece_id(enemy1, b) == spec_piece_id(after_ep, b) || spec_piece_id(
            enemy1,
            b,
        ) == 0);
        if let Some(c) = ep_bits_for_turn.1 {
            if b != c {
                assert(spec_piece_id(after_ep, b) == spec_piece_id(enemy0, b));
            }
        }
    }
}

/// A turn never grows a side's piece count: the mover's count is unchanged
/// and the opponent's can only shrink.
proof fn lemma_turn_piece_count(
    board: Board,
    piece_id: usize,
    initial_bit: u8,
    final_bit: u8,
    ep_capture_bit: Option<u8>,
)
    requires
        board.wf(),
        initial_bit < 64,
        final_bit < 64,
        piece_id == spec_piece_id(spec_friendly_half(board), initial_bit),
        final_bit == initial_bit || spec_piece_id(spec_friendly_half(board), final_bit) == 0,
        ep_capture_bit matches Some(c) ==> c < 64 && spec_piece_id(
            spec_enemy_half(board),
            final_bit,
        ) == 0,
    ensures
        ({
            let friendly1 = spec_turn_friendly(
                spec_friendly_half(board),
                piece_id,
                initial_bit,
                final_bit,
            );
            let enemy1 = spec_turn_enemy(spec_enemy_half(board), final_bit, ep_capture_bit);
            &&& board_representation::spec_piece_count(friendly1)
                == board_representation::spec_piece_count(spec_friendly_half(board))
            &&& board_representation::spec_piece_count(enemy1)
                <= board_representation::spec_piece_count(spec_enemy_half(board))
        }),
{
    let friendly0 = spec_friendly_half(board);
    let enemy0 = spec_enemy_half(board);
    let removed = spec_remove_piece(friendly0, initial_bit);
    let friendly1 = spec_turn_friendly(friendly0, piece_id, initial_bit, final_bit);
    let after_ep = match ep_capture_bit {
        Some(c) => spec_remove_piece(enemy0, c),
        None => enemy0,
    };
    let enemy1 = spec_turn_enemy(enemy0, final_bit, ep_capture_bit);

    board_representation::lemma_spec_remove_piece_ids(friendly0, initial_bit);
    board_representation::lemma_piece_count_change(friendly0, removed, initial_bit, 64);
    assert(spec_piece_id(removed, final_bit) == 0);
    board_representation::lemma_spec_insert_piece_ids(removed, final_bit, piece_id);
    board_representation::lemma_piece_count_change(removed, friendly1, final_bit, 64);

    if let Some(c) = ep_capture_bit {
        board_representation::lemma_spec_remove_piece_ids(enemy0, c);
        board_representation::lemma_piece_count_change(enemy0, after_ep, c, 64);
        assert(spec_piece_id(after_ep, final_bit) == 0);
        board_representation::lemma_spec_remove_piece_ids(after_ep, final_bit);
        board_representation::lemma_piece_count_change(after_ep, enemy1, final_bit, 64);
    } else {
        board_representation::lemma_spec_remove_piece_ids(enemy0, final_bit);
        board_representation::lemma_piece_count_change(enemy0, enemy1, final_bit, 64);
    }
}

/// Converts the move generator's en-passant outputs into the pair the turn
/// function takes: the target square only when the move being made is the
/// double step itself, and the capture square only when the move being
/// made is the en-passant capture.
pub open spec fn spec_get_ep_bits_for_turn(
    en_passant_target_bit: Option<u8>,
    en_passant_cap_bits: Option<(u8, u8)>,
    move_bit: u8,
) -> (Option<u8>, Option<u8>) {
    (
        match en_passant_target_bit {
            Some(t) => if move_bit == t {
                Some(t)
            } else {
                None
            },
            None => None,
        },
        match en_passant_cap_bits {
            Some(p) => if move_bit == p.1 {
                Some(p.0)
            } else {
                None
            },
            None => None,
        },
    )
}

/// Selects which of the generator's en-passant squares apply to the move
/// that lands on `move_bit`.
pub fn get_ep_bits_for_turn(
    en_passant_target_bit: Option<u8>,
    en_passant_cap_bits: Option<(u8, u8)>,
    move_bit: u8,
) -> (r: (Option<u8>, Option<u8>))
    ensures
        r == spec_get_ep_bits_for_turn(en_passant_target_bit, en_passant_cap_bits, move_bit),
{
    // The target square is kept only when the piece is performing the
    // double move as its turn.
    let en_passant_target_bit = if let Some(target_bit) = en_passant_target_bit {
        if move_bit == target_bit {
            Some(target_bit)
        } else {
            None
        }
    } else {
        None
    };

    // The capture square is kept only when an en-passant capture is being
    // made as the turn.
    let en_passant_capture_bit = if let Some(cap_bits) = en_passant_cap_bits {
        if move_bit == cap_bits.1 {
            Some(cap_bits.0)
        } else {
            None
        }
    } else {
        None
    };

    (en_passant_target_bit, en_passant_capture_bit)
}

} // verus!
