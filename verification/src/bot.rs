//! The search core: iterative deepening over an alpha-beta minimax with
//! principal-variation ordering, capture-first move ordering and a bounded
//! quiescence extension over captures only. Every move the search commits
//! was generated pseudo-legally and survived the king-safety filter.

use std::time::{Duration, Instant};

use vstd::prelude::*;

use crate::bitboard_manipulation;
use crate::bitboard_manipulation::{nth_bit, on_bits};
use crate::board_representation;
use crate::board_representation::{Board, PerspectiveBoards, PieceColor, spec_piece_id};
use crate::bot_eval::eval;
use crate::check_validation;
use crate::check_validation::MAX_CHECKING_PIECES;
use crate::clock::{duration_longer, elapsed_since, monotonic_now};
use crate::fixed_vector::FixedVector;
use crate::move_generation;
use crate::turn;
use crate::turn::{
    TurnError, spec_friendly_half, spec_get_ep_bits_for_turn, spec_take_turn,
    spec_recomputed_checkers,
};

verus! {

/// Move score for non-captures, so captures are searched first.
pub const NON_CAPTURE_WEIGHT: i8 = -10;

/// Terminal score of a checkmate on the evaluation's integer scale: five
/// times the scale's unit window, well beyond any leaf value.
pub const CHECKMATE_WEIGHT_SCALED: i64 = 4680000;

/// Every committed search value stays within this bound, far inside the
/// i64 range, so the uncommitted extreme sentinels are recognizable.
pub const SEARCH_VALUE_BOUND: i64 = 100000000000;

pub const QUIESCENCE_SEARCH_MAX_DEPTH: u8 = 3;

const FIXED_VECTOR_PLACEHOLDER_VALUE: u8 = 255;

/// Capacity of one piece's destination list: a move bitboard has at most
/// one destination per square, so nothing can ever be dropped from it.
pub const MAX_MOVE_BITBOARD_BITS_ON: usize = 64;

/// Maximum number of candidate moves collected for one side in a turn.
pub const MAX_TEAM_MOVES: usize = 96;

/// How a search call ended: normally, cut off by the deadline, or aborted
/// because a capacity cap would have been exceeded. A deadline cut is the
/// normal end of iterative deepening; a capacity abort is surfaced as the
/// search's failure, never silently degraded.
#[derive(PartialEq, Eq, Structural, Clone, Copy, Debug)]
pub enum SearchStatus {
    Completed,
    DeadlineHit,
    CapacityExceeded,
}

/// One candidate move: its squares, its ordering score, and the en-passant
/// data the turn function needs for it.
#[derive(Clone, Copy, PartialEq, Debug)]
pub struct MoveInformation {
    pub initial_bit: u8,
    pub final_bit: u8,
    pub move_score: i8,
    pub ep_bits: (Option<u8>, Option<u8>),
}

/// The placeholder value move slots start from.
pub open spec fn spec_unset_move(m: MoveInformation) -> bool {
    m.initial_bit == 0 && m.final_bit == 0 && m.move_score == i8::MIN && m.ep_bits == (
    Option::<u8>::None,
    Option::<u8>::None,
    )
}

impl MoveInformation {
    /// The placeholder move: unset squares and the lowest possible score.
    pub fn new() -> (r: Self)
        ensures
            spec_unset_move(r),
    {
        MoveInformation { initial_bit: 0, final_bit: 0, move_score: i8::MIN, ep_bits: (None, None) }
    }
}

/// A candidate the move generator stands behind: its piece exists, its
/// destination is a set bit of that piece's move bitboard, and its
/// en-passant data is exactly what the generator reported for that
/// destination.
pub open spec fn spec_valid_candidate(board: Board, m: MoveInformation) -> bool {
    let friendly = spec_friendly_half(board);
    let generated = move_generation::spec_generate_moves(
        board,
        m.initial_bit,
        spec_piece_id(friendly, m.initial_bit),
        board.piece_to_move,
    );
    &&& m.initial_bit < 64
    &&& m.final_bit < 64
    &&& spec_piece_id(friendly, m.initial_bit) != 0
    &&& nth_bit(generated.0, m.final_bit as u64)
    &&& m.ep_bits == spec_get_ep_bits_for_turn(generated.1, generated.2, m.final_bit)
}

/// A candidate that is also legal: applying it as a turn succeeds, king
/// safety included.
pub open spec fn spec_legal_candidate(board: Board, m: MoveInformation) -> bool {
    &&& spec_valid_candidate(board, m)
    &&& spec_take_turn(
        board,
        spec_piece_id(spec_friendly_half(board), m.initial_bit) as usize,
        m.initial_bit,
        m.final_bit,
        false,
        m.ep_bits,
        spec_recomputed_checkers(board, board.piece_to_move),
    ) is Ok
}

/// Whether a destination survives the principal-variation skip: the pair
/// equal to the principal-variation move is left out of the enumeration.
pub open spec fn spec_kept(pv_move: Option<MoveInformation>, sq: u8, dest: u8) -> bool {
    match pv_move {
        Some(pv) => !(pv.initial_bit == sq && pv.final_bit == dest),
        None => true,
    }
}

/// How many of the first `n` destinations survive the skip.
pub open spec fn spec_kept_count(
    entries: Seq<u8>,
    pv_move: Option<MoveInformation>,
    sq: u8,
    n: int,
) -> int
    decreases n,
{
    if n <= 0 {
        0
    } else {
        spec_kept_count(entries, pv_move, sq, n - 1) + (if spec_kept(
            pv_move,
            sq,
            entries[n - 1],
        ) {
            1int
        } else {
            0int
        })
    }
}

/// The destination squares the generator reports for the piece on `sq`.
pub open spec fn spec_square_move_bits(board: Board, sq: u8) -> Seq<u8> {
    on_bits(
        move_generation::spec_generate_moves(
            board,
            sq,
            spec_piece_id(spec_friendly_half(board), sq),
            board.piece_to_move,
        ).0,
    )
}

/// How many candidates the piece on `sq` contributes: its destinations up
/// to the per-piece capacity, less any skipped principal-variation pair.
pub open spec fn spec_square_candidate_count(
    board: Board,
    pv_move: Option<MoveInformation>,
    sq: u8,
) -> int {
    if spec_piece_id(spec_friendly_half(board), sq) == 0 {
        0
    } else {
        let bits = spec_square_move_bits(board, sq);
        spec_kept_count(bits, pv_move, sq, bits.len() as int)
    }
}

/// The candidates contributed by the first `n` squares.
pub open spec fn spec_candidate_count_prefix(
    board: Board,
    pv_move: Option<MoveInformation>,
    n: int,
) -> int
    decreases n,
{
    if n <= 0 {
        0
    } else {
        spec_candidate_count_prefix(board, pv_move, n - 1) + spec_square_candidate_count(
            board,
            pv_move,
            (n - 1) as u8,
        )
    }
}

/// Exactly how many moves the ordering collects: every square's surviving
/// destinations, plus the re-added principal-variation move.
pub open spec fn spec_candidate_count(board: Board, pv_move: Option<MoveInformation>) -> int {
    spec_candidate_count_prefix(board, pv_move, 64) + (if pv_move is Some {
        1int
    } else {
        0int
    })
}

proof fn lemma_kept_count_bounds(
    entries: Seq<u8>,
    pv_move: Option<MoveInformation>,
    sq: u8,
    a: int,
    b: int,
)
    requires
        a <= b,
    ensures
        spec_kept_count(entries, pv_move, sq, a) <= spec_kept_count(entries, pv_move, sq, b),
        0 <= spec_kept_count(entries, pv_move, sq, b),
    decreases b,
{
    if a < b || b > 0 {
        if b > 0 {
            lemma_kept_count_bounds(entries, pv_move, sq, if a < b {
                a
            } else {
                b - 1
            }, b - 1);
        }
    }
}

proof fn lemma_kept_count_none(entries: Seq<u8>, sq: u8, n: int)
    ensures
        spec_kept_count(entries, Option::<MoveInformation>::None, sq, n) == (if n <= 0 {
            0int
        } else {
            n
        }),
    decreases n,
{
    if n > 0 {
        lemma_kept_count_none(entries, sq, n - 1);
    }
}

proof fn lemma_candidate_prefix_bounds(
    board: Board,
    pv_move: Option<MoveInformation>,
    a: int,
    b: int,
)
    requires
        a <= b,
    ensures
        spec_candidate_count_prefix(board, pv_move, a) <= spec_candidate_count_prefix(
            board,
            pv_move,
            b,
        ),
        0 <= spec_candidate_count_prefix(board, pv_move, b),
    decreases b,
{
    if b > 0 {
        let bits = spec_square_move_bits(board, (b - 1) as u8);
        lemma_kept_count_bounds(bits, pv_move, (b - 1) as u8, 0, bits.len() as int);
        lemma_candidate_prefix_bounds(board, pv_move, if a < b {
            a
        } else {
            b - 1
        }, b - 1);
    }
}

/// The ordering score of a move: captured value minus mover value for a
/// capture of positive value, the quiet-move weight otherwise (a move onto
/// an empty square, or onto the valueless enemy king).
pub open spec fn spec_move_score(board: Board, from_bit: u8, to_bit: u8) -> i8 {
    let enemy_value = crate::pieces::spec_piece_value(
        spec_piece_id(crate::turn::spec_enemy_half(board), to_bit),
    );
    if enemy_value == 0 {
        NON_CAPTURE_WEIGHT
    } else {
        (enemy_value - crate::pieces::spec_piece_value(
            spec_piece_id(spec_friendly_half(board), from_bit),
        )) as i8
    }
}

/// Whether some entry of the first `length` collected moves carries the
/// given source and destination squares.
pub open spec fn spec_pair_listed(
    entries: Seq<MoveInformation>,
    length: int,
    from_bit: u8,
    to_bit: u8,
) -> bool {
    exists|k: int|
        0 <= k < length && (#[trigger] entries[k]).initial_bit == from_bit && entries[k].final_bit
            == to_bit
}

/// A listed pair stays listed when the collection only grows and keeps its
/// old entries.
proof fn lemma_pair_listed_extend(
    entries1: Seq<MoveInformation>,
    entries2: Seq<MoveInformation>,
    len1: int,
    len2: int,
    from_bit: u8,
    to_bit: u8,
)
    requires
        spec_pair_listed(entries1, len1, from_bit, to_bit),
        len1 <= len2,
        forall|k: int| 0 <= k < len1 ==> entries2[k] == entries1[k],
    ensures
        spec_pair_listed(entries2, len2, from_bit, to_bit),
{
    let k = choose|k: int|
        0 <= k < len1 && (#[trigger] entries1[k]).initial_bit == from_bit
            && entries1[k].final_bit == to_bit;
    assert((entries2[k]).initial_bit == from_bit && entries2[k].final_bit == to_bit);
}

/// A listed pair stays listed when two entries swap places.
proof fn lemma_pair_listed_swap(
    entries1: Seq<MoveInformation>,
    entries2: Seq<MoveInformation>,
    length: int,
    a: int,
    b: int,
    from_bit: u8,
    to_bit: u8,
)
    requires
        0 <= a < length,
        0 <= b < length,
        entries2[a] == entries1[b],
        entries2[b] == entries1[a],
        forall|k: int| 0 <= k < length && k != a && k != b ==> entries2[k] == entries1[k],
        spec_pair_listed(entries1, length, from_bit, to_bit),
    ensures
        spec_pair_listed(entries2, length, from_bit, to_bit),
{
    let k = choose|k: int|
        0 <= k < length && (#[trigger] entries1[k]).initial_bit == from_bit
            && entries1[k].final_bit == to_bit;
    if k == a {
        assert((entries2[b]).initial_bit == from_bit && entries2[b].final_bit == to_bit);
    } else if k == b {
        assert((entries2[a]).initial_bit == from_bit && entries2[a].final_bit == to_bit);
    } else {
        assert((entries2[k]).initial_bit == from_bit && entries2[k].final_bit == to_bit);
    }
}

/// Returns true when the running minimum or maximum should be replaced by
/// the branch value.
fn update_min_or_max(min_or_max: i64, branch_value: i64, is_returning_max: bool) -> (r: bool)
    ensures
        r == (if is_returning_max {
            branch_value > min_or_max
        } else {
            branch_value < min_or_max
        }),
{
    if is_returning_max {
        if branch_value > min_or_max {
            return true;
        }
    } else {
        if branch_value < min_or_max {
            return true;
        }
    }

    false
}

/// Returns true when the current branch can be pruned: its value already
/// reaches or crosses the parent's bound.
fn prune(parent_min_max: i64, min_or_max: i64, is_returning_max: bool) -> (r: bool)
    ensures
        r == (if is_returning_max {
            min_or_max >= parent_min_max
        } else {
            min_or_max <= parent_min_max
        }),
{
    if is_returning_max {
        min_or_max >= parent_min_max
    } else {
        min_or_max <= parent_min_max
    }
}

/// Collects every pseudo-legal move of the side to move, scored for
/// ordering: captures by captured value minus mover value, quiet moves at
/// the non-capture weight, and the principal-variation move forced first.
/// The result is sorted by score, descending; `None` is returned in the
/// (theoretical) case of more candidates than the capacity allows.
pub fn order_moves(
    board: &Board,
    pv_move: Option<MoveInformation>,
    perspective_boards: &PerspectiveBoards,
) -> (r: Option<FixedVector<MoveInformation, MAX_TEAM_MOVES>>)
    requires
        board.wf(),
        perspective_boards.wf_for(*board, board.piece_to_move),
        pv_move matches Some(pv) ==> spec_valid_candidate(*board, pv),
    ensures
        r matches Some(moves) ==> {
            &&& moves.length == spec_candidate_count(*board, pv_move)
            &&& moves.length <= MAX_TEAM_MOVES
            &&& moves.internal_array@.len() == MAX_TEAM_MOVES
            &&& (forall|i: int|
                0 <= i < moves.length ==> spec_valid_candidate(
                    *board,
                    #[trigger] moves.internal_array@[i],
                ))
            &&& (forall|m: MoveInformation|
                #[trigger] spec_valid_candidate(*board, m) ==> spec_pair_listed(
                    moves.internal_array@,
                    moves.length as int,
                    m.initial_bit,
                    m.final_bit,
                ))
            &&& (forall|i: int|
                0 <= i < moves.length ==> (#[trigger] moves.internal_array@[i]).move_score
                    > i8::MIN)
            &&& (forall|k: int|
                0 <= k < moves.length ==> {
                    let e = #[trigger] moves.internal_array@[k];
                    (spec_kept(pv_move, e.initial_bit, e.final_bit) && e.move_score
                        == spec_move_score(*board, e.initial_bit, e.final_bit)) || (!spec_kept(
                        pv_move,
                        e.initial_bit,
                        e.final_bit,
                    ) && e.move_score == i8::MAX)
                })
            &&& (pv_move matches Some(pv) ==> moves.length >= 1
                && moves.internal_array@[0].initial_bit == pv.initial_bit
                && moves.internal_array@[0].final_bit == pv.final_bit
                && moves.internal_array@[0].move_score == i8::MAX && (forall|k: int|
                1 <= k < moves.length ==> spec_kept(
                    pv_move,
                    (#[trigger] moves.internal_array@[k]).initial_bit,
                    moves.internal_array@[k].final_bit,
                )))
            &&& (forall|i: int, j: int|
                0 <= i <= j < moves.length ==> (#[trigger] moves.internal_array@[i]).move_score
                    >= (#[trigger] moves.internal_array@[j]).move_score)
        },
        r is None ==> spec_candidate_count(*board, pv_move) > MAX_TEAM_MOVES,
{
    let ghost gboard = *board;
    let mut moves_fixed_vector: FixedVector<MoveInformation, MAX_TEAM_MOVES> = FixedVector::new(
        MoveInformation::new(),
    );

    let mut initial_bit: u8 = 0;
    while initial_bit < 64
        invariant
            initial_bit <= 64,
            gboard == *board,
            board.wf(),
            perspective_boards.wf_for(*board, board.piece_to_move),
            pv_move matches Some(pv) ==> spec_valid_candidate(*board, pv),
            moves_fixed_vector.length <= MAX_TEAM_MOVES,
            moves_fixed_vector.internal_array@.len() == MAX_TEAM_MOVES,
            forall|i: int|
                0 <= i < moves_fixed_vector.length ==> spec_valid_candidate(
                    *board,
                    #[trigger] moves_fixed_vector.internal_array@[i],
                ),
            forall|i: int|
                0 <= i < moves_fixed_vector.length ==> spec_kept(
                    pv_move,
                    (#[trigger] moves_fixed_vector.internal_array@[i]).initial_bit,
                    moves_fixed_vector.internal_array@[i].final_bit,
                ),
            forall|i: int|
                0 <= i < moves_fixed_vector.length
                    ==> (#[trigger] moves_fixed_vector.internal_array@[i]).move_score
                    == spec_move_score(
                    *board,
                    moves_fixed_vector.internal_array@[i].initial_bit,
                    moves_fixed_vector.internal_array@[i].final_bit,
                ),
            moves_fixed_vector.length == spec_candidate_count_prefix(
                *board,
                pv_move,
                initial_bit as int,
            ),
            forall|m: MoveInformation|
                #[trigger] spec_valid_candidate(*board, m) && m.initial_bit < initial_bit
                    && spec_kept(pv_move, m.initial_bit, m.final_bit) ==> spec_pair_listed(
                    moves_fixed_vector.internal_array@,
                    moves_fixed_vector.length as int,
                    m.initial_bit,
                    m.final_bit,
                ),
        decreases 64 - initial_bit,
    {
        let piece_id = board_representation::read_piece_id(
            &perspective_boards.friendly_board,
            initial_bit,
        );
        proof {
            assert(spec_piece_id(spec_friendly_half(*board), initial_bit) != 7);
            assert(crate::pieces::piece_information_wf(
                board.piece_to_move is White,
                piece_id as int,
                perspective_boards.friendly_piece_information@[piece_id as int],
            ));
        }
        let piece_value = perspective_boards.friendly_piece_information[piece_id].piece_value;

        if piece_id == 0 {
            initial_bit += 1;
            continue ;
        }

        // Generate this piece's move bitboard and walk its set bits.
        let generated = move_generation::generate_moves(
            board,
            initial_bit,
            piece_id,
            board.piece_to_move,
            perspective_boards,
        );
        let move_bitboard = generated.0;
        let en_passant_target_bit = generated.1;
        let en_passant_cap_bits = generated.2;

        let final_bits_vec: FixedVector<u8, MAX_MOVE_BITBOARD_BITS_ON> =
            bitboard_manipulation::bits_on(move_bitboard, FIXED_VECTOR_PLACEHOLDER_VALUE);

        proof {
            bitboard_manipulation::lemma_on_bits_elements(move_bitboard, 0);
            bitboard_manipulation::lemma_on_bits_set(move_bitboard, 0);
            bitboard_manipulation::lemma_on_bits_len_bound(move_bitboard, 0);
            assert forall|i: int| 0 <= i < final_bits_vec.length implies (
            #[trigger] final_bits_vec.internal_array@[i]) < 64 && nth_bit(
                move_bitboard,
                final_bits_vec.internal_array@[i] as u64,
            ) by {
                assert(final_bits_vec.internal_array@[i] == on_bits(move_bitboard)[i]);
                assert(on_bits(move_bitboard)[i] == bitboard_manipulation::on_bits_from(
                    move_bitboard,
                    0,
                )[i]);
            }
        }

        let mut i: usize = 0;
        while i < final_bits_vec.len()
            invariant
                gboard == *board,
                board.wf(),
                perspective_boards.wf_for(*board, board.piece_to_move),
                pv_move matches Some(pv) ==> spec_valid_candidate(*board, pv),
                initial_bit < 64,
                piece_id == spec_piece_id(spec_friendly_half(*board), initial_bit),
                0 < piece_id < 7,
                piece_value == crate::pieces::spec_piece_value(piece_id as int),
                final_bits_vec.length <= MAX_MOVE_BITBOARD_BITS_ON,
                final_bits_vec.internal_array@.len() == MAX_MOVE_BITBOARD_BITS_ON,
                i <= final_bits_vec.length,
                forall|k: int|
                    0 <= k < final_bits_vec.length ==> (
                    #[trigger] final_bits_vec.internal_array@[k]) < 64 && nth_bit(
                        move_bitboard,
                        final_bits_vec.internal_array@[k] as u64,
                    ),
                (move_bitboard, en_passant_target_bit, en_passant_cap_bits)
                    == move_generation::spec_generate_moves(
                    *board,
                    initial_bit,
                    piece_id as int,
                    board.piece_to_move,
                ),
                moves_fixed_vector.length <= MAX_TEAM_MOVES,
                moves_fixed_vector.internal_array@.len() == MAX_TEAM_MOVES,
                forall|k: int|
                    0 <= k < moves_fixed_vector.length ==> spec_valid_candidate(
                        *board,
                        #[trigger] moves_fixed_vector.internal_array@[k],
                    ),
                forall|k: int|
                    0 <= k < moves_fixed_vector.length ==> spec_kept(
                        pv_move,
                        (#[trigger] moves_fixed_vector.internal_array@[k]).initial_bit,
                        moves_fixed_vector.internal_array@[k].final_bit,
                    ),
                forall|k: int|
                    0 <= k < moves_fixed_vector.length
                        ==> (#[trigger] moves_fixed_vector.internal_array@[k]).move_score
                        == spec_move_score(
                        *board,
                        moves_fixed_vector.internal_array@[k].initial_bit,
                        moves_fixed_vector.internal_array@[k].final_bit,
                    ),
                final_bits_vec.length == spec_square_move_bits(*board, initial_bit).len(),
                forall|k: int|
                    0 <= k < final_bits_vec.length ==> #[trigger] final_bits_vec.internal_array@[k]
                        == spec_square_move_bits(*board, initial_bit)[k],
                moves_fixed_vector.length == spec_candidate_count_prefix(
                    *board,
                    pv_move,
                    initial_bit as int,
                ) + spec_kept_count(
                    spec_square_move_bits(*board, initial_bit),
                    pv_move,
                    initial_bit,
                    i as int,
                ),
                forall|m: MoveInformation|
                    #[trigger] spec_valid_candidate(*board, m) && m.initial_bit < initial_bit
                        && spec_kept(pv_move, m.initial_bit, m.final_bit) ==> spec_pair_listed(
                        moves_fixed_vector.internal_array@,
                        moves_fixed_vector.length as int,
                        m.initial_bit,
                        m.final_bit,
                    ),
                forall|j: int|
                    0 <= j < i && spec_kept(
                        pv_move,
                        initial_bit,
                        #[trigger] final_bits_vec.internal_array@[j],
                    ) ==> spec_pair_listed(
                        moves_fixed_vector.internal_array@,
                        moves_fixed_vector.length as int,
                        initial_bit,
                        final_bits_vec.internal_array@[j],
                    ),
            decreases final_bits_vec.length - i,
        {
            let final_bit = final_bits_vec.internal_array[i];

            // Skip the principal-variation move here, so it is not added
            // twice; it is pushed with the top score below.
            let skip = if let Some(pv) = pv_move {
                initial_bit == pv.initial_bit && final_bit == pv.final_bit
            } else {
                false
            };

            if !skip {
                // Score the destination: captured value minus mover value,
                // or the quiet-move weight.
                let enemy_piece_id = board_representation::read_piece_id(
                    &perspective_boards.enemy_board,
                    final_bit,
                );
                proof {
                    assert(spec_piece_id(crate::turn::spec_enemy_half(*board), final_bit) != 7);
                    assert(crate::pieces::piece_information_wf(
                        board.piece_to_move is White,
                        enemy_piece_id as int,
                        perspective_boards.friendly_piece_information@[enemy_piece_id as int],
                    ));
                }
                let enemy_piece_value = if enemy_piece_id == 0 {
                    0
                } else {
                    perspective_boards.friendly_piece_information[enemy_piece_id].piece_value
                };

                let move_score = if enemy_piece_value == 0 {
                    NON_CAPTURE_WEIGHT
                } else {
                    enemy_piece_value - piece_value
                };

                let ep_bits = turn::get_ep_bits_for_turn(
                    en_passant_target_bit,
                    en_passant_cap_bits,
                    final_bit,
                );
                let move_information = MoveInformation {
                    initial_bit,
                    final_bit,
                    move_score,
                    ep_bits,
                };

                if moves_fixed_vector.len() >= MAX_TEAM_MOVES {
                    // The capacity cap would be exceeded: give the caller
                    // nothing rather than a truncated move list.
                    proof {
                        let bits = spec_square_move_bits(*board, initial_bit);
                        lemma_kept_count_bounds(
                            bits,
                            pv_move,
                            initial_bit,
                            i + 1,
                            final_bits_vec.length as int,
                        );
                        lemma_candidate_prefix_bounds(
                            *board,
                            pv_move,
                            initial_bit as int + 1,
                            64,
                        );
                    }
                    return None;
                }
                let ghost entries_before = moves_fixed_vector.internal_array@;
                let ghost length_before = moves_fixed_vector.length as int;
                moves_fixed_vector.push(move_information);
                proof {
                    assert(moves_fixed_vector.internal_array@[length_before]
                        == move_information);
                    assert forall|m: MoveInformation|
                        #[trigger] spec_valid_candidate(*board, m) && m.initial_bit < initial_bit
                            && spec_kept(pv_move, m.initial_bit, m.final_bit) implies spec_pair_listed(
                        moves_fixed_vector.internal_array@,
                        moves_fixed_vector.length as int,
                        m.initial_bit,
                        m.final_bit,
                    ) by {
                        lemma_pair_listed_extend(
                            entries_before,
                            moves_fixed_vector.internal_array@,
                            length_before,
                            moves_fixed_vector.length as int,
                            m.initial_bit,
                            m.final_bit,
                        );
                    }
                    assert forall|j: int|
                        0 <= j < i + 1 && spec_kept(
                            pv_move,
                            initial_bit,
                            #[trigger] final_bits_vec.internal_array@[j],
                        ) implies spec_pair_listed(
                        moves_fixed_vector.internal_array@,
                        moves_fixed_vector.length as int,
                        initial_bit,
                        final_bits_vec.internal_array@[j],
                    ) by {
                        if j < i {
                            lemma_pair_listed_extend(
                                entries_before,
                                moves_fixed_vector.internal_array@,
                                length_before,
                                moves_fixed_vector.length as int,
                                initial_bit,
                                final_bits_vec.internal_array@[j],
                            );
                        }
                    }
                }
            }

            i += 1;
        }

        // Every destination of this square is now collected, so every
        // surviving candidate starting here is listed.
        proof {
            assert forall|m: MoveInformation|
                #[trigger] spec_valid_candidate(*board, m) && m.initial_bit == initial_bit
                    && spec_kept(pv_move, m.initial_bit, m.final_bit) implies spec_pair_listed(
                moves_fixed_vector.internal_array@,
                moves_fixed_vector.length as int,
                m.initial_bit,
                m.final_bit,
            ) by {
                bitboard_manipulation::lemma_on_bits_complete(move_bitboard, 0, m.final_bit);
                let bits = spec_square_move_bits(*board, initial_bit);
                let j = choose|j: int|
                    0 <= j < bitboard_manipulation::on_bits_from(move_bitboard, 0).len()
                        && #[trigger] bitboard_manipulation::on_bits_from(move_bitboard, 0)[j]
                        == m.final_bit;
                assert(bits[j] == m.final_bit);
                assert(final_bits_vec.internal_array@[j] == m.final_bit);
            }
        }

        initial_bit += 1;
    }

    // Add the principal-variation move with the top score, so the sort
    // puts it first.
    let ghost entries_without_pv = moves_fixed_vector.internal_array@;
    let ghost length_without_pv = moves_fixed_vector.length as int;
    if let Some(pv_entry) = pv_move {
        let mut pv_entry = pv_entry;
        pv_entry.move_score = i8::MAX;
        if moves_fixed_vector.len() >= MAX_TEAM_MOVES {
            return None;
        }
        moves_fixed_vector.push(pv_entry);
    }
    let ghost collected_count = spec_candidate_count(*board, pv_move);
    proof {
        assert(moves_fixed_vector.length == collected_count);
        assert forall|m: MoveInformation| #[trigger] spec_valid_candidate(*board, m)
            implies spec_pair_listed(
            moves_fixed_vector.internal_array@,
            moves_fixed_vector.length as int,
            m.initial_bit,
            m.final_bit,
        ) by {
            if spec_kept(pv_move, m.initial_bit, m.final_bit) {
                lemma_pair_listed_extend(
                    entries_without_pv,
                    moves_fixed_vector.internal_array@,
                    length_without_pv,
                    moves_fixed_vector.length as int,
                    m.initial_bit,
                    m.final_bit,
                );
            } else {
                // The skipped pair is the principal-variation move itself,
                // pushed (rescored) at the end.
                assert(moves_fixed_vector.internal_array@[length_without_pv].initial_bit
                    == m.initial_bit);
            }
        }
    }

    proof {
        assert forall|from_bit: u8, to_bit: u8|
            -10 <= #[trigger] spec_move_score(*board, from_bit, to_bit) <= 9 by {
        }
    }

    // Sort the collected moves by score, descending; the untouched tail of
    // the backing array keeps the placeholder entries.
    let mut sorted = moves_fixed_vector;
    let length = sorted.len();
    let mut i: usize = 1;
    while i < length
        invariant
            gboard == *board,
            length == sorted.length,
            sorted.length <= MAX_TEAM_MOVES,
            sorted.internal_array@.len() == MAX_TEAM_MOVES,
            1 <= i,
            forall|k: int|
                0 <= k < sorted.length ==> spec_valid_candidate(
                    *board,
                    #[trigger] sorted.internal_array@[k],
                ),
            forall|m: MoveInformation|
                #[trigger] spec_valid_candidate(*board, m) ==> spec_pair_listed(
                    sorted.internal_array@,
                    sorted.length as int,
                    m.initial_bit,
                    m.final_bit,
                ),
            forall|k: int|
                0 <= k < sorted.length ==> (#[trigger] sorted.internal_array@[k]).move_score
                    > i8::MIN,
            forall|k: int|
                0 <= k < sorted.length ==> {
                    let e = #[trigger] sorted.internal_array@[k];
                    (spec_kept(pv_move, e.initial_bit, e.final_bit) && e.move_score
                        == spec_move_score(*board, e.initial_bit, e.final_bit)) || (!spec_kept(
                        pv_move,
                        e.initial_bit,
                        e.final_bit,
                    ) && e.move_score == i8::MAX)
                },
            forall|p: int, q: int|
                0 <= p < q < sorted.length ==> (spec_kept(
                    pv_move,
                    (#[trigger] sorted.internal_array@[p]).initial_bit,
                    sorted.internal_array@[p].final_bit,
                ) || spec_kept(
                    pv_move,
                    (#[trigger] sorted.internal_array@[q]).initial_bit,
                    sorted.internal_array@[q].final_bit,
                )),
            sorted.length == collected_count,
            forall|p: int, q: int|
                0 <= p <= q < i && q < sorted.length ==> (
                #[trigger] sorted.internal_array@[p]).move_score
                    >= (#[trigger] sorted.internal_array@[q]).move_score,
        decreases length - i,
    {
        let mut j: usize = i;
        while j > 0 && sorted.internal_array[j - 1].move_score < sorted.internal_array[j].move_score
            invariant
                gboard == *board,
                length == sorted.length,
                sorted.length <= MAX_TEAM_MOVES,
                sorted.internal_array@.len() == MAX_TEAM_MOVES,
                j <= i < sorted.length,
                forall|k: int|
                    0 <= k < sorted.length ==> spec_valid_candidate(
                        *board,
                        #[trigger] sorted.internal_array@[k],
                    ),
                forall|m: MoveInformation|
                    #[trigger] spec_valid_candidate(*board, m) ==> spec_pair_listed(
                        sorted.internal_array@,
                        sorted.length as int,
                        m.initial_bit,
                        m.final_bit,
                    ),
                forall|k: int|
                    0 <= k < sorted.length ==> (#[trigger] sorted.internal_array@[k]).move_score
                        > i8::MIN,
                forall|k: int|
                    0 <= k < sorted.length ==> {
                        let e = #[trigger] sorted.internal_array@[k];
                        (spec_kept(pv_move, e.initial_bit, e.final_bit) && e.move_score
                            == spec_move_score(*board, e.initial_bit, e.final_bit)) || (!spec_kept(
                            pv_move,
                            e.initial_bit,
                            e.final_bit,
                        ) && e.move_score == i8::MAX)
                    },
                forall|p: int, q: int|
                    0 <= p < q < sorted.length ==> (spec_kept(
                        pv_move,
                        (#[trigger] sorted.internal_array@[p]).initial_bit,
                        sorted.internal_array@[p].final_bit,
                    ) || spec_kept(
                        pv_move,
                        (#[trigger] sorted.internal_array@[q]).initial_bit,
                        sorted.internal_array@[q].final_bit,
                    )),
                forall|p: int, q: int|
                    0 <= p <= q <= i && p != j && q != j ==> (
                    #[trigger] sorted.internal_array@[p]).move_score
                        >= (#[trigger] sorted.internal_array@[q]).move_score,
                forall|q: int|
                    j < q <= i ==> sorted.internal_array@[j as int].move_score
                        >= (#[trigger] sorted.internal_array@[q]).move_score,
            decreases j,
        {
            let ghost entries_before_swap = sorted.internal_array@;
            let higher = sorted.internal_array[j];
            let lower = sorted.internal_array[j - 1];
            sorted.internal_array[j - 1] = higher;
            sorted.internal_array[j] = lower;
            proof {
                assert forall|m: MoveInformation| #[trigger] spec_valid_candidate(*board, m)
                    implies spec_pair_listed(
                    sorted.internal_array@,
                    sorted.length as int,
                    m.initial_bit,
                    m.final_bit,
                ) by {
                    lemma_pair_listed_swap(
                        entries_before_swap,
                        sorted.internal_array@,
                        sorted.length as int,
                        j - 1,
                        j as int,
                        m.initial_bit,
                        m.final_bit,
                    );
                }
            }
            j -= 1;
        }
        proof {
            assert forall|p: int, q: int| 0 <= p <= q <= i implies (
            #[trigger] sorted.internal_array@[p]).move_score
                >= (#[trigger] sorted.internal_array@[q]).move_score by {
                if p == j as int && q > p {
                    assert(sorted.internal_array@[j as int].move_score
                        >= sorted.internal_array@[q].move_score);
                } else if q == j as int && p < q {
                    assert(sorted.internal_array@[p].move_score
                        >= sorted.internal_array@[j as int - 1].move_score);
                }
            }
        }
        i += 1;
    }

    proof {
        if pv_move is Some {
            let pv = pv_move->0;
            assert(spec_pair_listed(
                sorted.internal_array@,
                sorted.length as int,
                pv.initial_bit,
                pv.final_bit,
            ));
            let k = choose|k: int|
                0 <= k < sorted.length && (#[trigger] sorted.internal_array@[k]).initial_bit
                    == pv.initial_bit && sorted.internal_array@[k].final_bit == pv.final_bit;
            assert(sorted.internal_array@[k].move_score == i8::MAX);
            assert(sorted.internal_array@[0].move_score == i8::MAX);
            assert(!spec_kept(
                pv_move,
                sorted.internal_array@[0].initial_bit,
                sorted.internal_array@[0].final_bit,
            ));
        }
    }

    Some(sorted)
}

/// A successful captures-only turn is also a successful unrestricted turn:
/// the flag only widens the rejection of quiet moves.
proof fn lemma_captures_only_ok(
    board: Board,
    piece_id: usize,
    initial_bit: u8,
    final_bit: u8,
    ep_bits: (Option<u8>, Option<u8>),
    checkers: Seq<u8>,
)
    requires
        spec_take_turn(board, piece_id, initial_bit, final_bit, true, ep_bits, checkers) is Ok,
    ensures
        spec_take_turn(board, piece_id, initial_bit, final_bit, false, ep_bits, checkers)
            == spec_take_turn(board, piece_id, initial_bit, final_bit, true, ep_bits, checkers),
{
}

/// Discharges everything the turn function asks of a generated candidate:
/// the landing square holds no friendly piece, and the candidate's
/// en-passant squares lie in the zones the board invariant demands.
proof fn lemma_candidate_turn_preconditions(board: Board, m: MoveInformation)
    requires
        board.wf(),
        spec_valid_candidate(board, m),
    ensures
        m.final_bit == m.initial_bit || spec_piece_id(spec_friendly_half(board), m.final_bit)
            == 0,
        m.ep_bits.0 matches Some(t) ==> 8 <= t < 56,
        m.ep_bits.1 matches Some(c) ==> c < 64 && spec_piece_id(
            crate::turn::spec_enemy_half(board),
            m.final_bit,
        ) == 0,
{
    let friendly = spec_friendly_half(board);
    let piece_id = spec_piece_id(friendly, m.initial_bit);
    let generated = move_generation::spec_generate_moves(
        board,
        m.initial_bit,
        piece_id,
        board.piece_to_move,
    );
    move_generation::lemma_generated_move_squares(
        board,
        m.initial_bit,
        piece_id,
        board.piece_to_move,
        m.final_bit,
    );
    move_generation::lemma_double_target_bounds(
        board,
        m.initial_bit,
        piece_id,
        board.piece_to_move,
    );
}

/// The depth-limited minimax: walks the ordered candidates, applies each
/// as a turn, recurses with the opposite orientation, and keeps the best
/// value with alpha-beta pruning against the parent's bound. At the depth
/// limit a captures-only quiescence search of bounded depth takes over;
/// a node with no legal children scores as checkmate when an illegal
/// self-check move proved the king attacked, else as a quiet leaf.
///
/// Returns the node's value, its best move, and whether the deadline (or a
/// capacity overflow) aborted the search; an aborted result is discarded.
fn minimax(
    board: &Board,
    parent_value: i64,
    parent_min_max: Option<i64>,
    pv_move: Option<MoveInformation>,
    is_returning_max: bool,
    current_depth: u8,
    depth_limit: u8,
    quiescence_search: bool,
    start_instant: &Instant,
    timeout_duration: &Duration,
    plies_from_root: Ghost<int>,
) -> (r: (i64, MoveInformation, SearchStatus))
    requires
        board.wf(),
        current_depth <= depth_limit,
        0 <= plies_from_root@,
        plies_from_root@ + (depth_limit - current_depth) + (if quiescence_search {
            0int
        } else {
            QUIESCENCE_SEARCH_MAX_DEPTH as int
        }) <= 210,
        -9 * plies_from_root@ <= parent_value <= 9 * plies_from_root@,
        board.halfmove_clock as int <= 32100 + plies_from_root@,
        board.fullmove_number as int <= 32100 + plies_from_root@,
        pv_move matches Some(pv) ==> spec_valid_candidate(*board, pv),
    ensures
        r.2 is Completed ==> (spec_unset_move(r.1) || spec_legal_candidate(*board, r.1)),
        r.2 is Completed ==> -SEARCH_VALUE_BOUND <= r.0 <= SEARCH_VALUE_BOUND,
        (r.2 is Completed && !quiescence_search && current_depth < depth_limit && spec_unset_move(
            r.1,
        )) ==> (forall|m: MoveInformation| !spec_legal_candidate(*board, m)),
        (r.2 is Completed && !quiescence_search && current_depth < depth_limit && spec_unset_move(
            r.1,
        ) && (exists|m: MoveInformation| spec_valid_candidate(*board, m))) ==> r.0 == (
        if is_returning_max {
            -CHECKMATE_WEIGHT_SCALED as int
        } else {
            CHECKMATE_WEIGHT_SCALED as int
        }),
        (r.2 is Completed && !quiescence_search && current_depth < depth_limit && spec_unset_move(
            r.1,
        ) && !(exists|m: MoveInformation| spec_valid_candidate(*board, m))) ==> r.0
            == crate::bot_eval::spec_eval(parent_value as int, *board),
        !(r.2 is Completed) ==> r.0 == 0 && spec_unset_move(r.1),
    decreases (if quiescence_search {
        0int
    } else {
        1int
    }), depth_limit - current_depth,
{
    // Timeout: the caller discards everything from this subtree.
    if duration_longer(&elapsed_since(start_instant), timeout_duration) {
        return (0, MoveInformation::new(), SearchStatus::DeadlineHit);
    }

    // What to do when the depth limit is reached.
    if current_depth == depth_limit {
        if quiescence_search {
            // Stop the quiescence search at a quiet leaf.
            return (eval(parent_value, board), MoveInformation::new(), SearchStatus::Completed);
        } else {
            // Extend the node with a captures-only quiescence search.
            let result = minimax(
                board,
                parent_value,
                None,
                None,
                is_returning_max,
                0,
                QUIESCENCE_SEARCH_MAX_DEPTH,
                true,
                start_instant,
                timeout_duration,
                plies_from_root,
            );
            return result;
        }
    }

    let (mut min_or_max, parent_min_max_def, min_max_multiplier): (i64, i64, i64) =
        if is_returning_max {
        (i64::MIN, i64::MAX, 1)
    } else {
        (i64::MAX, i64::MIN, -1)
    };

    // Without a parent bound, use one that can never prune.
    let parent_min_max = if let Some(bound) = parent_min_max {
        bound
    } else {
        parent_min_max_def
    };

    let perspective_boards = PerspectiveBoards::gen(board, board.piece_to_move);
    let ordered = order_moves(board, pv_move, &perspective_boards);
    let moves = if let Some(moves) = ordered {
        moves
    } else {
        // The move list overflowed its capacity: abort the search loudly so
        // no truncated result is ever committed.
        return (0, MoveInformation::new(), SearchStatus::CapacityExceeded);
    };
    let potential_checking_pieces = check_validation::get_potential_checking_pieces(
        board,
        board.piece_to_move,
    );

    proof {
        assert(potential_checking_pieces.elements() =~= on_bits(
            check_validation::spec_potential_checkers_bitboard(*board, board.piece_to_move),
        ));
    }

    let mut king_was_in_check = false;
    let mut children_searched: u32 = 0;
    let mut best_move: MoveInformation = MoveInformation::new();

    let mut i: usize = 0;
    while i < moves.len()
        invariant_except_break
            children_searched <= i,
        invariant
            board.wf(),
            current_depth < depth_limit,
            0 <= plies_from_root@,
            plies_from_root@ + (depth_limit - current_depth) + (if quiescence_search {
                0int
            } else {
                QUIESCENCE_SEARCH_MAX_DEPTH as int
            }) <= 210,
            -9 * plies_from_root@ <= parent_value <= 9 * plies_from_root@,
            board.halfmove_clock as int <= 32100 + plies_from_root@,
            board.fullmove_number as int <= 32100 + plies_from_root@,
            min_max_multiplier == 1 || min_max_multiplier == -1,
            perspective_boards.wf_for(*board, board.piece_to_move),
            moves.length <= MAX_TEAM_MOVES,
            moves.internal_array@.len() == MAX_TEAM_MOVES,
            forall|k: int|
                0 <= k < moves.length ==> spec_valid_candidate(
                    *board,
                    #[trigger] moves.internal_array@[k],
                ),
            forall|k: int|
                0 <= k < moves.length ==> (#[trigger] moves.internal_array@[k]).move_score
                    > i8::MIN,
            potential_checking_pieces.length <= MAX_CHECKING_PIECES,
            potential_checking_pieces.internal_array@.len() == MAX_CHECKING_PIECES,
            forall|k: int|
                0 <= k < potential_checking_pieces.length
                    ==> #[trigger] potential_checking_pieces.internal_array@[k] < 64,
            potential_checking_pieces.elements() == spec_recomputed_checkers(
                *board,
                board.piece_to_move,
            ),
            i <= moves.length,
            spec_unset_move(best_move) || spec_legal_candidate(*board, best_move),
            spec_unset_move(best_move) ==> min_or_max == (if is_returning_max {
                i64::MIN
            } else {
                i64::MAX
            }),
            !spec_unset_move(best_move) ==> -SEARCH_VALUE_BOUND <= min_or_max
                <= SEARCH_VALUE_BOUND,
            children_searched > 0 ==> !spec_unset_move(best_move),
            children_searched == 0 ==> spec_unset_move(best_move),
            king_was_in_check ==> moves.length > 0,
            (!quiescence_search && !king_was_in_check && children_searched == 0) ==> i == 0,
            (!quiescence_search && spec_unset_move(best_move)) ==> (forall|k: int|
                0 <= k < i ==> !(spec_take_turn(
                    *board,
                    spec_piece_id(
                        spec_friendly_half(*board),
                        (#[trigger] moves.internal_array@[k]).initial_bit,
                    ) as usize,
                    moves.internal_array@[k].initial_bit,
                    moves.internal_array@[k].final_bit,
                    false,
                    moves.internal_array@[k].ep_bits,
                    spec_recomputed_checkers(*board, board.piece_to_move),
                ) is Ok)),
        ensures
            children_searched == 0 ==> i >= moves.length,
        decreases moves.length - i,
    {
        let move_information = moves.internal_array[i];
        let piece_id = board_representation::read_piece_id(
            &perspective_boards.friendly_board,
            move_information.initial_bit,
        );

        proof {
            lemma_candidate_turn_preconditions(*board, move_information);
        }

        // Make the turn; in quiescence mode only captures are accepted.
        let turn_data = turn::take_turn(
            board,
            piece_id,
            move_information.initial_bit,
            move_information.final_bit,
            quiescence_search,
            move_information.ep_bits,
            potential_checking_pieces,
        );

        match turn_data {
            Ok((new_board, capture_value)) => {
                children_searched = children_searched + 1;

                proof {
                    if quiescence_search {
                        lemma_captures_only_ok(
                            *board,
                            piece_id,
                            move_information.initial_bit,
                            move_information.final_bit,
                            move_information.ep_bits,
                            potential_checking_pieces.elements(),
                        );
                    }
                }

                // The capture's sign depends on whose gain it is: positive
                // exactly when it favours the side the search maximises.
                let signed_capture_value = (capture_value as i64) * min_max_multiplier;
                proof {
                    if min_max_multiplier == 1 {
                        assert(signed_capture_value == capture_value as i64);
                    } else {
                        assert(signed_capture_value == -(capture_value as i64));
                    }
                }

                let (branch_value, _, child_status) = minimax(
                    &new_board,
                    parent_value + signed_capture_value,
                    Some(min_or_max),
                    None,
                    !is_returning_max,
                    current_depth + 1,
                    depth_limit,
                    quiescence_search,
                    start_instant,
                    timeout_duration,
                    Ghost(plies_from_root@ + 1),
                );

                // Propagate a deadline cut or a capacity abort upwards.
                if child_status != SearchStatus::Completed {
                    return (0, MoveInformation::new(), child_status);
                }

                proof {
                    // The first searched child always replaces the
                    // uncommitted extreme sentinel.
                    if spec_unset_move(best_move) {
                        assert(if is_returning_max {
                            branch_value > min_or_max
                        } else {
                            branch_value < min_or_max
                        });
                    }
                    assert(!spec_unset_move(move_information));
                }

                // Keep the best value and move seen at this node.
                if update_min_or_max(min_or_max, branch_value, is_returning_max) {
                    min_or_max = branch_value;
                    best_move = move_information;
                }

                // Prune branches the parent would never choose.
                if prune(parent_min_max, min_or_max, is_returning_max) {
                    break ;
                }
            },
            Err(error) => {
                if error == TurnError::Check {
                    king_was_in_check = true;
                }
                proof {
                    if !quiescence_search {
                        assert(error == TurnError::Check);
                        assert(!(spec_take_turn(
                            *board,
                            spec_piece_id(
                                spec_friendly_half(*board),
                                move_information.initial_bit,
                            ) as usize,
                            move_information.initial_bit,
                            move_information.final_bit,
                            false,
                            move_information.ep_bits,
                            spec_recomputed_checkers(*board, board.piece_to_move),
                        ) is Ok));
                    }
                }
            },
        }

        i += 1;
    }

    proof {
        if !quiescence_search && children_searched == 0 {
            // No candidate survived the turn function, and the move list
            // is complete: the position has no legal move at all.
            assert forall|m: MoveInformation| !(#[trigger] spec_legal_candidate(*board, m)) by {
                if spec_legal_candidate(*board, m) {
                    assert(spec_pair_listed(
                        moves.internal_array@,
                        moves.length as int,
                        m.initial_bit,
                        m.final_bit,
                    ));
                    let k = choose|k: int|
                        0 <= k < moves.length && (#[trigger] moves.internal_array@[k]).initial_bit
                            == m.initial_bit && moves.internal_array@[k].final_bit == m.final_bit;
                    let entry = moves.internal_array@[k];
                    assert(spec_valid_candidate(*board, entry));
                    assert(entry.ep_bits == m.ep_bits);
                    assert(!(spec_take_turn(
                        *board,
                        spec_piece_id(spec_friendly_half(*board), entry.initial_bit) as usize,
                        entry.initial_bit,
                        entry.final_bit,
                        false,
                        entry.ep_bits,
                        spec_recomputed_checkers(*board, board.piece_to_move),
                    ) is Ok));
                }
            }
        }
    }

    proof {
        if !quiescence_search && children_searched == 0 && !king_was_in_check {
            // The move loop never ran at all: the side to move has no
            // pseudo-legal candidate anywhere on the board.
            assert(moves.length == 0);
            assert forall|m: MoveInformation| !(#[trigger] spec_valid_candidate(*board, m)) by {
                if spec_valid_candidate(*board, m) {
                    let bits = spec_square_move_bits(*board, m.initial_bit);
                    bitboard_manipulation::lemma_on_bits_complete(
                        move_generation::spec_generate_moves(
                            *board,
                            m.initial_bit,
                            spec_piece_id(spec_friendly_half(*board), m.initial_bit),
                            board.piece_to_move,
                        ).0,
                        0,
                        m.final_bit,
                    );
                    lemma_kept_count_none(bits, m.initial_bit, bits.len() as int);
                    assert(spec_square_candidate_count(*board, pv_move, m.initial_bit) >= 1);
                    lemma_candidate_prefix_bounds(*board, pv_move, 0, m.initial_bit as int);
                    lemma_candidate_prefix_bounds(*board, pv_move, m.initial_bit as int + 1, 64);
                }
            }
        }
        if !quiescence_search && children_searched == 0 && king_was_in_check {
            assert(spec_valid_candidate(*board, moves.internal_array@[0]));
        }
    }

    // With no searched children there are no valid moves at this node: a
    // rejected self-check move means checkmate; otherwise — a clean
    // stalemate, or a quiescence node without captures — the position
    // scores as a quiet leaf.
    if children_searched == 0 {
        if quiescence_search {
            return (eval(parent_value, board), MoveInformation::new(), SearchStatus::Completed);
        } else if king_was_in_check {
            // The mated side is the one to move here: the worst value from
            // this node's orientation.
            let mate_value = if is_returning_max {
                -CHECKMATE_WEIGHT_SCALED
            } else {
                CHECKMATE_WEIGHT_SCALED
            };
            return (mate_value, MoveInformation::new(), SearchStatus::Completed);
        } else {
            return (eval(parent_value, board), MoveInformation::new(), SearchStatus::Completed);
        }
    }

    (min_or_max, best_move, SearchStatus::Completed)
}

/// Finds the best move for the board within the time budget: iterative
/// deepening from depth 3 seeds each depth with the previous depth's best
/// move, and the last fully completed depth's move is returned. A returned
/// move is a legal move of the position; the unset pair (0, 0) comes back
/// only when the position has no legal move at all.
pub fn gen_best_move(board: &Board, max_duration: Duration) -> (r: Result<(u8, u8), ()>)
    requires
        board.wf(),
        board.halfmove_clock <= 32100,
        board.fullmove_number <= 32100,
    ensures
        r matches Ok(bits) ==> ((exists|m: MoveInformation|
            m.initial_bit == bits.0 && m.final_bit == bits.1 && spec_legal_candidate(*board, m))
            || (bits.0 == 0 && bits.1 == 0 && (forall|m: MoveInformation|
            !spec_legal_candidate(*board, m)))),
{
    let start = monotonic_now();

    let mut pv_move: Option<MoveInformation> = None;
    let mut depth_limit: u8 = 3;
    while depth_limit < 100
        invariant
            board.wf(),
            board.halfmove_clock <= 32100,
            board.fullmove_number <= 32100,
            3 <= depth_limit,
            pv_move matches Some(pv) ==> (spec_legal_candidate(*board, pv) || (spec_unset_move(pv)
                && (forall|m: MoveInformation| !spec_legal_candidate(*board, m)))),
        decreases 100 - depth_limit,
    {
        // An unset move from a depth that found nothing cannot seed the
        // next depth's ordering.
        let pv_argument = if let Some(pv) = pv_move {
            if pv.initial_bit == 0 && pv.final_bit == 0 && pv.move_score == i8::MIN {
                None
            } else {
                Some(pv)
            }
        } else {
            None
        };

        let (_, move_information, status) = minimax(
            board,
            0,
            None,
            pv_argument,
            true,
            0,
            depth_limit,
            false,
            &start,
            &max_duration,
            Ghost(0int),
        );

        // A capacity cap was exceeded somewhere in the tree: fail loudly
        // rather than answer from a truncated search.
        if status == SearchStatus::CapacityExceeded {
            return Err(());
        }

        // Everything from the search that was running when the deadline
        // passed is thrown out; the previous depth's move stands.
        if status == SearchStatus::DeadlineHit {
            break ;
        } else {
            pv_move = Some(move_information);
        }

        depth_limit += 1;
    }

    // Return the best move of the last completed depth.
    if let Some(pv_move) = pv_move {
        Ok((pv_move.initial_bit, pv_move.final_bit))
    } else {
        Err(())
    }
}

} // verus!
