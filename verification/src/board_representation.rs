//! The board model: per-colour piece bitboards, cached king squares, the
//! side to move, the en-passant target, castling rights, material totals
//! and the move clocks.
//!
//! Each colour owns three 64-bit words sharing one geometry: for a square
//! `s`, the 3-bit number read from the three words at bit `s` is the piece
//! id at `s` (0 = empty, 1..6 = pawn, knight, bishop, rook, queen, king).
//! White starts at the bottom of the board (high ranks), black at the top;
//! the board never flips orientation.

use vstd::prelude::*;

use crate::bitboard_manipulation::{bit_on, nth_bit};
use crate::pieces;
use crate::pieces::{PieceInformation, spec_piece_value};

verus! {

/// Bitboards for the chess starting position, white side.
pub const STARTING_WHITE_BOARD_0: u64 = 3818771009033469952;

pub const STARTING_WHITE_BOARD_1: u64 = 7926335344172072960;

pub const STARTING_WHITE_BOARD_2: u64 = 11024811887802974208;

/// Bitboards for the chess starting position, black side.
pub const STARTING_BLACK_BOARD_0: u64 = 65332;

pub const STARTING_BLACK_BOARD_1: u64 = 110;

pub const STARTING_BLACK_BOARD_2: u64 = 153;

/// Material value of one side at the start of the game; lines up with the
/// piece values in `pieces`.
pub const TEAM_MATERIAL_VALUE: i8 = 39;

pub open spec fn spec_starting_white_board() -> Seq<u64> {
    seq![STARTING_WHITE_BOARD_0, STARTING_WHITE_BOARD_1, STARTING_WHITE_BOARD_2]
}

pub open spec fn spec_starting_black_board() -> Seq<u64> {
    seq![STARTING_BLACK_BOARD_0, STARTING_BLACK_BOARD_1, STARTING_BLACK_BOARD_2]
}

/// The bitboards of the starting position for one side.
pub fn starting_board(white: bool) -> (r: [u64; 3])
    ensures
        white ==> r@ == spec_starting_white_board(),
        !white ==> r@ == spec_starting_black_board(),
{
    let mut board: [u64; 3] = [0u64;3];
    if white {
        board[0] = STARTING_WHITE_BOARD_0;
        board[1] = STARTING_WHITE_BOARD_1;
        board[2] = STARTING_WHITE_BOARD_2;
        proof {
            assert(board@ =~= spec_starting_white_board());
        }
    } else {
        board[0] = STARTING_BLACK_BOARD_0;
        board[1] = STARTING_BLACK_BOARD_1;
        board[2] = STARTING_BLACK_BOARD_2;
        proof {
            assert(board@ =~= spec_starting_black_board());
        }
    }
    board
}

#[derive(Debug, PartialEq, Eq, Structural, Copy, Clone)]
pub enum PieceColor {
    White,
    Black,
}

#[derive(Debug, PartialEq, Clone, Copy)]
pub struct CastlingAvailability {
    pub w_ks: bool,
    pub w_qs: bool,
    pub b_ks: bool,
    pub b_qs: bool,
}

impl CastlingAvailability {
    /// All four castling rights set to one common state.
    pub fn new(common_state: bool) -> (r: Self)
        ensures
            r.w_ks == common_state,
            r.w_qs == common_state,
            r.b_ks == common_state,
            r.b_qs == common_state,
    {
        CastlingAvailability { w_ks: common_state, w_qs: common_state, b_ks: common_state, b_qs: common_state }
    }
}

/// An immutable board value; turns produce fresh boards.
#[derive(Debug, PartialEq, Clone, Copy)]
pub struct Board {
    pub white_board: [u64; 3],
    pub black_board: [u64; 3],
    pub white_king_bit: u8,
    pub black_king_bit: u8,
    pub piece_to_move: PieceColor,
    pub en_passant_target_bit: Option<u8>,
    pub castling_availability: CastlingAvailability,
    pub white_material: i8,
    pub black_material: i8,
    /// Half moves since the last capture or pawn advance.
    pub halfmove_clock: i16,
    /// Incremented after black's move.
    pub fullmove_number: i16,
}

impl Board {
    /// Creates a board holding the chess starting position.
    pub fn new() -> (r: Self)
        ensures
            r.white_board@ == spec_starting_white_board(),
            r.black_board@ == spec_starting_black_board(),
            r.white_king_bit == 59,
            r.black_king_bit == 3,
            r.piece_to_move == PieceColor::White,
            r.en_passant_target_bit is None,
            r.castling_availability == (CastlingAvailability {
                w_ks: true,
                w_qs: true,
                b_ks: true,
                b_qs: true,
            }),
            r.white_material == TEAM_MATERIAL_VALUE,
            r.black_material == TEAM_MATERIAL_VALUE,
            r.halfmove_clock == 0,
            r.fullmove_number == 1,
    {
        Board {
            white_board: starting_board(true),
            black_board: starting_board(false),
            white_king_bit: 59,
            black_king_bit: 3,
            piece_to_move: PieceColor::White,
            en_passant_target_bit: None,
            castling_availability: CastlingAvailability::new(true),
            white_material: TEAM_MATERIAL_VALUE,
            black_material: TEAM_MATERIAL_VALUE,
            halfmove_clock: 0,
            fullmove_number: 1,
        }
    }

    /// Creates a board with no pieces on it.
    pub fn empty() -> (r: Self)
        ensures
            r.white_board@ == seq![0u64, 0u64, 0u64],
            r.black_board@ == seq![0u64, 0u64, 0u64],
            r.white_king_bit == 0,
            r.black_king_bit == 0,
            r.piece_to_move == PieceColor::White,
            r.en_passant_target_bit is None,
            r.castling_availability == (CastlingAvailability {
                w_ks: false,
                w_qs: false,
                b_ks: false,
                b_qs: false,
            }),
            r.white_material == 0,
            r.black_material == 0,
            r.halfmove_clock == 0,
            r.fullmove_number == 1,
    {
        let empty_half: [u64; 3] = [0u64;3];
        proof {
            assert(empty_half@ =~= seq![0u64, 0u64, 0u64]);
        }
        Board {
            white_board: empty_half,
            black_board: empty_half,
            white_king_bit: 0,
            black_king_bit: 0,
            piece_to_move: PieceColor::White,
            en_passant_target_bit: None,
            castling_availability: CastlingAvailability::new(false),
            white_material: 0,
            black_material: 0,
            halfmove_clock: 0,
            fullmove_number: 1,
        }
    }
}

/// Boards and movement data seen from the side whose moves are being
/// generated; the bundle copies the board words it needs.
pub struct PerspectiveBoards {
    pub friendly_board: [u64; 3],
    pub enemy_board: [u64; 3],
    pub friendly_starting_board: [u64; 3],
    pub friendly_piece_information: Vec<PieceInformation>,
    pub enemy_team_color: PieceColor,
}

impl PerspectiveBoards {
    /// The bundle is the view of `board` from `color`'s perspective.
    pub open spec fn wf_for(self, board: Board, color: PieceColor) -> bool {
        &&& self.friendly_board@ == (if color is White {
            board.white_board@
        } else {
            board.black_board@
        })
        &&& self.enemy_board@ == (if color is White {
            board.black_board@
        } else {
            board.white_board@
        })
        &&& self.friendly_starting_board@ == (if color is White {
            spec_starting_white_board()
        } else {
            spec_starting_black_board()
        })
        &&& pieces::piece_information_table_wf(
            color is White,
            self.friendly_piece_information@,
        )
        &&& self.enemy_team_color == (if color is White {
            PieceColor::Black
        } else {
            PieceColor::White
        })
    }

    /// Generates the perspective bundle for the given side of a board.
    pub fn gen(board: &Board, from_perspective: PieceColor) -> (r: Self)
        ensures
            r.wf_for(*board, from_perspective),
    {
        match from_perspective {
            PieceColor::Black => PerspectiveBoards {
                friendly_board: board.black_board,
                enemy_board: board.white_board,
                friendly_starting_board: starting_board(false),
                friendly_piece_information: pieces::piece_information_table(false),
                enemy_team_color: PieceColor::White,
            },
            PieceColor::White => PerspectiveBoards {
                friendly_board: board.white_board,
                enemy_board: board.black_board,
                friendly_starting_board: starting_board(true),
                friendly_piece_information: pieces::piece_information_table(true),
                enemy_team_color: PieceColor::Black,
            },
        }
    }

    /// The two per-side occupancy bitboards (friendly first): the OR of a
    /// side's three words marks every square that side occupies.
    pub fn gen_bitboards(&self) -> (r: (u64, u64))
        ensures
            r.0 == (self.friendly_board@[0] | self.friendly_board@[1] | self.friendly_board@[2]),
            r.1 == (self.enemy_board@[0] | self.enemy_board@[1] | self.enemy_board@[2]),
    {
        let friendly_bitboard = self.friendly_board[0] | self.friendly_board[1]
            | self.friendly_board[2];
        let enemy_bitboard = self.enemy_board[0] | self.enemy_board[1] | self.enemy_board[2];

        (friendly_bitboard, enemy_bitboard)
    }
}

/// A word with bit `b` cleared if it was set (how a piece is removed).
pub open spec fn spec_clear_square(w: u64, b: u8) -> u64 {
    if nth_bit(w, b as u64) {
        w ^ (1u64 << (b as u64))
    } else {
        w
    }
}

/// A word with bit `b` set when `cond` holds (how a piece id bit is
/// inserted).
pub open spec fn spec_set_square(w: u64, b: u8, cond: bool) -> u64 {
    if cond {
        w | (1u64 << (b as u64))
    } else {
        w
    }
}

/// One side's board after removing whatever piece sits at `b`.
pub open spec fn spec_remove_piece(half: Seq<u64>, b: u8) -> Seq<u64> {
    seq![
        spec_clear_square(half[0], b),
        spec_clear_square(half[1], b),
        spec_clear_square(half[2], b),
    ]
}

/// One side's board after inserting piece id `piece_id` at `b`.
pub open spec fn spec_insert_piece(half: Seq<u64>, b: u8, piece_id: usize) -> Seq<u64> {
    seq![
        spec_set_square(half[0], b, spec_id_bit(piece_id, 0)),
        spec_set_square(half[1], b, spec_id_bit(piece_id, 1)),
        spec_set_square(half[2], b, spec_id_bit(piece_id, 2)),
    ]
}

impl Board {
    /// Machine-level validity: both king squares are on the board, no
    /// square of either side holds the unused piece id 7, no square is
    /// occupied by both sides at once, material totals stay well inside
    /// the i8 range, and an en-passant target always lies in the zone
    /// where double moves land.
    pub open spec fn wf(self) -> bool {
        &&& self.white_king_bit < 64
        &&& self.black_king_bit < 64
        &&& (forall|b: u8| b < 64 ==> spec_piece_id(self.white_board@, b) != 7)
        &&& (forall|b: u8| b < 64 ==> spec_piece_id(self.black_board@, b) != 7)
        &&& (forall|b: u8|
            b < 64 ==> spec_piece_id(self.white_board@, b) == 0 || spec_piece_id(
                self.black_board@,
                b,
            ) == 0)
        &&& self.white_material == spec_material(self.white_board@)
        &&& self.black_material == spec_material(self.black_board@)
        &&& self.white_material <= 100
        &&& self.black_material <= 100
        &&& spec_piece_count(self.white_board@) <= 16
        &&& spec_piece_count(self.black_board@) <= 16
        &&& (self.en_passant_target_bit matches Some(t) ==> 8 <= t < 56)
    }
}

/// Evaluates `Board::wf` at run time, so unverified callers can test a
/// decoded board before handing it to the engine.
pub fn board_is_wf(board: &Board) -> (r: bool)
    ensures
        r == board.wf(),
{
    if !(board.white_king_bit < 64 && board.black_king_bit < 64) {
        return false;
    }
    if let Some(t) = board.en_passant_target_bit {
        if !(8 <= t && t < 56) {
            return false;
        }
    }
    let mut white_sum: i16 = 0;
    let mut black_sum: i16 = 0;
    let mut white_count: i16 = 0;
    let mut black_count: i16 = 0;
    let mut b: u8 = 0;
    while b < 64
        invariant
            b <= 64,
            forall|k: u8| k < b ==> spec_piece_id(board.white_board@, k) != 7,
            forall|k: u8| k < b ==> spec_piece_id(board.black_board@, k) != 7,
            forall|k: u8|
                k < b ==> spec_piece_id(board.white_board@, k) == 0 || spec_piece_id(
                    board.black_board@,
                    k,
                ) == 0,
            white_sum == spec_material_prefix(board.white_board@, b as int),
            black_sum == spec_material_prefix(board.black_board@, b as int),
            white_count == spec_piece_count_prefix(board.white_board@, b as int),
            black_count == spec_piece_count_prefix(board.black_board@, b as int),
            0 <= white_sum <= 9 * b,
            0 <= black_sum <= 9 * b,
            0 <= white_count <= b,
            0 <= black_count <= b,
        decreases 64 - b,
    {
        let white_id = read_piece_id(&board.white_board, b);
        let black_id = read_piece_id(&board.black_board, b);
        if white_id == 7 || black_id == 7 {
            return false;
        }
        if white_id != 0 && black_id != 0 {
            return false;
        }
        white_sum = white_sum + pieces::piece_value(white_id) as i16;
        black_sum = black_sum + pieces::piece_value(black_id) as i16;
        if white_id != 0 {
            white_count = white_count + 1;
        }
        if black_id != 0 {
            black_count = black_count + 1;
        }
        b += 1;
    }
    if !(white_sum <= 100 && board.white_material as i16 == white_sum) {
        return false;
    }
    if !(black_sum <= 100 && board.black_material as i16 == black_sum) {
        return false;
    }
    if !(white_count <= 16 && black_count <= 16) {
        return false;
    }
    true
}

/// The 3-bit piece id stored at `piece_bit` across the three words of one
/// side's board.
pub open spec fn spec_piece_id(team_board: Seq<u64>, piece_bit: u8) -> int {
    (if nth_bit(team_board[0], piece_bit as u64) {
        1int
    } else {
        0int
    }) + (if nth_bit(team_board[1], piece_bit as u64) {
        2int
    } else {
        0int
    }) + (if nth_bit(team_board[2], piece_bit as u64) {
        4int
    } else {
        0int
    })
}

/// Reads the piece id at a square of one side's board.
pub fn read_piece_id(team_board: &[u64; 3], piece_bit: u8) -> (r: usize)
    requires
        piece_bit < 64,
    ensures
        r == spec_piece_id(team_board@, piece_bit),
        r <= 7,
{
    let mut output: usize = 0;

    if bit_on(team_board[0], piece_bit) {
        proof {
            assert(output == 0 ==> (output | 1) == 1) by (bit_vector);
        }
        output |= 1;
    }
    if bit_on(team_board[1], piece_bit) {
        proof {
            assert(output <= 1 ==> (output | 2) == output + 2) by (bit_vector);
        }
        output |= 2;
    }
    if bit_on(team_board[2], piece_bit) {
        proof {
            assert(output <= 3 ==> (output | 4) == output + 4) by (bit_vector);
        }
        output |= 4;
    }

    output
}

proof fn lemma_set_bit(w: u64, b: u64)
    by (bit_vector)
    requires
        b < 64,
    ensures
        nth_bit(w | (1u64 << b), b),
        forall|k: u64| k < 64 && k != b ==> nth_bit(w | (1u64 << b), k) == nth_bit(w, k),
{
}

proof fn lemma_clear_bit(w: u64, b: u64)
    by (bit_vector)
    requires
        b < 64,
        nth_bit(w, b),
    ensures
        !nth_bit(w ^ (1u64 << b), b),
        forall|k: u64| k < 64 && k != b ==> nth_bit(w ^ (1u64 << b), k) == nth_bit(w, k),
{
}

/// Bit `k` of a piece id.
pub open spec fn spec_id_bit(piece_id: usize, k: usize) -> bool {
    (piece_id >> k) & 1usize == 1usize
}

/// Inserts a piece id at a square of one side's board: each word whose id
/// bit is set gets the square's bit turned on.
pub fn insert_piece(piece_bit: u8, piece_id: usize, half_board: &mut [u64; 3])
    requires
        piece_bit < 64,
    ensures
        final(half_board)@ == spec_insert_piece(old(half_board)@, piece_bit, piece_id),
        forall|j: int|
            0 <= j < 3 ==> nth_bit(#[trigger] final(half_board)@[j], piece_bit as u64) == (
            spec_id_bit(piece_id, j as usize) || nth_bit(old(half_board)@[j], piece_bit as u64)),
        forall|j: int, k: u64|
            0 <= j < 3 && k < 64 && k != piece_bit ==> #[trigger] nth_bit(final(half_board)@[j], k)
                == nth_bit(old(half_board)@[j], k),
{
    let mask: u64 = 1u64 << (piece_bit as u64);
    proof {
        assert((piece_id >> 0usize) & 1usize == piece_id & 1usize) by (bit_vector);
        lemma_set_bit(half_board@[0], piece_bit as u64);
        lemma_set_bit(half_board@[1], piece_bit as u64);
        lemma_set_bit(half_board@[2], piece_bit as u64);
    }
    if (piece_id & 1) == 1 {
        half_board[0] = half_board[0] | mask;
    }
    if (piece_id >> 1) & 1 == 1 {
        half_board[1] = half_board[1] | mask;
    }
    if (piece_id >> 2) & 1 == 1 {
        half_board[2] = half_board[2] | mask;
    }
    proof {
        assert(half_board@ =~= spec_insert_piece(old(half_board)@, piece_bit, piece_id));
    }
}

/// Removes whatever piece sits at a square of one side's board: every word
/// with the square's bit on gets it turned off.
pub fn remove_piece(piece_bit: u8, half_board: &mut [u64; 3])
    requires
        piece_bit < 64,
    ensures
        forall|j: int|
            0 <= j < 3 ==> !nth_bit(#[trigger] final(half_board)@[j], piece_bit as u64),
        forall|j: int, k: u64|
            0 <= j < 3 && k < 64 && k != piece_bit ==> #[trigger] nth_bit(final(half_board)@[j], k)
                == nth_bit(old(half_board)@[j], k),
        spec_piece_id(final(half_board)@, piece_bit) == 0,
        final(half_board)@ == spec_remove_piece(old(half_board)@, piece_bit),
{
    let mask: u64 = 1u64 << (piece_bit as u64);
    proof {
        if nth_bit(half_board@[0], piece_bit as u64) {
            lemma_clear_bit(half_board@[0], piece_bit as u64);
        }
        if nth_bit(half_board@[1], piece_bit as u64) {
            lemma_clear_bit(half_board@[1], piece_bit as u64);
        }
        if nth_bit(half_board@[2], piece_bit as u64) {
            lemma_clear_bit(half_board@[2], piece_bit as u64);
        }
    }
    if bit_on(half_board[0], piece_bit) {
        half_board[0] = half_board[0] ^ mask;
    }
    if bit_on(half_board[1], piece_bit) {
        half_board[1] = half_board[1] ^ mask;
    }
    if bit_on(half_board[2], piece_bit) {
        half_board[2] = half_board[2] ^ mask;
    }
    proof {
        assert(half_board@ =~= spec_remove_piece(old(half_board)@, piece_bit));
    }
}

/// The material total of one side: the sum of the piece values over its
/// first `n` squares.
pub open spec fn spec_material_prefix(half: Seq<u64>, n: int) -> int
    decreases n,
{
    if n <= 0 {
        0
    } else {
        spec_material_prefix(half, n - 1) + spec_piece_value(spec_piece_id(half, (n - 1) as u8))
    }
}

/// The material total of one side: the sum of the piece values over all
/// its squares (the king's value is zero).
pub open spec fn spec_material(half: Seq<u64>) -> int {
    spec_material_prefix(half, 64)
}

/// The number of occupied squares of one side, over its first `n` squares.
pub open spec fn spec_piece_count_prefix(half: Seq<u64>, n: int) -> int
    decreases n,
{
    if n <= 0 {
        0
    } else {
        spec_piece_count_prefix(half, n - 1) + (if spec_piece_id(half, (n - 1) as u8) != 0 {
            1int
        } else {
            0int
        })
    }
}

/// The number of occupied squares of one side.
pub open spec fn spec_piece_count(half: Seq<u64>) -> int {
    spec_piece_count_prefix(half, 64)
}

/// A piece count is never negative.
pub proof fn lemma_piece_count_nonneg(half: Seq<u64>, n: int)
    ensures
        spec_piece_count_prefix(half, n) >= 0,
    decreases n,
{
    if n > 0 {
        lemma_piece_count_nonneg(half, n - 1);
    }
}

/// Changing the piece at one square changes the piece count by whether the
/// square went between empty and occupied.
pub proof fn lemma_piece_count_change(h1: Seq<u64>, h2: Seq<u64>, b: u8, n: int)
    requires
        b < 64,
        n <= 64,
        forall|k: u8| k < 64 && k != b ==> spec_piece_id(h2, k) == spec_piece_id(h1, k),
    ensures
        spec_piece_count_prefix(h2, n) == spec_piece_count_prefix(h1, n) + (if (b as int) < n {
            (if spec_piece_id(h2, b) != 0 {
                1int
            } else {
                0int
            }) - (if spec_piece_id(h1, b) != 0 {
                1int
            } else {
                0int
            })
        } else {
            0
        }),
    decreases n,
{
    if n > 0 {
        lemma_piece_count_change(h1, h2, b, n - 1);
    }
}

/// The set bits of a side's occupancy word, scanned from square `i` up,
/// are exactly its occupied squares there: the counts agree.
pub proof fn lemma_piece_count_matches_occupancy(half: Seq<u64>, i: u64)
    requires
        half.len() == 3,
        i <= 64,
    ensures
        crate::bitboard_manipulation::on_bits_from(half[0] | half[1] | half[2], i).len()
            + spec_piece_count_prefix(half, i as int) == spec_piece_count(half),
    decreases 64 - i,
{
    if i < 64 {
        lemma_piece_count_matches_occupancy(half, (i + 1) as u64);
        crate::move_generation::lemma_occupancy_bit(half, i as u8);
    }
}

/// A material total is never negative.
pub proof fn lemma_material_nonneg(half: Seq<u64>, n: int)
    ensures
        spec_material_prefix(half, n) >= 0,
    decreases n,
{
    if n > 0 {
        lemma_material_nonneg(half, n - 1);
    }
}

/// Changing the piece at one square changes the material total by the
/// difference of the old and new piece values there.
pub proof fn lemma_material_change(h1: Seq<u64>, h2: Seq<u64>, b: u8, n: int)
    requires
        b < 64,
        n <= 64,
        forall|k: u8| k < 64 && k != b ==> spec_piece_id(h2, k) == spec_piece_id(h1, k),
    ensures
        spec_material_prefix(h2, n) == spec_material_prefix(h1, n) + (if (b as int) < n {
            spec_piece_value(spec_piece_id(h2, b)) - spec_piece_value(spec_piece_id(h1, b))
        } else {
            0
        }),
    decreases n,
{
    if n > 0 {
        lemma_material_change(h1, h2, b, n - 1);
    }
}

/// Removing the piece at `b` empties that square and leaves every other
/// square's id unchanged.
pub proof fn lemma_spec_remove_piece_ids(half: Seq<u64>, b: u8)
    requires
        half.len() == 3,
        b < 64,
    ensures
        spec_piece_id(spec_remove_piece(half, b), b) == 0,
        forall|k: u8|
            k < 64 && k != b ==> spec_piece_id(spec_remove_piece(half, b), k) == spec_piece_id(
                half,
                k,
            ),
{
    let h2 = spec_remove_piece(half, b);
    let bb = b as u64;
    if nth_bit(half[0], bb) {
        lemma_clear_bit(half[0], bb);
    }
    if nth_bit(half[1], bb) {
        lemma_clear_bit(half[1], bb);
    }
    if nth_bit(half[2], bb) {
        lemma_clear_bit(half[2], bb);
    }
    assert forall|k: u8| k < 64 && k != b implies spec_piece_id(h2, k) == spec_piece_id(
        half,
        k,
    ) by {
        if nth_bit(half[0], bb) {
            lemma_clear_bit(half[0], bb);
        }
        if nth_bit(half[1], bb) {
            lemma_clear_bit(half[1], bb);
        }
        if nth_bit(half[2], bb) {
            lemma_clear_bit(half[2], bb);
        }
    }
}

/// Inserting a piece id at an empty square stores exactly that id there
/// and leaves every other square's id unchanged.
pub proof fn lemma_spec_insert_piece_ids(half: Seq<u64>, b: u8, piece_id: usize)
    requires
        half.len() == 3,
        b < 64,
        piece_id < 8,
        spec_piece_id(half, b) == 0,
    ensures
        spec_piece_id(spec_insert_piece(half, b, piece_id), b) == piece_id,
        forall|k: u8|
            k < 64 && k != b ==> spec_piece_id(spec_insert_piece(half, b, piece_id), k)
                == spec_piece_id(half, k),
{
    let h2 = spec_insert_piece(half, b, piece_id);
    let bb = b as u64;
    lemma_set_bit(half[0], bb);
    lemma_set_bit(half[1], bb);
    lemma_set_bit(half[2], bb);
    assert((if spec_id_bit(piece_id, 0) {
        1int
    } else {
        0int
    }) + (if spec_id_bit(piece_id, 1) {
        2int
    } else {
        0int
    }) + (if spec_id_bit(piece_id, 2) {
        4int
    } else {
        0int
    }) == piece_id) by (bit_vector)
        requires
            piece_id < 8,
    ;
    assert forall|k: u8| k < 64 && k != b implies spec_piece_id(h2, k) == spec_piece_id(
        half,
        k,
    ) by {
        lemma_set_bit(half[0], bb);
        lemma_set_bit(half[1], bb);
        lemma_set_bit(half[2], bb);
    }
}

} // verus!
