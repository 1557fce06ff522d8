//! Decoding of board-position text. The notation is the common one for
//! chess positions, with one deviation: the en-passant field holds a raw
//! decimal square index instead of an algebraic pair. Fields are separated
//! by spaces: piece layout (ranks separated by `/`, files left to right in
//! decreasing index, digits skipping empty squares), side to move,
//! castling rights, en-passant target, half-move clock, full-move number.
//!
//! The decoder is total: layout text that would run past the board or
//! overflow a counter is ignored rather than acted on, so any input byte
//! sequence decodes to some board. Only well-formed text is meaningful.

use vstd::prelude::*;
use vstd::string::StringSliceAdditionalSpecFns;

use crate::board_representation;
use crate::board_representation::{Board, CastlingAvailability, PieceColor, spec_insert_piece};
use crate::pieces;

verus! {

broadcast use vstd::array::group_array_axioms;

/// The decoder's running state: the square under the cursor, the rank, the
/// count of field separators seen, whether the last byte was a separator,
/// and the board built so far.
#[derive(Clone, Copy)]
pub struct FenState {
    pub bit: u8,
    pub row: u8,
    pub space_counter: u32,
    pub last_character_space: bool,
    pub board: Board,
}

/// The numeric value of an ASCII digit.
pub open spec fn spec_char_to_num(c: u8) -> Option<u8> {
    if 48 <= c <= 57 {
        Some((c - 48) as u8)
    } else {
        None
    }
}

/// The black piece id of a layout letter; `?` is the unused placeholder
/// entry of the piece tables and maps to the empty id.
pub open spec fn spec_black_piece_id(c: u8) -> Option<usize> {
    if c == 63 {
        Some(0usize)
    } else if c == 112 {
        Some(1usize)
    } else if c == 110 {
        Some(2usize)
    } else if c == 98 {
        Some(3usize)
    } else if c == 114 {
        Some(4usize)
    } else if c == 113 {
        Some(5usize)
    } else if c == 107 {
        Some(6usize)
    } else {
        None
    }
}

/// The white piece id of a layout letter.
pub open spec fn spec_white_piece_id(c: u8) -> Option<usize> {
    if c == 63 {
        Some(0usize)
    } else if c == 80 {
        Some(1usize)
    } else if c == 78 {
        Some(2usize)
    } else if c == 66 {
        Some(3usize)
    } else if c == 82 {
        Some(4usize)
    } else if c == 81 {
        Some(5usize)
    } else if c == 75 {
        Some(6usize)
    } else {
        None
    }
}

/// A number collected from the digits at and after position `i`, stopping
/// at the first non-digit; accumulation stops once the number grows past
/// any value the clocks could hold.
pub open spec fn spec_collect_from(bytes: Seq<u8>, i: int, acc: u32) -> u32
    decreases bytes.len() - i,
{
    if i < 0 || i >= bytes.len() {
        acc
    } else {
        match spec_char_to_num(bytes[i]) {
            Some(num) => {
                let next = if acc <= 100000000 {
                    (acc * 10 + num) as u32
                } else {
                    acc
                };
                spec_collect_from(bytes, i + 1, next)
            },
            None => acc,
        }
    }
}

pub open spec fn spec_collect_nums(bytes: Seq<u8>, i: int) -> u32 {
    spec_collect_from(bytes, i, 0)
}

/// A material total nudged by a captured or inserted piece's value,
/// clamped to the i8 range so malformed layouts cannot overflow it.
pub open spec fn spec_clamp_material(total: int) -> i8 {
    if total > 127 {
        127i8
    } else if total < -128 {
        (-128) as i8
    } else {
        total as i8
    }
}

/// One square advance of the layout cursor: within a rank the square index
/// falls; at a rank's end the cursor jumps to the left end of the next
/// rank. The cursor saturates instead of running off the 256-square grid.
pub open spec fn spec_advance(st: FenState) -> FenState {
    if st.bit % 8 == 0 {
        if st.row < 31 {
            FenState { row: (st.row + 1) as u8, bit: ((st.row + 1) * 8 + 7) as u8, ..st }
        } else {
            FenState { bit: 255u8, ..st }
        }
    } else {
        FenState { bit: (st.bit - 1) as u8, ..st }
    }
}

/// The layout cursor advanced `k` squares.
pub open spec fn spec_advance_by(st: FenState, k: int) -> FenState
    decreases k,
{
    if k <= 0 {
        st
    } else {
        spec_advance(spec_advance_by(st, k - 1))
    }
}

/// The piece effect of one layout byte: kings update the cached king
/// squares and piece letters are inserted with their material value.
pub open spec fn spec_layout_pieces(st: FenState, c: u8) -> FenState {
    let st1 = if c == 75 {
        FenState { board: Board { white_king_bit: st.bit, ..st.board }, ..st }
    } else if c == 107 {
        FenState { board: Board { black_king_bit: st.bit, ..st.board }, ..st }
    } else {
        st
    };
    let st2 = if st1.bit < 64 {
        match spec_black_piece_id(c) {
            Some(piece_id) => FenState {
                board: Board {
                    black_board: crate::turn::spec_half_with(
                        st1.board.black_board,
                        spec_insert_piece(st1.board.black_board@, st1.bit, piece_id),
                    ),
                    black_material: spec_clamp_material(
                        st1.board.black_material + pieces::spec_piece_value(piece_id as int),
                    ),
                    ..st1.board
                },
                ..st1
            },
            None => match spec_white_piece_id(c) {
                Some(piece_id) => FenState {
                    board: Board {
                        white_board: crate::turn::spec_half_with(
                            st1.board.white_board,
                            spec_insert_piece(st1.board.white_board@, st1.bit, piece_id),
                        ),
                        white_material: spec_clamp_material(
                            st1.board.white_material + pieces::spec_piece_value(piece_id as int),
                        ),
                        ..st1.board
                    },
                    ..st1
                },
                None => st1,
            },
        }
    } else {
        st1
    };
    st2
}

/// One layout byte applied to the state: the piece effect, then the cursor
/// advanced by the digit's run length or by one square.
pub open spec fn spec_layout_step(st: FenState, c: u8) -> FenState {
    let skip = match spec_char_to_num(c) {
        Some(num) => num as int,
        None => 1,
    };
    spec_advance_by(spec_layout_pieces(st, c), skip)
}

/// One byte of the text applied to the state, depending on which field the
/// separator count says the cursor is in.
pub open spec fn spec_fen_step(st: FenState, bytes: Seq<u8>, i: int) -> FenState {
    let c = bytes[i];
    if c == 47 {
        // Rank separators carry no information of their own.
        st
    } else if c == 32 {
        FenState {
            space_counter: if st.space_counter < 0xffffffff {
                (st.space_counter + 1) as u32
            } else {
                st.space_counter
            },
            last_character_space: true,
            ..st
        }
    } else if st.space_counter == 0 {
        spec_layout_step(st, c)
    } else if st.space_counter == 1 {
        FenState {
            board: Board {
                piece_to_move: if c == 119 {
                    PieceColor::White
                } else {
                    PieceColor::Black
                },
                ..st.board
            },
            ..st
        }
    } else if st.space_counter == 2 {
        let castling = st.board.castling_availability;
        let castling = if c == 75 {
            CastlingAvailability { w_ks: true, ..castling }
        } else if c == 81 {
            CastlingAvailability { w_qs: true, ..castling }
        } else if c == 107 {
            CastlingAvailability { b_ks: true, ..castling }
        } else if c == 113 {
            CastlingAvailability { b_qs: true, ..castling }
        } else {
            castling
        };
        FenState { board: Board { castling_availability: castling, ..st.board }, ..st }
    } else if st.space_counter == 3 && st.last_character_space {
        let st1 = if spec_char_to_num(c) is Some {
            FenState {
                board: Board {
                    en_passant_target_bit: Some(spec_collect_nums(bytes, i) as u8),
                    ..st.board
                },
                ..st
            }
        } else {
            st
        };
        FenState { last_character_space: false, ..st1 }
    } else if st.last_character_space {
        let num = spec_collect_nums(bytes, i) as i16;
        let st1 = if st.space_counter == 4 {
            FenState { board: Board { halfmove_clock: num, ..st.board }, ..st }
        } else if st.space_counter == 5 {
            FenState { board: Board { fullmove_number: num, ..st.board }, ..st }
        } else {
            st
        };
        FenState { last_character_space: false, ..st1 }
    } else {
        st
    }
}

/// The decoder state after the first `n` bytes of the text.
pub open spec fn spec_fen_state(bytes: Seq<u8>, n: int) -> FenState
    decreases n,
{
    if n <= 0 {
        FenState {
            bit: 7,
            row: 0,
            space_counter: 0,
            last_character_space: false,
            board: spec_empty_board(),
        }
    } else {
        spec_fen_step(spec_fen_state(bytes, n - 1), bytes, n - 1)
    }
}

/// The board with no pieces, no rights and cleared clocks, the decoder's
/// starting point.
pub open spec fn spec_is_empty_board(b: Board) -> bool {
    &&& b.white_board@ == seq![0u64, 0u64, 0u64]
    &&& b.black_board@ == seq![0u64, 0u64, 0u64]
    &&& b.white_king_bit == 0
    &&& b.black_king_bit == 0
    &&& b.piece_to_move == PieceColor::White
    &&& b.en_passant_target_bit is None
    &&& b.castling_availability == (CastlingAvailability {
        w_ks: false,
        w_qs: false,
        b_ks: false,
        b_qs: false,
    })
    &&& b.white_material == 0
    &&& b.black_material == 0
    &&& b.halfmove_clock == 0
    &&& b.fullmove_number == 1
}

/// The empty board as a value; there is exactly one board satisfying
/// `spec_is_empty_board`.
pub open spec fn spec_empty_board() -> Board {
    choose|b: Board| spec_is_empty_board(b)
}

/// The board decoded from the whole text.
pub open spec fn spec_read_fen(bytes: Seq<u8>) -> Board {
    spec_fen_state(bytes, bytes.len() as int).board
}

/// Converts an ASCII digit to its number.
fn char_to_num(c: u8) -> (r: Option<u8>)
    ensures
        r == spec_char_to_num(c),
{
    if c >= 48 && c <= 57 {
        return Some(c - 48);
    }
    None
}

/// Collects the run of digits starting at `start_index` into a number.
pub fn collect_nums(characters: &str, start_index: usize) -> (r: u32)
    ensures
        r == spec_collect_nums(characters.spec_bytes(), start_index as int),
{
    let bytes = characters.as_bytes();
    let mut output: u32 = 0;
    let mut i: usize = start_index;
    while i < bytes.len()
        invariant
            bytes@ == characters.spec_bytes(),
            start_index <= i,
            spec_collect_nums(bytes@, start_index as int) == spec_collect_from(
                bytes@,
                i as int,
                output,
            ),
        ensures
            spec_collect_nums(bytes@, start_index as int) == output,
        decreases bytes.len() - i,
    {
        if let Some(num) = char_to_num(bytes[i]) {
            if output <= 100000000 {
                output = output * 10 + num as u32;
            }
        } else {
            break ;
        }
        i += 1;
    }
    output
}

/// The white or black piece id of a layout letter.
fn piece_char_id(c: u8, white: bool) -> (r: Option<usize>)
    ensures
        r == (if white {
            spec_white_piece_id(c)
        } else {
            spec_black_piece_id(c)
        }),
        r matches Some(id) ==> id < 7,
{
    if white {
        if c == 63 {
            Some(0)
        } else if c == 80 {
            Some(1)
        } else if c == 78 {
            Some(2)
        } else if c == 66 {
            Some(3)
        } else if c == 82 {
            Some(4)
        } else if c == 81 {
            Some(5)
        } else if c == 75 {
            Some(6)
        } else {
            None
        }
    } else {
        if c == 63 {
            Some(0)
        } else if c == 112 {
            Some(1)
        } else if c == 110 {
            Some(2)
        } else if c == 98 {
            Some(3)
        } else if c == 114 {
            Some(4)
        } else if c == 113 {
            Some(5)
        } else if c == 107 {
            Some(6)
        } else {
            None
        }
    }
}

/// Creates a board from position text. The implementation is almost
/// completely standard apart from the raw en-passant square index; see the
/// module documentation for the field layout.
#[verifier::rlimit(100)]
pub fn read_fen(fen_string: &str) -> (r: Board)
    ensures
        r == spec_read_fen(fen_string.spec_bytes()),
{
    let bytes = fen_string.as_bytes();

    let mut bit: u8 = 7;
    let mut row: u8 = 0;
    let mut board = Board::empty();

    let mut space_counter: u32 = 0;

    let mut last_character_space = false;

    proof {
        assert(spec_is_empty_board(board));
        assert(spec_is_empty_board(spec_empty_board())) by {
            assert(spec_is_empty_board(board));
        }
        lemma_empty_board_unique(board, spec_empty_board());
    }

    let mut i: usize = 0;
    while i < bytes.len()
        invariant
            bytes@ == fen_string.spec_bytes(),
            i <= bytes@.len(),
            ({
                let st = spec_fen_state(bytes@, i as int);
                &&& bit == st.bit
                &&& row == st.row
                &&& space_counter == st.space_counter
                &&& last_character_space == st.last_character_space
                &&& board == st.board
            }),
        decreases bytes.len() - i,
    {
        let c = bytes[i];
        let ghost pre = spec_fen_state(bytes@, i as int);

        if c == 47 {
            // The rank separator is useless to this implementation.
            i += 1;
            continue ;
        }

        if c == 32 {
            if space_counter < 0xffffffff {
                space_counter += 1;
            }
            last_character_space = true;
            i += 1;
            continue ;
        }

        if space_counter == 0 {
            // Before any separator the text describes the board layout.
            if c == 75 {
                board.white_king_bit = bit;
            } else if c == 107 {
                board.black_king_bit = bit;
            }

            // A digit skips that many squares of the bitboard.
            let skip_number: u8 = if let Some(num) = char_to_num(c) {
                num
            } else {
                1
            };

            // Insert a black or white piece into its board array and add
            // its material value to the side's total.
            if bit < 64 {
                if let Some(piece_id) = piece_char_id(c, false) {
                    board_representation::insert_piece(bit, piece_id, &mut board.black_board);
                    board.black_material = clamp_material_add(
                        board.black_material,
                        pieces::piece_value(piece_id),
                    );
                    proof {
                        crate::turn::lemma_half_with_view(
                            spec_fen_state(bytes@, i as int).board.black_board,
                            spec_insert_piece(
                                spec_fen_state(bytes@, i as int).board.black_board@,
                                bit,
                                piece_id,
                            ),
                        );
                        assert(board.black_board =~= spec_layout_pieces(pre, c).board.black_board);
                    }
                } else if let Some(piece_id) = piece_char_id(c, true) {
                    board_representation::insert_piece(bit, piece_id, &mut board.white_board);
                    board.white_material = clamp_material_add(
                        board.white_material,
                        pieces::piece_value(piece_id),
                    );
                    proof {
                        crate::turn::lemma_half_with_view(
                            spec_fen_state(bytes@, i as int).board.white_board,
                            spec_insert_piece(
                                spec_fen_state(bytes@, i as int).board.white_board@,
                                bit,
                                piece_id,
                            ),
                        );
                        assert(board.white_board =~= spec_layout_pieces(pre, c).board.white_board);
                    }
                }
            }

            // Traverse the bitboard cursor.
            let mut step: u8 = 0;
            let ghost mid = FenState {
                bit,
                row,
                space_counter,
                last_character_space,
                board,
            };
            proof {
                let st2 = spec_layout_pieces(pre, c);
                assert(mid.board.white_board =~= st2.board.white_board);
                assert(mid.board.black_board =~= st2.board.black_board);
                assert(mid == st2);
            }
            while step < skip_number
                invariant
                    step <= skip_number,
                    ({
                        let advanced = spec_advance_by(mid, step as int);
                        &&& bit == advanced.bit
                        &&& row == advanced.row
                        &&& board == advanced.board
                        &&& space_counter == advanced.space_counter
                        &&& last_character_space == advanced.last_character_space
                    }),
                decreases skip_number - step,
            {
                if bit % 8 == 0 {
                    if row < 31 {
                        row += 1;
                        bit = row * 8 + 7;
                    } else {
                        bit = 255;
                    }
                } else {
                    bit -= 1;
                }
                step += 1;
            }
            proof {
                assert(spec_fen_state(bytes@, i as int + 1) == spec_layout_step(pre, c));
            }
        } else if space_counter == 1 {
            // One separator in, the byte names the side to move.
            if c == 119 {
                board.piece_to_move = PieceColor::White;
            } else {
                board.piece_to_move = PieceColor::Black;
            }
        } else if space_counter == 2 {
            // Two separators in, the bytes name the castling rights.
            if c == 75 {
                board.castling_availability.w_ks = true;
            } else if c == 81 {
                board.castling_availability.w_qs = true;
            } else if c == 107 {
                board.castling_availability.b_ks = true;
            } else if c == 113 {
                board.castling_availability.b_qs = true;
            }
        } else if space_counter == 3 && last_character_space {
            // Three separators in, a number names the en-passant target
            // square directly, instead of the usual algebraic pair.
            if char_to_num(c).is_some() {
                board.en_passant_target_bit = Some(collect_nums(fen_string, i) as u8);
            }
            last_character_space = false;
        } else if last_character_space {
            // The half-move and full-move clocks can hold several digits.
            let num = collect_nums(fen_string, i) as i16;

            if space_counter == 4 {
                board.halfmove_clock = num;
            } else if space_counter == 5 {
                board.fullmove_number = num;
            }
            last_character_space = false;
        }

        i += 1;
    }

    board
}

proof fn lemma_empty_board_unique(a: Board, b: Board)
    requires
        spec_is_empty_board(a),
        spec_is_empty_board(b),
    ensures
        a == b,
{
    assert(a.white_board =~= b.white_board);
    assert(a.black_board =~= b.black_board);
}

/// Adds a piece value to a material total, clamped to the i8 range.
fn clamp_material_add(total: i8, value: i8) -> (r: i8)
    requires
        0 <= value <= 9,
    ensures
        r == spec_clamp_material(total + value),
{
    let wide = total as i16 + value as i16;
    if wide > 127 {
        127
    } else {
        wide as i8
    }
}

} // verus!
