//! Identification of pieces and their movement properties. Piece ids are
//! 3-bit numbers: 0 marks an empty square and 1..6 stand for pawn, knight,
//! bishop, rook, queen and king, in that order.

use vstd::prelude::*;

use crate::direction_bitboards::{
    DirectionBitboard, black_pawn_capture_moves, black_pawn_double_moves, black_pawn_moves,
    diagonal_left, diagonal_right, horizontal_line, king_moves, knight_moves,
    spec_black_pawn_capture_moves, spec_black_pawn_double_moves, spec_black_pawn_moves,
    spec_diagonal_left, spec_diagonal_right, spec_horizontal_line, spec_king_moves,
    spec_knight_moves, spec_vertical_line, spec_white_pawn_capture_moves,
    spec_white_pawn_double_moves, spec_white_pawn_moves, vertical_line, white_pawn_capture_moves,
    white_pawn_double_moves, white_pawn_moves,
};

verus! {

pub const KING_ID: usize = 6;

pub const PAWN_ID: usize = 1;

/// Movement properties of one piece kind: its material value, whether it
/// slides along rays, its direction templates, and — for pawns — the
/// separate capture-step and double-step templates.
#[derive(Debug)]
pub struct PieceInformation {
    pub piece_value: i8,
    pub is_sliding: bool,
    pub direction_bitboards: Vec<DirectionBitboard>,
    pub pawn_capture_bitboard: Option<DirectionBitboard>,
    pub pawn_double_move_bitboard: Option<DirectionBitboard>,
}

/// Material value per piece id (index 0 is the empty-square placeholder;
/// the king carries no material value).
pub open spec fn spec_piece_value(id: int) -> i8 {
    if id == 1 {
        1i8
    } else if id == 2 || id == 3 {
        3i8
    } else if id == 4 {
        5i8
    } else if id == 5 {
        9i8
    } else {
        0i8
    }
}

/// Whether the piece id slides along rays (bishop, rook, queen).
pub open spec fn spec_is_sliding(id: int) -> bool {
    id == 3 || id == 4 || id == 5
}

/// The direction templates per piece id.
pub open spec fn spec_directions(white: bool, id: int) -> Seq<DirectionBitboard> {
    if id == 1 {
        if white {
            seq![spec_white_pawn_moves()]
        } else {
            seq![spec_black_pawn_moves()]
        }
    } else if id == 2 {
        seq![spec_knight_moves()]
    } else if id == 3 {
        seq![spec_diagonal_left(), spec_diagonal_right()]
    } else if id == 4 {
        seq![spec_horizontal_line(), spec_vertical_line()]
    } else if id == 5 {
        seq![
            spec_diagonal_left(),
            spec_diagonal_right(),
            spec_horizontal_line(),
            spec_vertical_line(),
        ]
    } else {
        seq![spec_king_moves()]
    }
}

/// The pawn capture-step template; `None` for every other piece id.
pub open spec fn spec_pawn_capture(white: bool, id: int) -> Option<DirectionBitboard> {
    if id == 1 {
        if white {
            Some(spec_white_pawn_capture_moves())
        } else {
            Some(spec_black_pawn_capture_moves())
        }
    } else {
        None
    }
}

/// The pawn double-step template; `None` for every other piece id.
pub open spec fn spec_pawn_double(white: bool, id: int) -> Option<DirectionBitboard> {
    if id == 1 {
        if white {
            Some(spec_white_pawn_double_moves())
        } else {
            Some(spec_black_pawn_double_moves())
        }
    } else {
        None
    }
}

/// The record for one piece id carries exactly the movement data of the
/// tables above.
pub open spec fn piece_information_wf(white: bool, id: int, p: PieceInformation) -> bool {
    &&& p.piece_value == spec_piece_value(id)
    &&& p.is_sliding == spec_is_sliding(id)
    &&& p.direction_bitboards@ == spec_directions(white, id)
    &&& p.pawn_capture_bitboard == spec_pawn_capture(white, id)
    &&& p.pawn_double_move_bitboard == spec_pawn_double(white, id)
}

/// A whole per-colour movement table: one record per piece id.
pub open spec fn piece_information_table_wf(white: bool, t: Seq<PieceInformation>) -> bool {
    &&& t.len() == 7
    &&& forall|id: int| 0 <= id < 7 ==> piece_information_wf(white, id, #[trigger] t[id])
}

/// The material value of a piece id, as executable code.
pub fn piece_value(id: usize) -> (r: i8)
    requires
        id < 8,
    ensures
        r == spec_piece_value(id as int),
{
    if id == 1 {
        1
    } else if id == 2 || id == 3 {
        3
    } else if id == 4 {
        5
    } else if id == 5 {
        9
    } else {
        0
    }
}

/// Builds the movement record for one piece id of one colour.
pub fn piece_information(white: bool, id: usize) -> (r: PieceInformation)
    requires
        id < 7,
    ensures
        piece_information_wf(white, id as int, r),
{
    let mut directions: Vec<DirectionBitboard> = Vec::new();
    if id == 1 {
        if white {
            directions.push(white_pawn_moves());
        } else {
            directions.push(black_pawn_moves());
        }
        proof {
            assert(directions@ =~= spec_directions(white, id as int));
        }
        return PieceInformation {
            piece_value: 1,
            is_sliding: false,
            direction_bitboards: directions,
            pawn_capture_bitboard: Some(
                if white {
                    white_pawn_capture_moves()
                } else {
                    black_pawn_capture_moves()
                },
            ),
            pawn_double_move_bitboard: Some(
                if white {
                    white_pawn_double_moves()
                } else {
                    black_pawn_double_moves()
                },
            ),
        };
    }
    if id == 2 {
        directions.push(knight_moves());
    } else if id == 3 {
        directions.push(diagonal_left());
        directions.push(diagonal_right());
    } else if id == 4 {
        directions.push(horizontal_line());
        directions.push(vertical_line());
    } else if id == 5 {
        directions.push(diagonal_left());
        directions.push(diagonal_right());
        directions.push(horizontal_line());
        directions.push(vertical_line());
    } else {
        directions.push(king_moves());
    }
    proof {
        assert(directions@ =~= spec_directions(white, id as int));
    }
    PieceInformation {
        piece_value: if id == 1 {
            1
        } else if id == 2 || id == 3 {
            3
        } else if id == 4 {
            5
        } else if id == 5 {
            9
        } else {
            0
        },
        is_sliding: id == 3 || id == 4 || id == 5,
        direction_bitboards: directions,
        pawn_capture_bitboard: None,
        pawn_double_move_bitboard: None,
    }
}

/// Builds the whole movement table for one colour, indexed by piece id.
pub fn piece_information_table(white: bool) -> (r: Vec<PieceInformation>)
    ensures
        piece_information_table_wf(white, r@),
{
    let mut table: Vec<PieceInformation> = Vec::new();
    let mut id: usize = 0;
    while id < 7
        invariant
            id <= 7,
            table@.len() == id,
            forall|j: int| 0 <= j < id ==> piece_information_wf(white, j, #[trigger] table@[j]),
        decreases 7 - id,
    {
        table.push(piece_information(white, id));
        id = id + 1;
    }
    table
}

} // verus!
