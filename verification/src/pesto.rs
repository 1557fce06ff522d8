//! The leaf evaluator's piece-square data: midgame and endgame tables per
//! piece id, stored as one 64-bit word per table rank with one signed byte
//! per entry. The values follow the common PeSTO evaluation tables,
//! clamped to the signed 8-bit range; the entries are data, not design.
//!
//! Table indices run 0..63 from white's perspective; a square is converted
//! to an index by mirroring its file, and black's lookups invert the index.

use vstd::prelude::*;

use crate::bitboard_manipulation::{byte_of, get_piece_coordinates, isolate_byte};
use crate::board_representation::{Board, PieceColor, read_piece_id, spec_piece_id};

verus! {

pub const MG_PAWN_ROW_0: u64 = 0x0000000000000000;

pub const MG_PAWN_ROW_1: u64 = 0xf5227e445f3d7f62;

pub const MG_PAWN_ROW_2: u64 = 0xec1938411f1a07fa;

pub const MG_PAWN_ROW_3: u64 = 0xe9110c1715060df2;

pub const MG_PAWN_ROW_4: u64 = 0xe70a06110cfbfee5;

pub const MG_PAWN_ROW_5: u64 = 0xf4210303f6fcfce6;

pub const MG_PAWN_ROW_6: u64 = 0xea2618f1e9ecffdd;

pub const MG_PAWN_ROW_7: u64 = 0x0000000000000000;

pub const EG_PAWN_ROW_0: u64 = 0x0000000000000000;

pub const EG_PAWN_ROW_1: u64 = 0x7f7f7f7f7f7f7f7f;

pub const EG_PAWN_ROW_2: u64 = 0x545235384355645e;

pub const EG_PAWN_ROW_3: u64 = 0x111104fe050d1820;

pub const EG_PAWN_ROW_4: u64 = 0xff03f8f9f9fd090d;

pub const EG_PAWN_ROW_5: u64 = 0xf8fffb0001fa0704;

pub const EG_PAWN_ROW_6: u64 = 0xf902000d0a08080d;

pub const EG_PAWN_ROW_7: u64 = 0x0000000000000000;

pub const MG_KNIGHT_ROW_0: u64 = 0x95f19f3dcfdea780;

pub const MG_KNIGHT_ROW_1: u64 = 0xef073e172448d7b7;

pub const MG_KNIGHT_ROW_2: u64 = 0x2c497f5441253cd1;

pub const MG_KNIGHT_ROW_3: u64 = 0x16124525351311f7;

pub const MG_KNIGHT_ROW_4: u64 = 0xf815131c0d1004f3;

pub const MG_KNIGHT_ROW_5: u64 = 0xf01911130a0cf7e9;

pub const MG_KNIGHT_ROW_6: u64 = 0xedf212fffdf4cbe3;

pub const MG_KNIGHT_ROW_7: u64 = 0xe9ede4efdfc6eb97;

pub const EG_KNIGHT_ROW_0: u64 = 0x9dc1e5e1e4f3dac6;

pub const EG_KNIGHT_ROW_1: u64 = 0xcce8e7f7fee7f8e7;

pub const EG_KNIGHT_ROW_2: u64 = 0xd7edf7ff090aece8;

pub const EG_KNIGHT_ROW_3: u64 = 0xee080b16161603ef;

pub const EG_KNIGHT_ROW_4: u64 = 0xee0411101910faee;

pub const EG_KNIGHT_ROW_5: u64 = 0xeaecfd0a0ffffde9;

pub const EG_KNIGHT_ROW_6: u64 = 0xd4e9ecfefbf6ecd6;

pub const EG_KNIGHT_ROW_7: u64 = 0xc0ceeeeaf1e9cde3;

pub const MG_BISHOP_ROW_0: u64 = 0xf807d6e7dbae04e3;

pub const MG_BISHOP_ROW_1: u64 = 0xd1123b1ef3ee10e6;

pub const MG_BISHOP_ROW_2: u64 = 0xfe253223282b25f0;

pub const MG_BISHOP_ROW_3: u64 = 0xfe072525321305fc;

pub const MG_BISHOP_ROW_4: u64 = 0x040a0c221a0d0dfa;

pub const MG_BISHOP_ROW_5: u64 = 0x0a121b0e0f0f0f00;

pub const MG_BISHOP_ROW_6: u64 = 0x0121150700100f04;

pub const MG_BISHOP_ROW_7: u64 = 0xebd9f4f3ebf2fddf;

pub const EG_BISHOP_ROW_0: u64 = 0xe8eff7f9f8f5ebf2;

pub const EG_BISHOP_ROW_1: u64 = 0xf2fcf3fdf407fcf8;

pub const EG_BISHOP_ROW_2: u64 = 0x040006feff00f802;

pub const EG_BISHOP_ROW_3: u64 = 0x02030a0e090c09fd;

pub const EG_BISHOP_ROW_4: u64 = 0xf7fd0a07130d03fa;

pub const EG_BISHOP_ROW_5: u64 = 0xf1f9030d0a08fdf4;

pub const EG_BISHOP_ROW_6: u64 = 0xe5f1f704fff9eef2;

pub const EG_BISHOP_ROW_7: u64 = 0xeffbf0f7fbe9f7e9;

pub const MG_ROOK_ROW_0: u64 = 0x2b1f093f33202a20;

pub const MG_ROOK_ROW_1: u64 = 0x2c1a43503e3a201b;

pub const MG_ROOK_ROW_2: u64 = 0x103d2d11241a13fb;

pub const MG_ROOK_ROW_3: u64 = 0xecf823181a07f5e8;

pub const MG_ROOK_ROW_4: u64 = 0xe906f909fff4e6dc;

pub const MG_ROOK_ROW_5: u64 = 0xdffb0003eff0e7d3;

pub const MG_ROOK_ROW_6: u64 = 0xb9fa0bfff7ecf0d4;

pub const MG_ROOK_ROW_7: u64 = 0xe6db07101101f3ed;

pub const EG_ROOK_ROW_0: u64 = 0x05080c0c0f120a0d;

pub const EG_ROOK_ROW_1: u64 = 0x030803fd0b0d0d0b;

pub const EG_ROOK_ROW_2: u64 = 0xfdfbfd0405070707;

pub const EG_ROOK_ROW_3: u64 = 0x02ff0102010d0304;

pub const EG_ROOK_ROW_4: u64 = 0xf5f8fafb04080503;

pub const EG_ROOK_ROW_5: u64 = 0xf0f8f4f9fffb00fc;

pub const EG_ROOK_ROW_6: u64 = 0xfdf5f7f70200fafa;

pub const EG_ROOK_ROW_7: u64 = 0xec04f3fbff0302f7;

pub const MG_QUEEN_ROW_0: u64 = 0x2d2b2c3b0c1d00e4;

pub const MG_QUEEN_ROW_1: u64 = 0x361c39f001fbd9e8;

pub const MG_QUEEN_ROW_2: u64 = 0x392f381d0807eff3;

pub const MG_QUEEN_ROW_3: u64 = 0x01fe11fff0f0e5e5;

pub const MG_QUEEN_ROW_4: u64 = 0xfd03fcfef6f7e6f7;

pub const MG_QUEEN_ROW_5: u64 = 0x050e02fbfef502f2;

pub const MG_QUEEN_ROW_6: u64 = 0x01fd0f08020bf8dd;

pub const MG_QUEEN_ROW_7: u64 = 0xcee1e7f10af7eeff;

pub const EG_QUEEN_ROW_0: u64 = 0x140a131b1b1616f7;

pub const EG_QUEEN_ROW_1: u64 = 0x001e193a292014ef;

pub const EG_QUEEN_ROW_2: u64 = 0x0913232f310906ec;

pub const EG_QUEEN_ROW_3: u64 = 0x243928392d181603;

pub const EG_QUEEN_ROW_4: u64 = 0x1727221f2f131cee;

pub const EG_QUEEN_ROW_5: u64 = 0x050a1109060fe5f0;

pub const EG_QUEEN_ROW_6: u64 = 0xe0dce9f0f0e2e9ea;

pub const EG_QUEEN_ROW_7: u64 = 0xd7ece0fbd5eae4df;

pub const MG_KING_ROW_0: u64 = 0x0d02dec8f11017bf;

pub const MG_KING_ROW_1: u64 = 0xe3dafcf8f9ecff1d;

pub const MG_KING_ROW_2: u64 = 0xea1606ecf00218f7;

pub const MG_KING_ROW_3: u64 = 0xdcf2e7e2e5f4ecef;

pub const MG_KING_ROW_4: u64 = 0xcddfd4d2d9e5ffcf;

pub const MG_KING_ROW_5: u64 = 0xe5f1e2d4d2eaf2f2;

pub const MG_KING_ROW_6: u64 = 0x0809f0d5c0f80701;

pub const MG_KING_ROW_7: u64 = 0x0e18e408ca0c24f1;

pub const EG_KING_ROW_0: u64 = 0xef040ff5eeeeddb6;

pub const EG_KING_ROW_1: u64 = 0x0b172611110e11f4;

pub const EG_KING_ROW_2: u64 = 0x0d2c2d140f17110a;

pub const EG_KING_ROW_3: u64 = 0x031a211a1b1816f8;

pub const EG_KING_ROW_4: u64 = 0xf509171b1815fcee;

pub const EG_KING_ROW_5: u64 = 0xf7071017150bfded;

pub const EG_KING_ROW_6: u64 = 0xeffb040e0d04f5e5;

pub const EG_KING_ROW_7: u64 = 0xd5e8f2e4f5ebdecb;

/// The packed table rank for one phase, piece id and rank; zero for the
/// empty-square id and out-of-range arguments.
pub open spec fn spec_table_row(midgame: bool, id: int, row: int) -> u64 {
    if midgame {
        if id == 1 {
    if row == 0 {
        MG_PAWN_ROW_0
    } else if row == 1 {
        MG_PAWN_ROW_1
    } else if row == 2 {
        MG_PAWN_ROW_2
    } else if row == 3 {
        MG_PAWN_ROW_3
    } else if row == 4 {
        MG_PAWN_ROW_4
    } else if row == 5 {
        MG_PAWN_ROW_5
    } else if row == 6 {
        MG_PAWN_ROW_6
    } else if row == 7 {
        MG_PAWN_ROW_7
    } else {
        0u64
    }
} else if id == 2 {
    if row == 0 {
        MG_KNIGHT_ROW_0
    } else if row == 1 {
        MG_KNIGHT_ROW_1
    } else if row == 2 {
        MG_KNIGHT_ROW_2
    } else if row == 3 {
        MG_KNIGHT_ROW_3
    } else if row == 4 {
        MG_KNIGHT_ROW_4
    } else if row == 5 {
        MG_KNIGHT_ROW_5
    } else if row == 6 {
        MG_KNIGHT_ROW_6
    } else if row == 7 {
        MG_KNIGHT_ROW_7
    } else {
        0u64
    }
} else if id == 3 {
    if row == 0 {
        MG_BISHOP_ROW_0
    } else if row == 1 {
        MG_BISHOP_ROW_1
    } else if row == 2 {
        MG_BISHOP_ROW_2
    } else if row == 3 {
        MG_BISHOP_ROW_3
    } else if row == 4 {
        MG_BISHOP_ROW_4
    } else if row == 5 {
        MG_BISHOP_ROW_5
    } else if row == 6 {
        MG_BISHOP_ROW_6
    } else if row == 7 {
        MG_BISHOP_ROW_7
    } else {
        0u64
    }
} else if id == 4 {
    if row == 0 {
        MG_ROOK_ROW_0
    } else if row == 1 {
        MG_ROOK_ROW_1
    } else if row == 2 {
        MG_ROOK_ROW_2
    } else if row == 3 {
        MG_ROOK_ROW_3
    } else if row == 4 {
        MG_ROOK_ROW_4
    } else if row == 5 {
        MG_ROOK_ROW_5
    } else if row == 6 {
        MG_ROOK_ROW_6
    } else if row == 7 {
        MG_ROOK_ROW_7
    } else {
        0u64
    }
} else if id == 5 {
    if row == 0 {
        MG_QUEEN_ROW_0
    } else if row == 1 {
        MG_QUEEN_ROW_1
    } else if row == 2 {
        MG_QUEEN_ROW_2
    } else if row == 3 {
        MG_QUEEN_ROW_3
    } else if row == 4 {
        MG_QUEEN_ROW_4
    } else if row == 5 {
        MG_QUEEN_ROW_5
    } else if row == 6 {
        MG_QUEEN_ROW_6
    } else if row == 7 {
        MG_QUEEN_ROW_7
    } else {
        0u64
    }
} else if id == 6 {
    if row == 0 {
        MG_KING_ROW_0
    } else if row == 1 {
        MG_KING_ROW_1
    } else if row == 2 {
        MG_KING_ROW_2
    } else if row == 3 {
        MG_KING_ROW_3
    } else if row == 4 {
        MG_KING_ROW_4
    } else if row == 5 {
        MG_KING_ROW_5
    } else if row == 6 {
        MG_KING_ROW_6
    } else if row == 7 {
        MG_KING_ROW_7
    } else {
        0u64
    }
} else {
    0u64
}
    } else {
        if id == 1 {
    if row == 0 {
        EG_PAWN_ROW_0
    } else if row == 1 {
        EG_PAWN_ROW_1
    } else if row == 2 {
        EG_PAWN_ROW_2
    } else if row == 3 {
        EG_PAWN_ROW_3
    } else if row == 4 {
        EG_PAWN_ROW_4
    } else if row == 5 {
        EG_PAWN_ROW_5
    } else if row == 6 {
        EG_PAWN_ROW_6
    } else if row == 7 {
        EG_PAWN_ROW_7
    } else {
        0u64
    }
} else if id == 2 {
    if row == 0 {
        EG_KNIGHT_ROW_0
    } else if row == 1 {
        EG_KNIGHT_ROW_1
    } else if row == 2 {
        EG_KNIGHT_ROW_2
    } else if row == 3 {
        EG_KNIGHT_ROW_3
    } else if row == 4 {
        EG_KNIGHT_ROW_4
    } else if row == 5 {
        EG_KNIGHT_ROW_5
    } else if row == 6 {
        EG_KNIGHT_ROW_6
    } else if row == 7 {
        EG_KNIGHT_ROW_7
    } else {
        0u64
    }
} else if id == 3 {
    if row == 0 {
        EG_BISHOP_ROW_0
    } else if row == 1 {
        EG_BISHOP_ROW_1
    } else if row == 2 {
        EG_BISHOP_ROW_2
    } else if row == 3 {
        EG_BISHOP_ROW_3
    } else if row == 4 {
        EG_BISHOP_ROW_4
    } else if row == 5 {
        EG_BISHOP_ROW_5
    } else if row == 6 {
        EG_BISHOP_ROW_6
    } else if row == 7 {
        EG_BISHOP_ROW_7
    } else {
        0u64
    }
} else if id == 4 {
    if row == 0 {
        EG_ROOK_ROW_0
    } else if row == 1 {
        EG_ROOK_ROW_1
    } else if row == 2 {
        EG_ROOK_ROW_2
    } else if row == 3 {
        EG_ROOK_ROW_3
    } else if row == 4 {
        EG_ROOK_ROW_4
    } else if row == 5 {
        EG_ROOK_ROW_5
    } else if row == 6 {
        EG_ROOK_ROW_6
    } else if row == 7 {
        EG_ROOK_ROW_7
    } else {
        0u64
    }
} else if id == 5 {
    if row == 0 {
        EG_QUEEN_ROW_0
    } else if row == 1 {
        EG_QUEEN_ROW_1
    } else if row == 2 {
        EG_QUEEN_ROW_2
    } else if row == 3 {
        EG_QUEEN_ROW_3
    } else if row == 4 {
        EG_QUEEN_ROW_4
    } else if row == 5 {
        EG_QUEEN_ROW_5
    } else if row == 6 {
        EG_QUEEN_ROW_6
    } else if row == 7 {
        EG_QUEEN_ROW_7
    } else {
        0u64
    }
} else if id == 6 {
    if row == 0 {
        EG_KING_ROW_0
    } else if row == 1 {
        EG_KING_ROW_1
    } else if row == 2 {
        EG_KING_ROW_2
    } else if row == 3 {
        EG_KING_ROW_3
    } else if row == 4 {
        EG_KING_ROW_4
    } else if row == 5 {
        EG_KING_ROW_5
    } else if row == 6 {
        EG_KING_ROW_6
    } else if row == 7 {
        EG_KING_ROW_7
    } else {
        0u64
    }
} else {
    0u64
}
    }
}

/// One signed table entry: the byte of the packed rank, read as a signed
/// 8-bit value.
pub open spec fn spec_table_entry(midgame: bool, id: int, index: int) -> int {
    let b = byte_of(spec_table_row(midgame, id, index / 8), index % 8) as int;
    if b < 128 {
        b
    } else {
        b - 256
    }
}

/// The table index of a square: the file is mirrored, the rank is kept.
pub open spec fn spec_convert_bit_to_index(bit: u8) -> int {
    (7 - (bit as int) % 8) + 8 * ((bit as int) / 8)
}

/// Converts a board square to a piece-square-table index.
pub fn convert_bit_to_index(bit: u8) -> (r: usize)
    requires
        bit < 64,
    ensures
        r == spec_convert_bit_to_index(bit),
        r < 64,
{
    let (column, row) = get_piece_coordinates(bit);
    ((7 - column) + (row * 8)) as usize
}

/// Mirrors a table index so the white-oriented tables serve black: index
/// `i` becomes `63 - i`.
pub fn invert_index(index: usize) -> (r: usize)
    requires
        index < 64,
    ensures
        r == 63 - index,
{
    63 - index
}

/// Reads one signed entry of a piece-square table.
pub fn get_table_entry(midgame: bool, id: usize, index: usize) -> (r: i16)
    requires
        id < 7,
        index < 64,
    ensures
        r == spec_table_entry(midgame, id as int, index as int),
        -128 <= r < 128,
{
    let row_word = table_row(midgame, id, index / 8);
    let byte = isolate_byte(&row_word, (index % 8) as u8);
    if byte < 128 {
        byte as i16
    } else {
        byte as i16 - 256
    }
}

fn table_row(midgame: bool, id: usize, row: usize) -> (r: u64)
    requires
        id < 7,
        row < 8,
    ensures
        r == spec_table_row(midgame, id as int, row as int),
{
    if midgame {
        if id == 1 {
    if row == 0 {
        MG_PAWN_ROW_0
    } else if row == 1 {
        MG_PAWN_ROW_1
    } else if row == 2 {
        MG_PAWN_ROW_2
    } else if row == 3 {
        MG_PAWN_ROW_3
    } else if row == 4 {
        MG_PAWN_ROW_4
    } else if row == 5 {
        MG_PAWN_ROW_5
    } else if row == 6 {
        MG_PAWN_ROW_6
    } else if row == 7 {
        MG_PAWN_ROW_7
    } else {
        0u64
    }
} else if id == 2 {
    if row == 0 {
        MG_KNIGHT_ROW_0
    } else if row == 1 {
        MG_KNIGHT_ROW_1
    } else if row == 2 {
        MG_KNIGHT_ROW_2
    } else if row == 3 {
        MG_KNIGHT_ROW_3
    } else if row == 4 {
        MG_KNIGHT_ROW_4
    } else if row == 5 {
        MG_KNIGHT_ROW_5
    } else if row == 6 {
        MG_KNIGHT_ROW_6
    } else if row == 7 {
        MG_KNIGHT_ROW_7
    } else {
        0u64
    }
} else if id == 3 {
    if row == 0 {
        MG_BISHOP_ROW_0
    } else if row == 1 {
        MG_BISHOP_ROW_1
    } else if row == 2 {
        MG_BISHOP_ROW_2
    } else if row == 3 {
        MG_BISHOP_ROW_3
    } else if row == 4 {
        MG_BISHOP_ROW_4
    } else if row == 5 {
        MG_BISHOP_ROW_5
    } else if row == 6 {
        MG_BISHOP_ROW_6
    } else if row == 7 {
        MG_BISHOP_ROW_7
    } else {
        0u64
    }
} else if id == 4 {
    if row == 0 {
        MG_ROOK_ROW_0
    } else if row == 1 {
        MG_ROOK_ROW_1
    } else if row == 2 {
        MG_ROOK_ROW_2
    } else if row == 3 {
        MG_ROOK_ROW_3
    } else if row == 4 {
        MG_ROOK_ROW_4
    } else if row == 5 {
        MG_ROOK_ROW_5
    } else if row == 6 {
        MG_ROOK_ROW_6
    } else if row == 7 {
        MG_ROOK_ROW_7
    } else {
        0u64
    }
} else if id == 5 {
    if row == 0 {
        MG_QUEEN_ROW_0
    } else if row == 1 {
        MG_QUEEN_ROW_1
    } else if row == 2 {
        MG_QUEEN_ROW_2
    } else if row == 3 {
        MG_QUEEN_ROW_3
    } else if row == 4 {
        MG_QUEEN_ROW_4
    } else if row == 5 {
        MG_QUEEN_ROW_5
    } else if row == 6 {
        MG_QUEEN_ROW_6
    } else if row == 7 {
        MG_QUEEN_ROW_7
    } else {
        0u64
    }
} else if id == 6 {
    if row == 0 {
        MG_KING_ROW_0
    } else if row == 1 {
        MG_KING_ROW_1
    } else if row == 2 {
        MG_KING_ROW_2
    } else if row == 3 {
        MG_KING_ROW_3
    } else if row == 4 {
        MG_KING_ROW_4
    } else if row == 5 {
        MG_KING_ROW_5
    } else if row == 6 {
        MG_KING_ROW_6
    } else if row == 7 {
        MG_KING_ROW_7
    } else {
        0u64
    }
} else {
    0u64
}
    } else {
        if id == 1 {
    if row == 0 {
        EG_PAWN_ROW_0
    } else if row == 1 {
        EG_PAWN_ROW_1
    } else if row == 2 {
        EG_PAWN_ROW_2
    } else if row == 3 {
        EG_PAWN_ROW_3
    } else if row == 4 {
        EG_PAWN_ROW_4
    } else if row == 5 {
        EG_PAWN_ROW_5
    } else if row == 6 {
        EG_PAWN_ROW_6
    } else if row == 7 {
        EG_PAWN_ROW_7
    } else {
        0u64
    }
} else if id == 2 {
    if row == 0 {
        EG_KNIGHT_ROW_0
    } else if row == 1 {
        EG_KNIGHT_ROW_1
    } else if row == 2 {
        EG_KNIGHT_ROW_2
    } else if row == 3 {
        EG_KNIGHT_ROW_3
    } else if row == 4 {
        EG_KNIGHT_ROW_4
    } else if row == 5 {
        EG_KNIGHT_ROW_5
    } else if row == 6 {
        EG_KNIGHT_ROW_6
    } else if row == 7 {
        EG_KNIGHT_ROW_7
    } else {
        0u64
    }
} else if id == 3 {
    if row == 0 {
        EG_BISHOP_ROW_0
    } else if row == 1 {
        EG_BISHOP_ROW_1
    } else if row == 2 {
        EG_BISHOP_ROW_2
    } else if row == 3 {
        EG_BISHOP_ROW_3
    } else if row == 4 {
        EG_BISHOP_ROW_4
    } else if row == 5 {
        EG_BISHOP_ROW_5
    } else if row == 6 {
        EG_BISHOP_ROW_6
    } else if row == 7 {
        EG_BISHOP_ROW_7
    } else {
        0u64
    }
} else if id == 4 {
    if row == 0 {
        EG_ROOK_ROW_0
    } else if row == 1 {
        EG_ROOK_ROW_1
    } else if row == 2 {
        EG_ROOK_ROW_2
    } else if row == 3 {
        EG_ROOK_ROW_3
    } else if row == 4 {
        EG_ROOK_ROW_4
    } else if row == 5 {
        EG_ROOK_ROW_5
    } else if row == 6 {
        EG_ROOK_ROW_6
    } else if row == 7 {
        EG_ROOK_ROW_7
    } else {
        0u64
    }
} else if id == 5 {
    if row == 0 {
        EG_QUEEN_ROW_0
    } else if row == 1 {
        EG_QUEEN_ROW_1
    } else if row == 2 {
        EG_QUEEN_ROW_2
    } else if row == 3 {
        EG_QUEEN_ROW_3
    } else if row == 4 {
        EG_QUEEN_ROW_4
    } else if row == 5 {
        EG_QUEEN_ROW_5
    } else if row == 6 {
        EG_QUEEN_ROW_6
    } else if row == 7 {
        EG_QUEEN_ROW_7
    } else {
        0u64
    }
} else if id == 6 {
    if row == 0 {
        EG_KING_ROW_0
    } else if row == 1 {
        EG_KING_ROW_1
    } else if row == 2 {
        EG_KING_ROW_2
    } else if row == 3 {
        EG_KING_ROW_3
    } else if row == 4 {
        EG_KING_ROW_4
    } else if row == 5 {
        EG_KING_ROW_5
    } else if row == 6 {
        EG_KING_ROW_6
    } else if row == 7 {
        EG_KING_ROW_7
    } else {
        0u64
    }
} else {
    0u64
}
    }
}

/// The summed table entries of one side over its first `n` squares, with
/// empty squares contributing nothing and black reading the tables through
/// the inverted index.
pub open spec fn spec_table_total(
    midgame: bool,
    half: Seq<u64>,
    invert: bool,
    n: int,
) -> int
    decreases n,
{
    if n <= 0 {
        0
    } else {
        let bit = (n - 1) as u8;
        let id = spec_piece_id(half, bit);
        let here = if id == 0 {
            0
        } else {
            let index = if invert {
                63 - spec_convert_bit_to_index(bit)
            } else {
                spec_convert_bit_to_index(bit)
            };
            spec_table_entry(midgame, id, index)
        };
        spec_table_total(midgame, half, invert, n - 1) + here
    }
}

/// Sums a side's piece-square values for one phase. The tables are
/// white-oriented, so black sums through the inverted index.
pub fn table_total(midgame: bool, half_board: &[u64; 3], invert: bool) -> (r: i32)
    requires
        forall|b: u8| b < 64 ==> spec_piece_id(half_board@, b) != 7,
    ensures
        r == spec_table_total(midgame, half_board@, invert, 64),
        -8192 <= r <= 8192,
{
    let mut total: i32 = 0;
    let mut bit: u8 = 0;
    while bit < 64
        invariant
            bit <= 64,
            forall|b: u8| b < 64 ==> spec_piece_id(half_board@, b) != 7,
            total == spec_table_total(midgame, half_board@, invert, bit as int),
            -128 * (bit as i32) <= total <= 128 * (bit as i32),
        decreases 64 - bit,
    {
        let id = read_piece_id(half_board, bit);
        proof {
            assert(spec_piece_id(half_board@, bit) != 7);
        }
        if id != 0 {
            let index = convert_bit_to_index(bit);
            let index = if invert {
                invert_index(index)
            } else {
                index
            };
            total = total + get_table_entry(midgame, id, index) as i32;
        }
        bit += 1;
    }
    total
}

} // verus!
