use chessbot::board_representation::{
    insert_piece, read_piece_id, remove_piece, Board, CastlingAvailability, PieceColor,
};
use chessbot::fen::{collect_nums, read_fen};

#[test]
fn test_read_piece_id() {
    assert_eq!(read_piece_id(&[0, 1 << 7, 1 << 7], 7), 6)
}

#[test]
fn test_remove_piece() {
    let mut half_board = [3, 0, 3];
    remove_piece(1, &mut half_board);

    assert_eq!(half_board, [1, 0, 1]);
}

#[test]
fn test_insert_piece() {
    let mut half_board = [0, 3, 0];
    insert_piece(1, 1, &mut half_board);

    assert_eq!(half_board, [2, 3, 0]);
}

#[test]
fn test_collect_nums() {
    assert_eq!(collect_nums("1234", 0), 1234);
    assert_eq!(collect_nums("1234 1", 1), 234);
}

#[test]
fn test_read_fen() {
    // Reading a black layout, the move clocks and the en-passant target.
    let result = read_fen("k7/8/8/8/8/8/8/8 w HAha 31 5 20");

    let mut expected = Board::empty();
    expected.black_board = [0, 1 << 7, 1 << 7];
    expected.halfmove_clock = 5;
    expected.fullmove_number = 20;
    expected.black_king_bit = 7;
    expected.en_passant_target_bit = Some(31);

    assert_eq!(result, expected);

    // Reading a layout with both sides.
    let result = read_fen("7p/8/8/2B5/8/5P2/8/8 b Kq - 0 1");

    let mut expected = Board::empty();
    expected.castling_availability = CastlingAvailability {
        w_ks: true,
        w_qs: false,
        b_ks: false,
        b_qs: true,
    };

    expected.white_board = [1 << 29 | 1 << 42, 1 << 29, 0];
    expected.black_board = [1, 0, 0];
    expected.piece_to_move = PieceColor::Black;
    expected.white_material = 4;
    expected.black_material = 1;

    assert_eq!(result, expected);
}

#[test]
fn test_new_board_is_wf() {
    // The starting position satisfies the board invariant: consistent ids,
    // disjoint occupancies, cached kings and material sums.
    assert!(chessbot::board_representation::board_is_wf(&Board::new()));
}

#[test]
fn test_board_materials_follow_pieces() {
    let board = Board::new();
    assert_eq!(board.white_material, 39);
    assert_eq!(board.black_material, 39);

    // A side with an extra queen carries its value; seventeen pieces on
    // one side also exceed the board invariant's piece bound.
    let board = read_fen("rnbqkbnr/pppppppp/8/8/2Q5/8/PPPPPPPP/RNBQKBNR w KQkq - 0 1");
    assert_eq!(board.white_material, 48);
    assert!(!chessbot::board_representation::board_is_wf(&board));

    // A sparse but legal-shaped position satisfies the invariant.
    let board = read_fen("7k/6pp/8/1r6/6b1/8/8/K7 b - - 0 1");
    assert!(chessbot::board_representation::board_is_wf(&board));
}
