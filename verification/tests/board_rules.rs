use xiangqi_engine::piece::{Color, Piece, PieceType};
use xiangqi_engine::position::Position;
use xiangqi_engine::Board;

fn vacant() -> Piece {
    Piece { piece_type: PieceType::Vacant, color: Color::Neutral }
}

fn pc(t: PieceType, c: Color) -> Piece {
    Piece { piece_type: t, color: c }
}

fn clear_board(board: &mut Board) {
    for x in 0..9u8 {
        for y in 0..10u8 {
            board.set_piece(Position::new(x, y), vacant());
        }
    }
}

fn grids_equal(a: &Board, b: &Board) -> bool {
    for x in 0..9u8 {
        for y in 0..10u8 {
            if a.get_piece(Position::new(x, y)) != b.get_piece(Position::new(x, y)) {
                return false;
            }
        }
    }
    true
}

#[test]
fn initial_layout_pieces() {
    let board = Board::new();
    assert_eq!(board.get_piece(Position::new(4, 0)), pc(PieceType::King, Color::Red));
    assert_eq!(board.get_piece(Position::new(4, 9)), pc(PieceType::King, Color::Black));
    assert_eq!(board.get_piece(Position::new(0, 0)), pc(PieceType::Chariot, Color::Red));
    assert_eq!(board.get_piece(Position::new(1, 2)), pc(PieceType::Cannon, Color::Red));
    assert_eq!(board.get_piece(Position::new(0, 3)), pc(PieceType::Pawn, Color::Red));
    assert_eq!(board.get_piece(Position::new(7, 7)), pc(PieceType::Cannon, Color::Black));
    assert_eq!(board.get_piece(Position::new(4, 4)), vacant());
    assert_eq!(board.find_king(Color::Red), Some(Position::new(4, 0)));
    assert_eq!(board.find_king(Color::Black), Some(Position::new(4, 9)));
}

#[test]
fn incremental_hash_agrees_with_recomputation() {
    // make_move maintains the hash incrementally; set_piece recomputes it
    // from scratch. Writing back the square a move emptied must therefore
    // meet the incrementally updated value exactly.
    let mut board = Board::new();
    board.make_move(Position::new(1, 0), Position::new(2, 2));
    let incremental = board.get_hash();
    // a full recomputation is forced by an identity write
    let piece = board.get_piece(Position::new(2, 2));
    board.set_piece(Position::new(2, 2), piece);
    assert_eq!(board.get_hash(), incremental);
}

#[test]
fn hash_returns_after_move_and_return() {
    let mut board = Board::new();
    let h0 = board.get_hash();
    board.make_move(Position::new(1, 0), Position::new(2, 2));
    assert_ne!(board.get_hash(), h0);
    board.make_move(Position::new(2, 2), Position::new(1, 0));
    assert_eq!(board.get_hash(), h0);
}

#[test]
fn is_move_safe_leaves_board_untouched() {
    let mut board = Board::new();
    let reference = Board::new();
    let h0 = board.get_hash();

    // an accepted candidate
    assert!(board.is_move_safe(Position::new(1, 0), Position::new(2, 2), Color::Red));
    assert_eq!(board.get_hash(), h0);
    assert_eq!(board.find_king(Color::Red), reference.find_king(Color::Red));
    assert_eq!(board.find_king(Color::Black), reference.find_king(Color::Black));
    for x in 0..9u8 {
        for y in 0..10u8 {
            let p = Position::new(x, y);
            assert_eq!(board.get_piece(p), reference.get_piece(p));
        }
    }

    // a rejected candidate
    assert!(!board.is_move_safe(Position::new(0, 0), Position::new(0, 4), Color::Red));
    assert_eq!(board.get_hash(), h0);
    for x in 0..9u8 {
        for y in 0..10u8 {
            let p = Position::new(x, y);
            assert_eq!(board.get_piece(p), reference.get_piece(p));
        }
    }
}

#[test]
fn elephant_needs_empty_eye() {
    let mut board = Board::new();
    assert!(board.is_move_valid(Position::new(2, 0), Position::new(4, 2), Color::Red));
    board.set_piece(Position::new(3, 1), pc(PieceType::Pawn, Color::Red));
    assert!(!board.is_move_valid(Position::new(2, 0), Position::new(4, 2), Color::Red));
}

#[test]
fn elephant_cannot_cross_river() {
    let mut board = Board::new();
    clear_board(&mut board);
    board.set_piece(Position::new(2, 4), pc(PieceType::Elephant, Color::Red));
    assert!(!board.is_move_valid(Position::new(2, 4), Position::new(4, 6), Color::Red));
    assert!(board.is_move_valid(Position::new(2, 4), Position::new(4, 2), Color::Red));
}

#[test]
fn cannon_capture_needs_exactly_one_screen() {
    let mut board = Board::new();
    clear_board(&mut board);
    board.set_piece(Position::new(1, 2), pc(PieceType::Cannon, Color::Red));
    board.set_piece(Position::new(1, 9), pc(PieceType::Horse, Color::Black));

    // zero pieces between: no capture
    assert!(!board.is_move_valid(Position::new(1, 2), Position::new(1, 9), Color::Red));

    // exactly one screen: capture is legal
    board.set_piece(Position::new(1, 7), pc(PieceType::Cannon, Color::Black));
    assert!(board.is_move_valid(Position::new(1, 2), Position::new(1, 9), Color::Red));

    // two pieces between: illegal again
    board.set_piece(Position::new(1, 5), pc(PieceType::Pawn, Color::Black));
    assert!(!board.is_move_valid(Position::new(1, 2), Position::new(1, 9), Color::Red));
}

#[test]
fn cannon_plain_move_needs_clear_path() {
    let board = Board::new();
    // rank 2 is empty between the cannon and (4,2)
    assert!(board.is_move_valid(Position::new(1, 2), Position::new(4, 2), Color::Red));
    // the pawn at (0,3) stands between the cannon and (1,9)? no — file 1 has
    // the screen at (1,7): a plain move onto an empty square over a screen
    // is illegal.
    assert!(!board.is_move_valid(Position::new(1, 2), Position::new(1, 8), Color::Red));
}

#[test]
fn horse_needs_empty_leg() {
    let mut board = Board::new();
    assert!(board.is_move_valid(Position::new(1, 0), Position::new(2, 2), Color::Red));
    board.set_piece(Position::new(1, 1), pc(PieceType::Pawn, Color::Red));
    assert!(!board.is_move_valid(Position::new(1, 0), Position::new(2, 2), Color::Red));
}

#[test]
fn chariot_blocked_by_pawn() {
    let board = Board::new();
    // (0,3) holds a friendly pawn: same-color destination
    assert!(!board.is_move_valid(Position::new(0, 0), Position::new(0, 3), Color::Red));
    // the pawn blocks the path to (0,4)
    assert!(!board.is_move_valid(Position::new(0, 0), Position::new(0, 4), Color::Red));
    // one step up the empty file is fine
    assert!(board.is_move_valid(Position::new(0, 0), Position::new(0, 1), Color::Red));
}

#[test]
fn king_and_advisor_stay_in_palace() {
    let mut board = Board::new();
    clear_board(&mut board);
    board.set_piece(Position::new(4, 0), pc(PieceType::King, Color::Red));
    board.set_piece(Position::new(3, 0), pc(PieceType::Advisor, Color::Red));
    board.set_piece(Position::new(4, 9), pc(PieceType::King, Color::Black));

    assert!(board.is_move_valid(Position::new(4, 0), Position::new(4, 1), Color::Red));
    assert!(!board.is_move_valid(Position::new(4, 0), Position::new(4, 3), Color::Red));
    assert!(board.is_move_valid(Position::new(3, 0), Position::new(4, 1), Color::Red));
    assert!(!board.is_move_valid(Position::new(3, 0), Position::new(2, 1), Color::Red));

    // the Black palace works too: its squares lie past bit 63 of the masks
    assert!(board.is_move_valid(Position::new(4, 9), Position::new(4, 8), Color::Black));
    assert!(!board.is_move_valid(Position::new(4, 9), Position::new(4, 6), Color::Black));
}

#[test]
fn pawn_moves_forward_then_sideways_after_river() {
    let mut board = Board::new();
    assert!(board.is_move_valid(Position::new(0, 3), Position::new(0, 4), Color::Red));
    assert!(!board.is_move_valid(Position::new(0, 3), Position::new(1, 3), Color::Red));
    assert!(!board.is_move_valid(Position::new(0, 3), Position::new(0, 2), Color::Red));

    clear_board(&mut board);
    board.set_piece(Position::new(4, 5), pc(PieceType::Pawn, Color::Red));
    assert!(board.is_move_valid(Position::new(4, 5), Position::new(3, 5), Color::Red));
    assert!(board.is_move_valid(Position::new(4, 5), Position::new(4, 6), Color::Red));
    assert!(!board.is_move_valid(Position::new(4, 5), Position::new(4, 4), Color::Red));
}

#[test]
fn check_detection_on_open_file() {
    let mut board = Board::new();
    clear_board(&mut board);
    board.set_piece(Position::new(4, 9), pc(PieceType::King, Color::Black));
    board.set_piece(Position::new(4, 0), pc(PieceType::Chariot, Color::Red));
    assert!(board.is_in_check(Color::Black));
    board.set_piece(Position::new(4, 5), pc(PieceType::Pawn, Color::Black));
    assert!(!board.is_in_check(Color::Black));
}

#[test]
fn checkmate_scenario() {
    let mut board = Board::new();
    clear_board(&mut board);
    board.set_piece(Position::new(4, 9), pc(PieceType::King, Color::Black));
    board.set_piece(Position::new(4, 0), pc(PieceType::Chariot, Color::Red));
    board.set_piece(Position::new(3, 0), pc(PieceType::Chariot, Color::Red));
    board.set_piece(Position::new(5, 0), pc(PieceType::Chariot, Color::Red));

    assert!(board.is_in_check(Color::Black));
    assert!(!board.has_legal_moves(Color::Black));
    assert!(board.is_checkmate(Color::Black));
    assert!(!board.is_stalemate(Color::Black));
}

#[test]
fn stalemate_scenario() {
    let mut board = Board::new();
    clear_board(&mut board);
    board.set_piece(Position::new(4, 9), pc(PieceType::King, Color::Black));
    board.set_piece(Position::new(3, 0), pc(PieceType::Chariot, Color::Red));
    board.set_piece(Position::new(5, 0), pc(PieceType::Chariot, Color::Red));
    board.set_piece(Position::new(0, 8), pc(PieceType::Chariot, Color::Red));

    assert!(!board.is_in_check(Color::Black));
    assert!(!board.has_legal_moves(Color::Black));
    assert!(board.is_stalemate(Color::Black));
    assert!(!board.is_checkmate(Color::Black));
}

#[test]
fn clone_is_independent() {
    let mut board = Board::new();
    let copy = board.clone();
    assert!(grids_equal(&board, &copy));
    assert_eq!(board.get_hash(), copy.get_hash());
    board.make_move(Position::new(1, 0), Position::new(2, 2));
    assert!(!grids_equal(&board, &copy));
    assert_eq!(copy.get_piece(Position::new(1, 0)).piece_type, PieceType::Horse);
}

#[test]
fn invalid_coordinates_are_rejected() {
    let board = Board::new();
    assert!(!board.is_move_valid(Position::new(9, 0), Position::new(8, 0), Color::Red));
    assert!(!board.is_move_valid(Position::new(0, 0), Position::new(0, 10), Color::Red));
    assert_eq!(board.get_piece(Position::new(12, 3)), vacant());
    assert!(!Position::new(9, 5).is_valid());
    assert!(Position::new(8, 9).is_valid());
}
