use xiangqi_engine::ast::ASTNode;
use xiangqi_engine::command::{Command, CommandParser};
use xiangqi_engine::lexer::{Keywords, Lexer, Token};
use xiangqi_engine::parser::Parser;
use xiangqi_engine::piece::Color;
use xiangqi_engine::{parse_command, Board, Position};
use xiangqi_engine::bitboard::Bitboard;
use xiangqi_engine::board_cache::BoardCache;
use xiangqi_engine::piece::{Piece, PieceType};
use xiangqi_engine::zobrist::ZobristHash;

#[test]
fn tokenize_create_game() {
    let mut lexer = Lexer::new("CREATE GAME");
    let tokens = lexer.tokenize();
    assert_eq!(
        tokens,
        vec![Token::Keyword(Keywords::Create), Token::Keyword(Keywords::Game)]
    );
}

#[test]
fn tokenize_move_line() {
    let mut lexer = Lexer::new("GAME 12 red MOVE (1,2) TO (4,2)");
    let tokens = lexer.tokenize();
    assert_eq!(
        tokens,
        vec![
            Token::Keyword(Keywords::Game),
            Token::Number(12),
            Token::Red,
            Token::Keyword(Keywords::Move),
            Token::Coordinate(1, 2),
            Token::Keyword(Keywords::To),
            Token::Coordinate(4, 2),
        ]
    );
}

#[test]
fn tokenize_identifiers_uppercase() {
    let mut lexer = Lexer::new("join game 3 aL1ce black");
    let tokens = lexer.tokenize();
    assert_eq!(
        tokens,
        vec![
            Token::Keyword(Keywords::Join),
            Token::Keyword(Keywords::Game),
            Token::Number(3),
            Token::Identifier(String::from("AL1CE")),
            Token::Black,
        ]
    );
}

#[test]
fn tokenize_loose_parenthesis() {
    // a parenthesis that opens no coordinate is its own token, and the
    // character that broke the coordinate scan is consumed
    let mut lexer = Lexer::new("(x");
    let tokens = lexer.tokenize();
    assert_eq!(tokens, vec![Token::LeftParen]);

    let mut lexer = Lexer::new(") ,");
    let tokens = lexer.tokenize();
    assert_eq!(tokens, vec![Token::RightParen, Token::Comma]);
}

#[test]
fn tokenize_oversized_number_stops_the_scan() {
    let mut lexer = Lexer::new("GAME 99999999999999999999 RED");
    let tokens = lexer.tokenize();
    assert_eq!(tokens, vec![Token::Keyword(Keywords::Game)]);
}

#[test]
fn parse_create_game_lowercase() {
    // exercises the uppercase folding: an identity fold would leave
    // "create" unrecognized
    let node = parse_command("create game");
    assert!(matches!(node, ASTNode::CreateGame));
}

#[test]
fn parse_surrounding_whitespace() {
    let node = parse_command("   CREATE \t GAME  ");
    assert!(matches!(node, ASTNode::CreateGame));
}

#[test]
fn parse_join_game() {
    let node = parse_command("JOIN GAME 7 alice RED");
    match node {
        ASTNode::JoinGame { game_id, name, color } => {
            assert_eq!(game_id, 7);
            assert_eq!(name, "ALICE");
            assert_eq!(color, Color::Red);
        },
        _ => panic!("expected a join node"),
    }
}

#[test]
fn parse_move_command_line() {
    let node = parse_command("GAME 1 BLACK MOVE (1,9) TO (2,7)");
    match node {
        ASTNode::Move { game_id, color, from_x, from_y, to_x, to_y } => {
            assert_eq!(game_id, 1);
            assert_eq!(color, Color::Black);
            assert_eq!((from_x, from_y), (1, 9));
            assert_eq!((to_x, to_y), (2, 7));
        },
        _ => panic!("expected a move node"),
    }
}

#[test]
fn parse_undo_and_get() {
    assert!(matches!(parse_command("UNDO GAME 2"), ASTNode::Undo { game_id: 2 }));
    assert!(matches!(parse_command("GET GAME 3"), ASTNode::GetGame { game_id: 3 }));
}

#[test]
fn parse_malformed_lines() {
    assert!(matches!(parse_command(""), ASTNode::Invalid));
    assert!(matches!(parse_command("CREATE"), ASTNode::Invalid));
    assert!(matches!(parse_command("JOIN GAME x alice RED"), ASTNode::Invalid));
    assert!(matches!(parse_command("GAME 1 RED MOVE (1,2) (4,2)"), ASTNode::Invalid));
    assert!(matches!(parse_command("UNDO GAME"), ASTNode::Invalid));
    assert!(matches!(parse_command("flip the table"), ASTNode::Invalid));
}

#[test]
fn parser_struct_reusable() {
    let mut parser = Parser::new("GET GAME 11");
    assert!(matches!(parser.parse(), ASTNode::GetGame { game_id: 11 }));
}

#[test]
fn command_parser_create_and_join() {
    let parser = CommandParser::new();
    assert!(matches!(parser.parse("CREATE GAME"), Command::CreateGame));
    assert!(matches!(parser.parse("create game"), Command::CreateGame));
    match parser.parse("JOIN GAME 4 Bob black") {
        Command::JoinGame { game_id, name, color } => {
            assert_eq!(game_id, 4);
            // the name keeps its own casing here
            assert_eq!(name, "Bob");
            assert_eq!(color, Color::Black);
        },
        _ => panic!("expected a join command"),
    }
}

#[test]
fn command_parser_get_undo_and_plus_sign() {
    let parser = CommandParser::new();
    assert!(matches!(parser.parse("GET GAME 5"), Command::GetGame { game_id: 5 }));
    assert!(matches!(parser.parse("UNDO GAME 1"), Command::Undo { game_id: 1 }));
    // the standard numeral syntax admits a leading plus sign
    assert!(matches!(parser.parse("GET GAME +7"), Command::GetGame { game_id: 7 }));
    assert!(matches!(parser.parse("GET GAME -7"), Command::Invalid));
    assert!(matches!(parser.parse("GET GAME 4294967296"), Command::Invalid));
}

#[test]
fn command_parser_move_word_count() {
    let parser = CommandParser::new();
    // this syntax demands at least nine words, so the bare form is refused
    assert!(matches!(
        parser.parse("GAME 1 RED MOVE (1,2) TO (4,2)"),
        Command::Invalid
    ));
    match parser.parse("GAME 1 RED MOVE (1,2) TO (4,2) please now") {
        Command::Move { game_id, color, from_x, from_y, to_x, to_y } => {
            assert_eq!(game_id, 1);
            assert_eq!(color, Color::Red);
            assert_eq!((from_x, from_y), (1, 2));
            assert_eq!((to_x, to_y), (4, 2));
        },
        _ => panic!("expected a move command"),
    }
}

#[test]
fn command_parser_rejects_bad_coordinates() {
    let parser = CommandParser::new();
    assert!(matches!(
        parser.parse("GAME 1 RED MOVE (1,2,3) TO (4,2) please now"),
        Command::Invalid
    ));
    assert!(matches!(
        parser.parse("GAME 1 RED MOVE (12) TO (4,2) please now"),
        Command::Invalid
    ));
    assert!(matches!(
        parser.parse("GAME 1 RED MOVE (999,2) TO (4,2) please now"),
        Command::Invalid
    ));
}

#[test]
fn bitboard_tracks_pieces_and_palaces() {
    let mut bb = Bitboard::new();
    bb.init_special_positions();

    let horse = Piece { piece_type: PieceType::Horse, color: Color::Black };
    bb.set_piece(Position::new(2, 8), horse);
    assert!(bb.has_piece(Position::new(2, 8), PieceType::Horse));
    assert!(!bb.has_piece(Position::new(2, 8), PieceType::Pawn));
    assert!(bb.has_color(Position::new(2, 8), Color::Black));
    assert!(!bb.has_color(Position::new(2, 8), Color::Red));

    // clearing a square clears its bits
    bb.set_piece(
        Position::new(2, 8),
        Piece { piece_type: PieceType::Vacant, color: Color::Neutral },
    );
    assert!(!bb.has_piece(Position::new(2, 8), PieceType::Horse));

    // both palaces answer, the Black one included (its squares sit past
    // bit 63 of the masks)
    assert!(bb.is_in_palace(Position::new(4, 1), Color::Red));
    assert!(!bb.is_in_palace(Position::new(4, 1), Color::Black));
    assert!(bb.is_in_palace(Position::new(4, 8), Color::Black));
    assert!(bb.is_in_palace(Position::new(3, 9), Color::Black));
    assert!(!bb.is_in_palace(Position::new(0, 0), Color::Red));
    assert_eq!(Bitboard::pos_to_index(Position::new(4, 8)), 76);
    assert_eq!(
        Bitboard::index_to_pos(76),
        Position::new(4, 8)
    );
}

#[test]
fn board_cache_remembers_and_clears() {
    let mut cache = BoardCache::new();
    let key = Position::new(1, 2);
    assert!(cache.get_cached_legal_moves(key, Color::Red).is_none());

    cache.cache_legal_moves(key, Color::Red, vec![Position::new(1, 3)]);
    assert_eq!(
        cache.get_cached_legal_moves(key, Color::Red),
        Some(&vec![Position::new(1, 3)])
    );
    assert!(cache.get_cached_legal_moves(key, Color::Black).is_none());

    // a second write for the same key replaces the first
    cache.cache_legal_moves(key, Color::Red, vec![Position::new(1, 4)]);
    assert_eq!(
        cache.get_cached_legal_moves(key, Color::Red),
        Some(&vec![Position::new(1, 4)])
    );

    cache.cache_check_status(Color::Black, true);
    assert_eq!(cache.get_cached_check_status(Color::Black), Some(true));
    assert_eq!(cache.get_cached_check_status(Color::Red), None);

    cache.cache_hash(77);
    assert_eq!(cache.get_cached_hash(), Some(77));

    cache.clear();
    assert!(cache.get_cached_legal_moves(key, Color::Red).is_none());
    assert_eq!(cache.get_cached_check_status(Color::Black), None);
    assert_eq!(cache.get_cached_hash(), None);
}

#[test]
fn position_packs_and_validates() {
    let p = Position::new(3, 7);
    assert_eq!(p.x(), 3);
    assert_eq!(p.y(), 7);
    assert!(p.is_valid());
    assert!(!Position::new(9, 0).is_valid());
    assert!(!Position::new(0, 10).is_valid());
    assert_eq!(PieceType::Cannon.from_piece_type_to_usize(), 5);
    assert_eq!(PieceType::Vacant.from_piece_type_to_usize(), 7);
    assert_eq!(Color::Red.from_color_to_usize(), 1);
    assert_eq!(Color::Neutral.from_color_to_usize(), 0);
}

#[test]
fn fresh_boards_hash_differently_per_table() {
    // two boards draw their own random tables, so a move changes the hash
    let mut board = Board::new();
    let h0 = board.get_hash();
    board.make_move(Position::new(7, 0), Position::new(6, 2));
    assert_ne!(board.get_hash(), h0);
}

#[test]
fn zobrist_empty_board_hashes_to_zero() {
    let z = ZobristHash::new();
    let empty = Board::default();
    assert_eq!(z.calculate(&empty), 0);
    assert_eq!(empty.get_hash(), 0);
}

#[test]
fn zobrist_update_is_an_involution_without_capture() {
    let z = ZobristHash::new();
    let h0 = 0x1234_5678_9abc_def0u64;
    let mover = Piece { piece_type: PieceType::Horse, color: Color::Red };
    let nothing = Piece { piece_type: PieceType::Vacant, color: Color::Neutral };
    let h1 = z.update(h0, Position::new(1, 0), Position::new(2, 2), mover, nothing);
    let h2 = z.update(h1, Position::new(2, 2), Position::new(1, 0), mover, nothing);
    assert_eq!(h2, h0);
}
