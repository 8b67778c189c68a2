use xiangqi_engine::piece::Color;
use xiangqi_engine::position::Position;
use xiangqi_engine::ruler::GameStatus;
use xiangqi_engine::{EngineResult, Engine, Ruler};

#[test]
fn create_and_get_game() {
    let mut ruler = Ruler::new();
    let id1 = ruler.create_game();
    let id2 = ruler.create_game();
    assert_eq!(id1, 1);
    assert_eq!(id2, 2);
    assert!(ruler.get_game(1).is_some());
    assert!(ruler.get_game(2).is_some());
    assert!(ruler.get_game(3).is_none());
    assert!(ruler.get_game(0).is_none());
    assert_eq!(ruler.get_all_games().len(), 2);
}

#[test]
fn join_rules() {
    let mut ruler = Ruler::new();
    let id = ruler.create_game();
    assert!(ruler.add_player_to_game(id, String::from("alice"), Color::Red));
    // the color is taken
    assert!(!ruler.add_player_to_game(id, String::from("bob"), Color::Red));
    assert!(ruler.add_player_to_game(id, String::from("bob"), Color::Black));
    // both seats are taken
    assert!(!ruler.add_player_to_game(id, String::from("carol"), Color::Black));
    // no such game
    assert!(!ruler.add_player_to_game(99, String::from("dan"), Color::Red));
    assert_eq!(ruler.get_game(id).unwrap().players.len(), 2);
}

#[test]
fn move_turn_order() {
    let mut ruler = Ruler::new();
    let id = ruler.create_game();
    // Black may not start
    assert!(!ruler.make_move(id, 1, 9, 2, 7));
    // Red's horse comes out
    assert!(ruler.make_move(id, 1, 0, 2, 2));
    assert_eq!(ruler.get_game(id).unwrap().current_turn, Color::Black);
    // Red may not move twice
    assert!(!ruler.make_move(id, 7, 0, 6, 2));
    // Black answers
    assert!(ruler.make_move(id, 1, 9, 2, 7));
    assert_eq!(ruler.get_game(id).unwrap().current_turn, Color::Red);
    // an illegal shape is refused
    assert!(!ruler.make_move(id, 0, 0, 1, 1));
    // a move in a missing game is refused
    assert!(!ruler.make_move(77, 1, 0, 2, 2));
}

#[test]
fn undo_restores_grid_hash_and_turn() {
    let mut ruler = Ruler::new();
    let id = ruler.create_game();

    let before: Vec<_> = {
        let game = ruler.get_game(id).unwrap();
        (0..9u8)
            .flat_map(|x| (0..10u8).map(move |y| (x, y)))
            .map(|(x, y)| game.board.get_piece(Position::new(x, y)))
            .collect()
    };
    let hash_before = ruler.get_game(id).unwrap().board.get_hash();
    let turn_before = ruler.get_game(id).unwrap().current_turn;

    assert!(ruler.make_move(id, 1, 0, 2, 2));
    assert_ne!(ruler.get_game(id).unwrap().board.get_hash(), hash_before);
    assert!(ruler.undo_move(id));

    let game = ruler.get_game(id).unwrap();
    let mut i = 0;
    for x in 0..9u8 {
        for y in 0..10u8 {
            assert_eq!(game.board.get_piece(Position::new(x, y)), before[i]);
            i += 1;
        }
    }
    assert_eq!(game.board.get_hash(), hash_before);
    assert_eq!(game.current_turn, turn_before);
    assert_eq!(game.status, GameStatus::Playing);
    assert_eq!(game.move_history.len(), 0);
}

#[test]
fn undo_without_history_fails() {
    let mut ruler = Ruler::new();
    let id = ruler.create_game();
    assert!(!ruler.undo_move(id));
    assert!(!ruler.undo_move(42));
}

#[test]
fn join_stores_names_as_given() {
    let mut ruler = Ruler::new();
    let id = ruler.create_game();
    assert!(ruler.add_player_to_game(id, String::from("Alice"), Color::Red));
    let game = ruler.get_game(id).unwrap();
    assert_eq!(game.players[0].name, "Alice");
    assert_eq!(game.players[0].color, Color::Red);
    assert_eq!(game.id, id);
}

#[test]
fn remove_game_works() {
    let mut ruler = Ruler::new();
    let id = ruler.create_game();
    assert!(ruler.remove_game(id));
    assert!(!ruler.remove_game(id));
    assert!(ruler.get_game(id).is_none());
}

#[test]
fn engine_full_flow() {
    let mut engine = Engine::new();
    assert_eq!(engine.execute("CREATE GAME"), EngineResult::GameCreated(1));
    assert_eq!(
        engine.execute("JOIN GAME 1 alice RED"),
        EngineResult::JoinSuccess(1)
    );
    assert_eq!(
        engine.execute("JOIN GAME 1 bob RED"),
        EngineResult::JoinFailed(1)
    );
    assert_eq!(
        engine.execute("JOIN GAME 1 bob BLACK"),
        EngineResult::JoinSuccess(1)
    );
    assert_eq!(
        engine.execute("GAME 1 RED MOVE (1,0) TO (2,2)"),
        EngineResult::MoveSuccess(1)
    );
    assert_eq!(
        engine.execute("GAME 1 RED MOVE (0,0) TO (0,4)"),
        EngineResult::MoveFailed(1)
    );
    assert_eq!(
        engine.execute("GET GAME 1"),
        EngineResult::GameStatus(1, GameStatus::Playing)
    );
    assert_eq!(engine.execute("GET GAME 9"), EngineResult::GameNotFound(9));
    assert_eq!(engine.execute("UNDO GAME 1"), EngineResult::UndoSuccess(1));
    assert_eq!(engine.execute("UNDO GAME 1"), EngineResult::UndoFailed(1));
    assert_eq!(engine.execute("sing a song"), EngineResult::InvalidCommand);
}

#[test]
fn engine_chariot_block_end_to_end() {
    // from the standard layout, the chariot cannot pass its own pawn
    let mut engine = Engine::new();
    assert_eq!(engine.execute("CREATE GAME"), EngineResult::GameCreated(1));
    assert_eq!(
        engine.execute("GAME 1 RED MOVE (0,0) TO (0,4)"),
        EngineResult::MoveFailed(1)
    );
    assert_eq!(
        engine.execute("GAME 1 RED MOVE (0,0) TO (0,1)"),
        EngineResult::MoveSuccess(1)
    );
}
