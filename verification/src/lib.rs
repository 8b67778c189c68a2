pub mod ast;
pub mod bitboard;
pub mod board;
pub mod board_cache;
pub mod command;
pub mod lexer;
pub mod parser;
pub mod piece;
pub mod position;
pub mod ruler;
pub mod text;
mod vec_util;
pub mod zobrist;

pub use ast::ASTNode;
pub use board::Board;
pub use parser::Parser;
pub use piece::{Color, Piece, PieceType};
pub use position::Position;
pub use ruler::{GameStatus, Ruler};

use vstd::prelude::*;

use crate::parser::ast_rel;
use crate::ruler::{
    create_step, game_index, game_move_allowed, join_step, move_step, undo_step, Game,
};

verus! {

/// What executing one command answers: a success or failure code, tagged
/// with the game it concerns.
#[derive(Debug, Clone, Copy, PartialEq, Eq, Structural)]
pub enum EngineResult {
    GameCreated(u32),
    MoveSuccess(u32),
    JoinSuccess(u32),
    UndoSuccess(u32),
    GameStatus(u32, GameStatus),
    GameNotFound(u32),
    MoveFailed(u32),
    JoinFailed(u32),
    UndoFailed(u32),
    InvalidCommand,
}

/// Joining succeeds iff the game exists, a seat is free, and the color is
/// not taken.
pub open spec fn join_allowed(s: Seq<Game>, game_id: u32, color: Color) -> bool {
    match game_index(s, game_id) {
        Option::Some(i) => s[i].players@.len() < 2 && !(exists|m: int|
            0 <= m < s[i].players@.len() && (#[trigger] s[i].players@[m]).color == color),
        Option::None => false,
    }
}

/// A move command succeeds iff the game exists and the move may be played.
pub open spec fn move_call_allowed(
    s: Seq<Game>,
    game_id: u32,
    fx: u8,
    fy: u8,
    tx: u8,
    ty: u8,
) -> bool {
    match game_index(s, game_id) {
        Option::Some(i) => game_move_allowed(s[i], fx, fy, tx, ty),
        Option::None => false,
    }
}

/// Undo succeeds iff the game exists and has a move to take back.
pub open spec fn undo_allowed(s: Seq<Game>, game_id: u32) -> bool {
    match game_index(s, game_id) {
        Option::Some(i) => s[i].move_history@.len() > 0,
        Option::None => false,
    }
}

/// The engine: one session manager, driven by textual commands.
#[derive(Debug)]
pub struct Engine {
    game_manager: Ruler,
}

/// How one command changes the engine and what it answers: the result code
/// is pinned by whether the command could be carried out, and the session
/// manager makes exactly the matching transition.
pub open spec fn engine_step(e0: Engine, e1: Engine, node: ASTNode, r: EngineResult) -> bool {
    match node {
        ASTNode::CreateGame => {
            let id = if e0.manager().next_id() < u32::MAX {
                e0.manager().next_id()
            } else {
                0
            };
            &&& r == EngineResult::GameCreated(id)
            &&& create_step(e0.manager(), e1.manager(), id)
        },
        ASTNode::JoinGame { game_id, name, color } => {
            let ok = join_allowed(e0.manager().games_seq(), game_id, color);
            &&& r == (if ok {
                EngineResult::JoinSuccess(game_id)
            } else {
                EngineResult::JoinFailed(game_id)
            })
            &&& join_step(e0.manager(), e1.manager(), game_id, name@, color, ok)
        },
        ASTNode::Move { game_id, color, from_x, from_y, to_x, to_y } => {
            let ok = move_call_allowed(e0.manager().games_seq(), game_id, from_x, from_y, to_x, to_y);
            &&& r == (if ok {
                EngineResult::MoveSuccess(game_id)
            } else {
                EngineResult::MoveFailed(game_id)
            })
            &&& move_step(e0.manager(), e1.manager(), game_id, from_x, from_y, to_x, to_y, ok)
        },
        ASTNode::Undo { game_id } => {
            let ok = undo_allowed(e0.manager().games_seq(), game_id);
            &&& r == (if ok {
                EngineResult::UndoSuccess(game_id)
            } else {
                EngineResult::UndoFailed(game_id)
            })
            &&& undo_step(e0.manager(), e1.manager(), game_id, ok)
        },
        ASTNode::GetGame { game_id } => {
            &&& match game_index(e0.manager().games_seq(), game_id) {
                Option::Some(i) => r == EngineResult::GameStatus(
                    game_id,
                    e0.manager().games_seq()[i].status,
                ),
                Option::None => r == EngineResult::GameNotFound(game_id),
            }
            &&& e1.manager() == e0.manager()
        },
        ASTNode::Invalid => r == EngineResult::InvalidCommand && e1.manager() == e0.manager(),
    }
}

impl Engine {
    /// The session manager the engine owns.
    pub closed spec fn manager(self) -> Ruler {
        self.game_manager
    }

    pub open spec fn inv(self) -> bool {
        self.manager().inv()
    }

    pub fn new() -> (r: Self)
        ensures
            r.inv(),
            r.manager().games_seq().len() == 0,
            r.manager().next_id() == 1,
    {
        Engine { game_manager: Ruler::new() }
    }

    /// Parse one command line into a syntax tree.
    pub fn parse(&self, command: &str) -> (r: ASTNode)
        ensures
            command@.len() <= usize::MAX - 2 ==> ast_rel(crate::lexer::trimmed(command@), 0, r),
    {
        let mut parser = Parser::new(command);
        parser.parse()
    }

    /// Parse and execute one command line.
    pub fn execute(&mut self, command: &str) -> (r: EngineResult)
        requires
            old(self).inv(),
        ensures
            final(self).inv(),
            command@.len() <= usize::MAX - 2 ==> exists|node: ASTNode|
                ast_rel(crate::lexer::trimmed(command@), 0, node) && #[trigger] engine_step(
                    *old(self),
                    *final(self),
                    node,
                    r,
                ),
    {
        let ast_node = self.parse(command);
        let ghost node = ast_node;
        let r = self.execute_ast(ast_node);
        proof {
            assert(engine_step(*old(self), *final(self), node, r));
        }
        r
    }

    /// Carry out one parsed command against the session manager.
    pub fn execute_ast(&mut self, ast_node: ASTNode) -> (r: EngineResult)
        requires
            old(self).inv(),
        ensures
            final(self).inv(),
            engine_step(*old(self), *final(self), ast_node, r),
    {
        match ast_node {
            ASTNode::CreateGame => {
                let game_id = self.game_manager.create_game();
                EngineResult::GameCreated(game_id)
            },
            ASTNode::JoinGame { game_id, name, color } => {
                if self.game_manager.add_player_to_game(game_id, name, color) {
                    EngineResult::JoinSuccess(game_id)
                } else {
                    EngineResult::JoinFailed(game_id)
                }
            },
            ASTNode::Move { game_id, color: _, from_x, from_y, to_x, to_y } => {
                if self.game_manager.make_move(game_id, from_x, from_y, to_x, to_y) {
                    EngineResult::MoveSuccess(game_id)
                } else {
                    EngineResult::MoveFailed(game_id)
                }
            },
            ASTNode::Undo { game_id } => {
                if self.game_manager.undo_move(game_id) {
                    EngineResult::UndoSuccess(game_id)
                } else {
                    EngineResult::UndoFailed(game_id)
                }
            },
            ASTNode::GetGame { game_id } => {
                match self.game_manager.get_game(game_id) {
                    Option::Some(game) => EngineResult::GameStatus(game_id, game.status),
                    Option::None => EngineResult::GameNotFound(game_id),
                }
            },
            ASTNode::Invalid => EngineResult::InvalidCommand,
        }
    }

    /// The session manager, read-only.
    pub fn get_game_manager(&self) -> (r: &Ruler)
        ensures
            *r == self.manager(),
    {
        &self.game_manager
    }

    /// The session manager, for direct driving; what the caller does
    /// through it is its own business, so nothing is promised here.
    pub fn get_game_manager_mut(&mut self) -> &mut Ruler {
        &mut self.game_manager
    }
}

/// A fresh engine.
pub fn new() -> (r: Engine)
    ensures
        r.inv(),
        r.manager().games_seq().len() == 0,
{
    Engine::new()
}

/// A fresh session manager.
pub fn create_game_manager() -> (r: Ruler)
    ensures
        r.inv(),
        r.games_seq().len() == 0,
{
    Ruler::new()
}

/// A fresh board in the standard starting layout.
pub fn create_board() -> (r: Board)
    ensures
        r.inv(),
        r.grid() == crate::board::initial_grid(),
{
    Board::new()
}

/// Parse one command line into a syntax tree.
pub fn parse_command(command: &str) -> (r: ASTNode)
    ensures
        command@.len() <= usize::MAX - 2 ==> ast_rel(crate::lexer::trimmed(command@), 0, r),
{
    let mut parser = Parser::new(command);
    parser.parse()
}

} // verus!
