use vstd::prelude::*;

use crate::piece::Color;

verus! {

/// One parsed command.
#[derive(Debug)]
pub enum ASTNode {
    CreateGame,
    JoinGame { game_id: u32, name: String, color: Color },
    Move { game_id: u32, color: Color, from_x: u8, from_y: u8, to_x: u8, to_y: u8 },
    Undo { game_id: u32 },
    GetGame { game_id: u32 },
    Invalid,
}

impl Clone for ASTNode {
    fn clone(&self) -> (r: Self)
        ensures
            r == *self,
    {
        match self {
            ASTNode::CreateGame => ASTNode::CreateGame,
            ASTNode::JoinGame { game_id, name, color } => ASTNode::JoinGame {
                game_id: *game_id,
                name: name.clone(),
                color: *color,
            },
            ASTNode::Move { game_id, color, from_x, from_y, to_x, to_y } => ASTNode::Move {
                game_id: *game_id,
                color: *color,
                from_x: *from_x,
                from_y: *from_y,
                to_x: *to_x,
                to_y: *to_y,
            },
            ASTNode::Undo { game_id } => ASTNode::Undo { game_id: *game_id },
            ASTNode::GetGame { game_id } => ASTNode::GetGame { game_id: *game_id },
            ASTNode::Invalid => ASTNode::Invalid,
        }
    }
}

} // verus!
