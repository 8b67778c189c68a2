use vstd::prelude::*;

verus! {

/// The kind of piece standing on a square; `Vacant` marks an empty square.
#[derive(Debug, Clone, Copy, PartialEq, Eq, Hash, Structural)]
pub enum PieceType {
    King,
    Advisor,
    Elephant,
    Horse,
    Chariot,
    Cannon,
    Pawn,
    Vacant,
}

/// The side a piece belongs to; `Neutral` marks the absence of a piece.
#[derive(Debug, Clone, Copy, PartialEq, Eq, Hash, Structural)]
pub enum Color {
    Red,
    Black,
    Neutral,
}

/// A (kind, color) pair; a square is empty iff the kind is `PieceType::Vacant`.
#[derive(Debug, Clone, Copy, PartialEq, Eq, Structural)]
pub struct Piece {
    pub piece_type: PieceType,
    pub color: Color,
}

/// Table index of a piece kind, used by the bitboard and the Zobrist table.
pub open spec fn piece_type_index(t: PieceType) -> int {
    match t {
        PieceType::King => 0,
        PieceType::Advisor => 1,
        PieceType::Elephant => 2,
        PieceType::Horse => 3,
        PieceType::Chariot => 4,
        PieceType::Cannon => 5,
        PieceType::Pawn => 6,
        PieceType::Vacant => 7,
    }
}

/// Table index of a color, used by the bitboard and the Zobrist table.
pub open spec fn color_index(c: Color) -> int {
    match c {
        Color::Red => 1,
        Color::Black => 2,
        Color::Neutral => 0,
    }
}

impl PieceType {
    pub fn from_piece_type_to_usize(&self) -> (r: usize)
        ensures
            r == piece_type_index(*self),
    {
        match self {
            PieceType::King => 0,
            PieceType::Advisor => 1,
            PieceType::Elephant => 2,
            PieceType::Horse => 3,
            PieceType::Chariot => 4,
            PieceType::Cannon => 5,
            PieceType::Pawn => 6,
            PieceType::Vacant => 7,
        }
    }
}

impl Color {
    pub fn from_color_to_usize(&self) -> (r: usize)
        ensures
            r == color_index(*self),
    {
        match self {
            Color::Red => 1,
            Color::Black => 2,
            Color::Neutral => 0,
        }
    }
}

impl Piece {
    /// The value that stands on every empty square.
    pub open spec fn vacant() -> Piece {
        Piece { piece_type: PieceType::Vacant, color: Color::Neutral }
    }

    /// True iff the square holding this value is occupied.
    pub open spec fn is_occupied(self) -> bool {
        self.piece_type != PieceType::Vacant
    }
}

impl Default for Piece {
    fn default() -> (r: Self)
        ensures
            r == Piece::vacant(),
    {
        Piece { piece_type: PieceType::Vacant, color: Color::Neutral }
    }
}

} // verus!
