use vstd::prelude::*;

use crate::board::Board;
use crate::piece::{color_index, piece_type_index, Piece, PieceType};
use crate::position::Position;

verus! {

/// Entries in the flat Zobrist table: 8 kinds x 3 colors x 9 files x 10 ranks.
pub const ZOBRIST_TABLE_LEN: usize = 2160;

/// Flat index of the table entry for (kind, color, file, rank).
pub open spec fn zobrist_index(pt: int, c: int, x: int, y: int) -> int {
    ((pt * 3 + c) * 9 + x) * 10 + y
}

/// The table entry a piece standing on (x, y) contributes.
pub open spec fn table_entry(t: Seq<u64>, p: Piece, x: int, y: int) -> u64 {
    t[zobrist_index(piece_type_index(p.piece_type), color_index(p.color), x, y)]
}

/// What the square with grid index `i` contributes to the hash: its piece's
/// table entry, or 0 for an empty square.
pub open spec fn square_value(t: Seq<u64>, g: Seq<Piece>, i: int) -> u64 {
    if g[i].is_occupied() {
        table_entry(t, g[i], i / 10, i % 10)
    } else {
        0
    }
}

/// XOR of the contributions of the grid squares below `n`.
pub open spec fn hash_upto(t: Seq<u64>, g: Seq<Piece>, n: int) -> u64
    decreases n,
{
    if n <= 0 {
        0
    } else {
        hash_upto(t, g, n - 1) ^ square_value(t, g, n - 1)
    }
}

/// The position hash of a whole grid: XOR of the table entries of every
/// occupied square.
pub open spec fn grid_hash(t: Seq<u64>, g: Seq<Piece>) -> u64 {
    hash_upto(t, g, 90)
}

/// Relies on rand::random: draws one fresh 64-bit value. Nothing is assumed
/// of the value itself.
#[verifier::external_body]
fn random_u64() -> u64 {
    rand::random::<u64>()
}

/// A table of per-process random values indexed by (kind, color, file, rank);
/// the position hash is the XOR of the entries of the occupied squares.
#[derive(Debug)]
pub struct ZobristHash {
    table: Vec<u64>,
}

impl ZobristHash {
    pub closed spec fn wf(self) -> bool {
        self.table@.len() == ZOBRIST_TABLE_LEN
    }

    /// The random table, as a sequence in `zobrist_index` order.
    pub closed spec fn spec_table(self) -> Seq<u64> {
        self.table@
    }

    pub fn new() -> (r: Self)
        ensures
            r.wf(),
    {
        let mut table: Vec<u64> = Vec::new();
        let mut i: usize = 0;
        while i < ZOBRIST_TABLE_LEN
            invariant
                table.len() == i,
                i <= ZOBRIST_TABLE_LEN,
            decreases ZOBRIST_TABLE_LEN - i,
        {
            table.push(random_u64());
            i = i + 1;
        }
        ZobristHash { table }
    }

    /// Recompute the hash of `board`'s grid from scratch.
    pub fn calculate(&self, board: &Board) -> (r: u64)
        requires
            self.wf(),
            board.grid_wf(),
        ensures
            r == grid_hash(self.spec_table(), board.grid()),
    {
        let mut hash: u64 = 0;
        let mut x: u8 = 0;
        while x < 9
            invariant
                self.wf(),
                board.grid_wf(),
                x <= 9,
                hash == hash_upto(self.spec_table(), board.grid(), 10 * x),
            decreases 9 - x,
        {
            let mut y: u8 = 0;
            while y < 10
                invariant
                    self.wf(),
                    board.grid_wf(),
                    x < 9,
                    y <= 10,
                    hash == hash_upto(self.spec_table(), board.grid(), 10 * x + y),
                decreases 10 - y,
            {
                let pos = Position::new(x, y);
                let piece = board.get_piece(pos);
                proof {
                    vstd::arithmetic::div_mod::lemma_fundamental_div_mod_converse(
                        10 * x + y,
                        10,
                        x as int,
                        y as int,
                    );
                }
                if piece.piece_type != PieceType::Vacant {
                    let pt = piece.piece_type.from_piece_type_to_usize();
                    let c = piece.color.from_color_to_usize();
                    let zi = ((pt * 3 + c) * 9 + x as usize) * 10 + y as usize;
                    hash = hash ^ self.table[zi];
                } else {
                    proof {
                        lemma_xor_zero(hash);
                    }
                }
                y = y + 1;
            }
            x = x + 1;
        }
        hash
    }

    /// Step the hash by one move: XOR out the mover at its origin, XOR out a
    /// captured piece at the destination, XOR in the mover at the destination.
    pub fn update(
        &self,
        old_hash: u64,
        from: Position,
        to: Position,
        moved_piece: Piece,
        captured_piece: Piece,
    ) -> (r: u64)
        requires
            self.wf(),
            from.spec_valid(),
            to.spec_valid(),
        ensures
            r == ((old_hash ^ table_entry(
                self.spec_table(),
                moved_piece,
                from.spec_x() as int,
                from.spec_y() as int,
            )) ^ (if captured_piece.is_occupied() {
                table_entry(
                    self.spec_table(),
                    captured_piece,
                    to.spec_x() as int,
                    to.spec_y() as int,
                )
            } else {
                0u64
            })) ^ table_entry(
                self.spec_table(),
                moved_piece,
                to.spec_x() as int,
                to.spec_y() as int,
            ),
    {
        let mut hash = old_hash;

        let pt = moved_piece.piece_type.from_piece_type_to_usize();
        let c = moved_piece.color.from_color_to_usize();
        let fx = from.x() as usize;
        let fy = from.y() as usize;
        let tx = to.x() as usize;
        let ty = to.y() as usize;

        hash = hash ^ self.table[((pt * 3 + c) * 9 + fx) * 10 + fy];

        if captured_piece.piece_type != PieceType::Vacant {
            let cpt = captured_piece.piece_type.from_piece_type_to_usize();
            let cc = captured_piece.color.from_color_to_usize();
            hash = hash ^ self.table[((cpt * 3 + cc) * 9 + tx) * 10 + ty];
        } else {
            proof {
                lemma_xor_zero(hash);
            }
        }

        hash = hash ^ self.table[((pt * 3 + c) * 9 + tx) * 10 + ty];

        hash
    }
}

impl Clone for ZobristHash {
    /// An equal table.
    fn clone(&self) -> (r: Self)
        ensures
            r.wf() == self.wf(),
            r.spec_table() == self.spec_table(),
    {
        ZobristHash { table: crate::vec_util::copy_vec(&self.table) }
    }
}

/// XOR with zero changes nothing.
pub proof fn lemma_xor_zero(a: u64)
    by (bit_vector)
    ensures
        a ^ 0u64 == a,
{
}

/// XOR-ing the same value twice cancels.
pub proof fn lemma_xor_cancel(a: u64, b: u64)
    by (bit_vector)
    ensures
        (a ^ b) ^ b == a,
{
}

/// XOR terms can be reordered.
pub proof fn lemma_xor_shuffle(a: u64, b: u64, c: u64, d: u64)
    by (bit_vector)
    ensures
        ((a ^ b) ^ c) ^ d == ((a ^ d) ^ b) ^ c,
{
}

/// Changing one square changes the grid hash by exactly that square's old and
/// new contributions. This is why the incremental update below agrees with a
/// recomputation from scratch.
pub proof fn lemma_hash_point_update(t: Seq<u64>, g1: Seq<Piece>, g2: Seq<Piece>, j: int, n: int)
    requires
        0 <= j < 90,
        g1.len() == 90,
        g2.len() == 90,
        forall|m: int| 0 <= m < 90 && m != j ==> g1[m] == g2[m],
        0 <= n <= 90,
    ensures
        hash_upto(t, g2, n) == if j < n {
            (hash_upto(t, g1, n) ^ square_value(t, g1, j)) ^ square_value(t, g2, j)
        } else {
            hash_upto(t, g1, n)
        },
    decreases n,
{
    if n > 0 {
        lemma_hash_point_update(t, g1, g2, j, n - 1);
        if j == n - 1 {
            lemma_xor_cancel(hash_upto(t, g1, n - 1), square_value(t, g1, j));
        } else if j < n - 1 {
            lemma_xor_shuffle(
                hash_upto(t, g1, n - 1),
                square_value(t, g1, j),
                square_value(t, g2, j),
                square_value(t, g1, n - 1),
            );
        }
    }
}

/// The hash of an all-empty prefix is zero.
pub proof fn lemma_hash_empty(t: Seq<u64>, g: Seq<Piece>, n: int)
    requires
        forall|m: int| 0 <= m < n ==> !(#[trigger] g[m]).is_occupied(),
    ensures
        hash_upto(t, g, n) == 0,
    decreases n,
{
    if n > 0 {
        lemma_hash_empty(t, g, n - 1);
        lemma_xor_zero(0);
    }
}

} // verus!
