use vstd::prelude::*;

use crate::piece::{color_index, piece_type_index, Color, Piece, PieceType};
use crate::position::Position;

verus! {

// The packed square index `file + rank * 9` ranges over 0..90, so a 64-bit
// mask would silently drop every square from (1,7) upward — among them the
// whole Black palace — from every occupancy and palace query. The masks here
// are 128 bits wide so that all 90 squares are representable.

/// Bits of the Red palace: files 3..=5, ranks 0..=2.
pub const RED_PALACE_MASK: u128 = (7u128 << 3) | (7u128 << 12) | (7u128 << 21);

/// Bits of the Black palace: files 3..=5, ranks 7..=9.
pub const BLACK_PALACE_MASK: u128 = (7u128 << 66) | (7u128 << 75) | (7u128 << 84);

/// True iff bit `i` of `m` is set (false for `i` past the mask width).
pub open spec fn bit_set(m: u128, i: u128) -> bool {
    i < 128 && (m >> i) & 1 == 1
}

/// The packed mask index of the square at file `x`, rank `y`.
pub open spec fn bb_index(x: u8, y: u8) -> int {
    x + 9 * y
}

/// A redundant, query-optimized index over the grid: occupancy masks per
/// piece kind and per color, plus the two fixed palace-zone masks.
#[derive(Debug)]
pub struct Bitboard {
    pieces: Vec<u128>,
    colors: Vec<u128>,
    palace: Vec<u128>,
}

impl Bitboard {
    pub closed spec fn wf(self) -> bool {
        self.pieces.len() == 8 && self.colors.len() == 3 && self.palace.len() == 2
    }

    /// The occupancy mask of piece kind `k` (by `piece_type_index`).
    pub closed spec fn piece_mask(self, k: int) -> u128 {
        self.pieces[k]
    }

    /// The occupancy mask of color `c` (by `color_index`).
    pub closed spec fn color_mask(self, c: int) -> u128 {
        self.colors[c]
    }

    /// The palace mask of side `p` (0 = Red, 1 = Black).
    pub closed spec fn palace_mask(self, p: int) -> u128 {
        self.palace[p]
    }

    pub fn new() -> (r: Self)
        ensures
            r.wf(),
            forall|k: int| 0 <= k < 8 ==> r.piece_mask(k) == 0u128,
            forall|c: int| 0 <= c < 3 ==> r.color_mask(c) == 0u128,
            forall|p: int| 0 <= p < 2 ==> r.palace_mask(p) == 0u128,
    {
        let mut pieces: Vec<u128> = Vec::new();
        let mut colors: Vec<u128> = Vec::new();
        let mut palace: Vec<u128> = Vec::new();
        let mut i: usize = 0;
        while i < 8
            invariant
                pieces.len() == i,
                i <= 8,
                forall|k: int| 0 <= k < i ==> pieces[k] == 0u128,
            decreases 8 - i,
        {
            pieces.push(0);
            i = i + 1;
        }
        let mut i: usize = 0;
        while i < 3
            invariant
                colors.len() == i,
                i <= 3,
                forall|k: int| 0 <= k < i ==> colors[k] == 0u128,
            decreases 3 - i,
        {
            colors.push(0);
            i = i + 1;
        }
        let mut i: usize = 0;
        while i < 2
            invariant
                palace.len() == i,
                i <= 2,
                forall|k: int| 0 <= k < i ==> palace[k] == 0u128,
            decreases 2 - i,
        {
            palace.push(0);
            i = i + 1;
        }
        Bitboard { pieces, colors, palace }
    }

    /// Fill in the two palace-zone masks.
    pub fn init_special_positions(&mut self)
        requires
            old(self).wf(),
        ensures
            final(self).wf(),
            final(self).palace_mask(0) == old(self).palace_mask(0) | RED_PALACE_MASK,
            final(self).palace_mask(1) == old(self).palace_mask(1) | BLACK_PALACE_MASK,
            forall|k: int| 0 <= k < 8 ==> final(self).piece_mask(k) == old(self).piece_mask(k),
            forall|c: int| 0 <= c < 3 ==> final(self).color_mask(c) == old(self).color_mask(c),
    {
        let p0 = self.palace[0] | RED_PALACE_MASK;
        self.palace.set(0, p0);
        let p1 = self.palace[1] | BLACK_PALACE_MASK;
        self.palace.set(1, p1);
    }

    pub fn pos_to_index(pos: Position) -> (r: usize)
        ensures
            r == bb_index(pos.spec_x(), pos.spec_y()),
    {
        pos.x() as usize + pos.y() as usize * 9
    }

    pub fn index_to_pos(index: usize) -> (r: Position)
        requires
            index < 90,
        ensures
            r == Position::spec_new((index % 9) as u8, (index / 9) as u8),
    {
        Position::new((index % 9) as u8, (index / 9) as u8)
    }

    /// Record that `pos` now holds `piece` (or nothing, for a vacant piece):
    /// the square's bit is cleared in every occupancy mask and then set in the
    /// masks of the piece's kind and color.
    pub fn set_piece(&mut self, pos: Position, piece: Piece)
        requires
            old(self).wf(),
        ensures
            final(self).wf(),
            forall|p: int| 0 <= p < 2 ==> final(self).palace_mask(p) == old(self).palace_mask(p),
            forall|k: int, j: u128|
                0 <= k < 8 && j < 128 ==> bit_set(final(self).piece_mask(k), j) == (if bb_index(
                    pos.spec_x(),
                    pos.spec_y(),
                ) == j {
                    piece.is_occupied() && piece_type_index(piece.piece_type) == k
                } else {
                    bit_set(old(self).piece_mask(k), j)
                }),
            forall|c: int, j: u128|
                0 <= c < 3 && j < 128 ==> bit_set(final(self).color_mask(c), j) == (if bb_index(
                    pos.spec_x(),
                    pos.spec_y(),
                ) == j {
                    piece.is_occupied() && color_index(piece.color) == c
                } else {
                    bit_set(old(self).color_mask(c), j)
                }),
    {
        let index = Self::pos_to_index(pos);
        let ghost orig = *old(self);
        if index < 128 {
            let bit: u128 = 1u128 << index;

            let mut i: usize = 0;
            while i < 8
                invariant
                    self.pieces.len() == 8,
                    self.colors.len() == 3,
                    self.palace.len() == 2,
                    i <= 8,
                    bit == 1u128 << index,
                    index < 128,
                    index == bb_index(pos.spec_x(), pos.spec_y()),
                    forall|k: int| 0 <= k < i ==> self.pieces[k] == orig.piece_mask(k) & !bit,
                    forall|k: int| i <= k < 8 ==> self.pieces[k] == orig.piece_mask(k),
                    forall|c: int| 0 <= c < 3 ==> self.colors[c] == orig.color_mask(c),
                    forall|p: int| 0 <= p < 2 ==> self.palace[p] == orig.palace_mask(p),
                decreases 8 - i,
            {
                let m = self.pieces[i] & !bit;
                self.pieces.set(i, m);
                i = i + 1;
            }
            let mut i: usize = 0;
            while i < 3
                invariant
                    self.pieces.len() == 8,
                    self.colors.len() == 3,
                    self.palace.len() == 2,
                    i <= 3,
                    bit == 1u128 << index,
                    index < 128,
                    index == bb_index(pos.spec_x(), pos.spec_y()),
                    forall|k: int| 0 <= k < 8 ==> self.pieces[k] == orig.piece_mask(k) & !bit,
                    forall|c: int| 0 <= c < i ==> self.colors[c] == orig.color_mask(c) & !bit,
                    forall|c: int| i <= c < 3 ==> self.colors[c] == orig.color_mask(c),
                    forall|p: int| 0 <= p < 2 ==> self.palace[p] == orig.palace_mask(p),
                decreases 3 - i,
            {
                let m = self.colors[i] & !bit;
                self.colors.set(i, m);
                i = i + 1;
            }

            if piece.piece_type != PieceType::Vacant {
                let pi = piece.piece_type.from_piece_type_to_usize();
                let m = self.pieces[pi] | bit;
                self.pieces.set(pi, m);
                let ci = piece.color.from_color_to_usize();
                let m = self.colors[ci] | bit;
                self.colors.set(ci, m);
            }

            proof {
                let ix = bb_index(pos.spec_x(), pos.spec_y()) as u128;
                assert forall|k: int, j: u128| 0 <= k < 8 && j < 128 implies bit_set(
                    self.pieces[k],
                    j,
                ) == (if ix == j {
                    piece.is_occupied() && piece_type_index(piece.piece_type) == k
                } else {
                    bit_set(orig.piece_mask(k), j)
                }) by {
                    lemma_bit_clear(orig.piece_mask(k), ix, j);
                    lemma_bit_or(orig.piece_mask(k) & !(1u128 << ix), ix, j);
                }
                assert forall|c: int, j: u128| 0 <= c < 3 && j < 128 implies bit_set(
                    self.colors[c],
                    j,
                ) == (if ix == j {
                    piece.is_occupied() && color_index(piece.color) == c
                } else {
                    bit_set(orig.color_mask(c), j)
                }) by {
                    lemma_bit_clear(orig.color_mask(c), ix, j);
                    lemma_bit_or(orig.color_mask(c) & !(1u128 << ix), ix, j);
                }
            }
        }
    }

    /// Does the square at `pos` hold a piece of kind `piece_type`?
    pub fn has_piece(&self, pos: Position, piece_type: PieceType) -> (r: bool)
        requires
            self.wf(),
        ensures
            r == bit_set(
                self.piece_mask(piece_type_index(piece_type)),
                bb_index(pos.spec_x(), pos.spec_y()) as u128,
            ),
    {
        let index = Self::pos_to_index(pos);
        if index < 128 {
            let bit: u128 = 1u128 << index;
            let pi = piece_type.from_piece_type_to_usize();
            proof {
                lemma_bit_test(self.piece_mask(pi as int), index as u128);
            }
            (self.pieces[pi] & bit) != 0
        } else {
            false
        }
    }

    /// Does the square at `pos` hold a piece of color `color`?
    pub fn has_color(&self, pos: Position, color: Color) -> (r: bool)
        requires
            self.wf(),
        ensures
            r == bit_set(
                self.color_mask(color_index(color)),
                bb_index(pos.spec_x(), pos.spec_y()) as u128,
            ),
    {
        let index = Self::pos_to_index(pos);
        if index < 128 {
            let bit: u128 = 1u128 << index;
            let ci = color.from_color_to_usize();
            proof {
                lemma_bit_test(self.color_mask(ci as int), index as u128);
            }
            (self.colors[ci] & bit) != 0
        } else {
            false
        }
    }

    /// Is `pos` inside `color`'s palace zone?
    pub fn is_in_palace(&self, pos: Position, color: Color) -> (r: bool)
        requires
            self.wf(),
        ensures
            r == (match color {
                Color::Red => bit_set(
                    self.palace_mask(0),
                    bb_index(pos.spec_x(), pos.spec_y()) as u128,
                ),
                Color::Black => bit_set(
                    self.palace_mask(1),
                    bb_index(pos.spec_x(), pos.spec_y()) as u128,
                ),
                Color::Neutral => false,
            }),
    {
        let index = Self::pos_to_index(pos);
        if index < 128 {
            let bit: u128 = 1u128 << index;
            let pi: usize = match color {
                Color::Red => 0,
                Color::Black => 1,
                Color::Neutral => {
                    return false;
                },
            };
            proof {
                lemma_bit_test(self.palace_mask(pi as int), index as u128);
            }
            (self.palace[pi] & bit) != 0
        } else {
            false
        }
    }
}

/// Clearing bit `i` leaves exactly the other bits.
proof fn lemma_bit_clear(m: u128, i: u128, j: u128)
    by (bit_vector)
    requires
        i < 128,
        j < 128,
    ensures
        bit_set(m & !(1u128 << i), j) == (j != i && bit_set(m, j)),
{
}

/// Setting bit `i` leaves exactly the other bits and makes bit `i` true.
proof fn lemma_bit_or(m: u128, i: u128, j: u128)
    by (bit_vector)
    requires
        i < 128,
        j < 128,
    ensures
        bit_set(m | (1u128 << i), j) == (j == i || bit_set(m, j)),
{
}

/// Testing a single-bit mask agrees with `bit_set`.
proof fn lemma_bit_test(m: u128, i: u128)
    by (bit_vector)
    requires
        i < 128,
    ensures
        ((m & (1u128 << i)) != 0) == bit_set(m, i),
{
}

/// Where the two palace masks have their bits, for real squares.
pub proof fn lemma_palace_bits(x: u8, y: u8)
    requires
        x < 9,
        y < 10,
    ensures
        bit_set(RED_PALACE_MASK, (x + 9 * y) as u128) == (3 <= x <= 5 && y <= 2),
        bit_set(BLACK_PALACE_MASK, (x + 9 * y) as u128) == (3 <= x <= 5 && 7 <= y),
{
    assert(bit_set(RED_PALACE_MASK, (x + 9 * y) as u128) == (3 <= x <= 5 && y <= 2) && bit_set(
        BLACK_PALACE_MASK,
        (x + 9 * y) as u128,
    ) == (3 <= x <= 5 && 7 <= y)) by (bit_vector)
        requires
            x < 9,
            y < 10,
    ;
}

impl Clone for Bitboard {
    /// An equal mirror: every mask keeps its value.
    fn clone(&self) -> (r: Self)
        ensures
            r.wf() == self.wf(),
            forall|k: int| r.piece_mask(k) == self.piece_mask(k),
            forall|c: int| r.color_mask(c) == self.color_mask(c),
            forall|p: int| r.palace_mask(p) == self.palace_mask(p),
    {
        Bitboard {
            pieces: crate::vec_util::copy_vec(&self.pieces),
            colors: crate::vec_util::copy_vec(&self.colors),
            palace: crate::vec_util::copy_vec(&self.palace),
        }
    }
}

} // verus!
