use vstd::prelude::*;

verus! {

/// A board coordinate packed into one byte: the file in the high nibble,
/// the rank in the low nibble. Valid iff file < 9 and rank < 10.
#[derive(Debug, Clone, Copy, PartialEq, Eq, Hash, Structural)]
pub struct Position {
    data: u8,
}

impl Position {
    /// The packed value a call of `new(x, y)` produces.
    pub closed spec fn spec_new(x: u8, y: u8) -> Position {
        Position { data: (x << 4) | y }
    }

    /// The file (column) stored in this coordinate.
    pub closed spec fn spec_x(self) -> u8 {
        self.data >> 4
    }

    /// The rank (row) stored in this coordinate.
    pub closed spec fn spec_y(self) -> u8 {
        self.data & 0x0F
    }

    /// The packed byte itself.
    pub closed spec fn data_spec(self) -> u8 {
        self.data
    }

    /// A coordinate names a real square iff the file is below 9 and the rank below 10.
    pub open spec fn spec_valid(self) -> bool {
        self.spec_x() < 9 && self.spec_y() < 10
    }

    pub fn new(x: u8, y: u8) -> (r: Self)
        ensures
            r == Position::spec_new(x, y),
            x < 16 && y < 16 ==> r.spec_x() == x && r.spec_y() == y,
    {
        proof {
            lemma_pack_unpack(x, y);
        }
        Position { data: (x << 4) | y }
    }

    pub fn x(&self) -> (r: u8)
        ensures
            r == self.spec_x(),
            r < 16,
    {
        proof {
            lemma_coord_bounds(*self);
        }
        self.data >> 4
    }

    pub fn y(&self) -> (r: u8)
        ensures
            r == self.spec_y(),
            r < 16,
    {
        proof {
            lemma_coord_bounds(*self);
        }
        self.data & 0x0F
    }

    pub fn is_valid(&self) -> (r: bool)
        ensures
            r == self.spec_valid(),
    {
        self.x() < 9 && self.y() < 10
    }
}

/// Both coordinate fields of a packed position fit in a nibble.
pub proof fn lemma_coord_bounds(p: Position)
    ensures
        p.spec_x() < 16,
        p.spec_y() < 16,
{
    let d = p.data_spec();
    assert(d >> 4 < 16 && d & 0x0F < 16) by (bit_vector);
}

/// The coordinates `spec_new` packs are recovered by `spec_x` and `spec_y`.
pub proof fn lemma_spec_new_coords(x: u8, y: u8)
    requires
        x < 16,
        y < 16,
    ensures
        Position::spec_new(x, y).spec_x() == x,
        Position::spec_new(x, y).spec_y() == y,
{
    lemma_pack_unpack(x, y);
}

/// Packing a file and rank below 16 into one byte loses nothing.
pub proof fn lemma_pack_unpack(x: u8, y: u8)
    ensures
        x < 16 && y < 16 ==> ((x << 4) | y) >> 4 == x && ((x << 4) | y) & 0x0F == y,
{
    assert(x < 16 && y < 16 ==> ((x << 4) | y) >> 4 == x && ((x << 4) | y) & 0x0F == y)
        by (bit_vector);
}

} // verus!
