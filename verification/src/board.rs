use vstd::prelude::*;

use crate::bitboard::{bb_index, bit_set, Bitboard, BLACK_PALACE_MASK, RED_PALACE_MASK};
use crate::board_cache::BoardCache;
use crate::piece::{color_index, piece_type_index, Color, Piece, PieceType};
use crate::position::Position;
use crate::zobrist::{grid_hash, ZobristHash};

verus! {

/// True iff (x, y) names a real square: files 0..9, ranks 0..10.
pub open spec fn valid_square(x: int, y: int) -> bool {
    0 <= x < 9 && 0 <= y < 10
}

/// The grid is stored file-major: square (x, y) is entry x * 10 + y.
pub open spec fn square_at(g: Seq<Piece>, x: int, y: int) -> Piece {
    if valid_square(x, y) {
        g[x * 10 + y]
    } else {
        Piece::vacant()
    }
}

/// Occupancy that mask bit `j` of the kind-`k` mask must report.
pub open spec fn mask_bit_kind(g: Seq<Piece>, k: int, j: u128) -> bool {
    j < 90 && {
        let p = g[(j as int % 9) * 10 + (j as int / 9)];
        p.is_occupied() && piece_type_index(p.piece_type) == k
    }
}

/// Occupancy that mask bit `j` of the color-`c` mask must report.
pub open spec fn mask_bit_color(g: Seq<Piece>, c: int, j: u128) -> bool {
    j < 90 && {
        let p = g[(j as int % 9) * 10 + (j as int / 9)];
        p.is_occupied() && color_index(p.color) == c
    }
}

/// The bitboard mirrors the grid bit for bit, and its palace masks hold
/// their fixed values.
pub open spec fn bitboard_matches(bb: Bitboard, g: Seq<Piece>) -> bool {
    &&& bb.wf()
    &&& bb.palace_mask(0) == RED_PALACE_MASK
    &&& bb.palace_mask(1) == BLACK_PALACE_MASK
    &&& forall|k: int, j: u128|
        0 <= k < 8 && j < 128 ==> bit_set(bb.piece_mask(k), j) == mask_bit_kind(g, k, j)
    &&& forall|c: int, j: u128|
        0 <= c < 3 && j < 128 ==> bit_set(bb.color_mask(c), j) == mask_bit_color(g, c, j)
}

/// True iff the king of `color` stands on grid square `i`.
pub open spec fn king_on(g: Seq<Piece>, color: Color, i: int) -> bool {
    g[i].piece_type == PieceType::King && g[i].color == color
}

/// The first grid index at or after `i` holding `color`'s king.
pub open spec fn king_index_from(g: Seq<Piece>, color: Color, i: int) -> Option<int>
    decreases 90 - i,
{
    if i < 0 || i >= 90 {
        Option::None
    } else if king_on(g, color, i) {
        Option::Some(i)
    } else {
        king_index_from(g, color, i + 1)
    }
}

/// Where a full scan in file-major order first finds `color`'s king.
pub open spec fn king_index(g: Seq<Piece>, color: Color) -> Option<int> {
    king_index_from(g, color, 0)
}

/// A cached king coordinate agrees with a full scan of the grid.
pub open spec fn king_cache_ok(cached: Option<Position>, g: Seq<Piece>, color: Color) -> bool {
    match king_index(g, color) {
        Option::Some(i) => cached == Option::Some(
            Position::spec_new((i / 10) as u8, (i % 10) as u8),
        ),
        Option::None => cached is None,
    }
}

/// The empty grid.
pub open spec fn empty_grid() -> Seq<Piece> {
    Seq::new(90, |i: int| Piece::vacant())
}

/// The piece the standard starting layout puts on (x, y).
pub open spec fn initial_piece(x: int, y: int) -> Piece {
    if y == 0 || y == 9 {
        let color = if y == 0 {
            Color::Red
        } else {
            Color::Black
        };
        if x == 0 || x == 8 {
            Piece { piece_type: PieceType::Chariot, color }
        } else if x == 1 || x == 7 {
            Piece { piece_type: PieceType::Horse, color }
        } else if x == 2 || x == 6 {
            Piece { piece_type: PieceType::Elephant, color }
        } else if x == 3 || x == 5 {
            Piece { piece_type: PieceType::Advisor, color }
        } else {
            Piece { piece_type: PieceType::King, color }
        }
    } else if (y == 2 || y == 7) && (x == 1 || x == 7) {
        let color = if y == 2 {
            Color::Red
        } else {
            Color::Black
        };
        Piece { piece_type: PieceType::Cannon, color }
    } else if (y == 3 || y == 6) && (x == 0 || x == 2 || x == 4 || x == 6 || x == 8) {
        let color = if y == 3 {
            Color::Red
        } else {
            Color::Black
        };
        Piece { piece_type: PieceType::Pawn, color }
    } else {
        Piece::vacant()
    }
}

/// The standard starting layout: 32 pieces in their home squares.
pub open spec fn initial_grid() -> Seq<Piece> {
    Seq::new(90, |i: int| initial_piece(i / 10, i % 10))
}


/// The absolute difference of two coordinates.
pub open spec fn diff(a: int, b: int) -> int {
    if a >= b {
        a - b
    } else {
        b - a
    }
}

/// The 3x3 palace zone of a color.
pub open spec fn in_palace(color: Color, x: int, y: int) -> bool {
    3 <= x <= 5 && match color {
        Color::Red => 0 <= y <= 2,
        Color::Black => 7 <= y <= 9,
        Color::Neutral => false,
    }
}

/// Kings step one square orthogonally and stay in their palace.
pub open spec fn king_rule(fx: int, fy: int, tx: int, ty: int, c: Color) -> bool {
    (diff(fx, tx) == 1 && diff(fy, ty) == 0 || diff(fx, tx) == 0 && diff(fy, ty) == 1)
        && in_palace(c, tx, ty)
}

/// Advisors step one square diagonally and stay in their palace.
pub open spec fn advisor_rule(fx: int, fy: int, tx: int, ty: int, c: Color) -> bool {
    diff(fx, tx) == 1 && diff(fy, ty) == 1 && in_palace(c, tx, ty)
}

/// Elephants jump two squares diagonally, need the eye square empty, and
/// never cross the river.
pub open spec fn elephant_rule(g: Seq<Piece>, fx: int, fy: int, tx: int, ty: int, c: Color) -> bool {
    diff(fx, tx) == 2 && diff(fy, ty) == 2 && !square_at(
        g,
        (fx + tx) / 2,
        (fy + ty) / 2,
    ).is_occupied() && match c {
        Color::Red => ty < 5,
        Color::Black => ty >= 5,
        Color::Neutral => false,
    }
}

/// Horses move one-by-two and need the adjacent leg square empty.
pub open spec fn horse_rule(g: Seq<Piece>, fx: int, fy: int, tx: int, ty: int) -> bool {
    let dx = diff(fx, tx);
    let dy = diff(fy, ty);
    (dx == 1 && dy == 2 || dx == 2 && dy == 1) && !square_at(
        g,
        if dx == 2 {
            (fx + tx) / 2
        } else {
            fx
        },
        if dx == 2 {
            fy
        } else {
            (fy + ty) / 2
        },
    ).is_occupied()
}

/// Occupied squares on file `x` with rank in [y0, y1).
pub open spec fn occupied_vert(g: Seq<Piece>, x: int, y0: int, y1: int) -> int
    decreases y1 - y0,
{
    if y0 >= y1 {
        0
    } else {
        occupied_vert(g, x, y0, y1 - 1) + if square_at(g, x, y1 - 1).is_occupied() {
            1int
        } else {
            0int
        }
    }
}

/// Occupied squares on rank `y` with file in [x0, x1).
pub open spec fn occupied_horiz(g: Seq<Piece>, y: int, x0: int, x1: int) -> int
    decreases x1 - x0,
{
    if x0 >= x1 {
        0
    } else {
        occupied_horiz(g, y, x0, x1 - 1) + if square_at(g, x1 - 1, y).is_occupied() {
            1int
        } else {
            0int
        }
    }
}

/// Pieces standing strictly between two squares of one line (0 off a line).
pub open spec fn path_count(g: Seq<Piece>, fx: int, fy: int, tx: int, ty: int) -> int {
    if fx == tx {
        occupied_vert(g, fx, (if fy <= ty { fy } else { ty }) + 1, if fy <= ty { ty } else { fy })
    } else if fy == ty {
        occupied_horiz(g, fy, (if fx <= tx { fx } else { tx }) + 1, if fx <= tx { tx } else { fx })
    } else {
        0
    }
}

/// Chariots move along one line over empty squares.
pub open spec fn chariot_rule(g: Seq<Piece>, fx: int, fy: int, tx: int, ty: int) -> bool {
    (fx == tx || fy == ty) && path_count(g, fx, fy, tx, ty) == 0
}

/// Cannons move along one line: over empty squares when not capturing, over
/// exactly one screen piece when capturing.
pub open spec fn cannon_rule(g: Seq<Piece>, fx: int, fy: int, tx: int, ty: int) -> bool {
    (fx == tx || fy == ty) && if square_at(g, tx, ty).is_occupied() {
        path_count(g, fx, fy, tx, ty) == 1
    } else {
        path_count(g, fx, fy, tx, ty) == 0
    }
}

/// A pawn of `c` standing on rank `y` has crossed the river.
pub open spec fn pawn_crossed(c: Color, y: int) -> bool {
    match c {
        Color::Red => y >= 5,
        Color::Black => y < 5,
        Color::Neutral => false,
    }
}

/// Pawns step one square: forward always, sideways only past the river,
/// backward never.
pub open spec fn pawn_rule(fx: int, fy: int, tx: int, ty: int, c: Color) -> bool {
    let dx = diff(fx, tx);
    let dy = diff(fy, ty);
    if dx == 0 && dy == 1 {
        match c {
            Color::Red => ty > fy,
            Color::Black => ty < fy,
            Color::Neutral => false,
        }
    } else {
        dx == 1 && dy == 0 && pawn_crossed(c, fy)
    }
}

/// The full legality rule of one move shape: real squares, a piece of the
/// moving color at the origin, no friendly piece at the destination, and the
/// origin piece's own movement rule.
pub open spec fn move_ok(g: Seq<Piece>, fx: int, fy: int, tx: int, ty: int, c: Color) -> bool {
    &&& valid_square(fx, fy)
    &&& valid_square(tx, ty)
    &&& square_at(g, fx, fy).is_occupied()
    &&& square_at(g, fx, fy).color == c
    &&& square_at(g, tx, ty).color != c
    &&& match square_at(g, fx, fy).piece_type {
        PieceType::King => king_rule(fx, fy, tx, ty, c),
        PieceType::Advisor => advisor_rule(fx, fy, tx, ty, c),
        PieceType::Elephant => elephant_rule(g, fx, fy, tx, ty, c),
        PieceType::Horse => horse_rule(g, fx, fy, tx, ty),
        PieceType::Chariot => chariot_rule(g, fx, fy, tx, ty),
        PieceType::Cannon => cannon_rule(g, fx, fy, tx, ty),
        PieceType::Pawn => pawn_rule(fx, fy, tx, ty, c),
        PieceType::Vacant => false,
    }
}


/// The color whose pieces threaten `c`'s king.
pub open spec fn opponent_of(c: Color) -> Color {
    match c {
        Color::Red => Color::Black,
        Color::Black => Color::Red,
        Color::Neutral => Color::Neutral,
    }
}

/// `color`'s king (the first one a scan finds) is attacked by some
/// opposing piece under the movement rules.
pub open spec fn in_check(g: Seq<Piece>, color: Color) -> bool {
    match color {
        Color::Neutral => false,
        _ => match king_index(g, color) {
            Option::None => false,
            Option::Some(ki) => exists|x: int, y: int|
                #[trigger] move_ok(g, x, y, ki / 10, ki % 10, opponent_of(color)),
        },
    }
}

/// The single legality gate: the move obeys the rules and does not leave
/// the mover's own king in check.
pub open spec fn move_safe(g: Seq<Piece>, fx: int, fy: int, tx: int, ty: int, c: Color) -> bool {
    move_ok(g, fx, fy, tx, ty, c) && !in_check(Board::grid_after(g, fx, fy, tx, ty), c)
}

/// Some square pair gives `c` a safe, legal move.
pub open spec fn has_any_safe_move(g: Seq<Piece>, c: Color) -> bool {
    exists|fx: int, fy: int, tx: int, ty: int| #[trigger] move_safe(g, fx, fy, tx, ty, c)
}

/// Checkmate: in check with no safe move left.
pub open spec fn checkmate(g: Seq<Piece>, c: Color) -> bool {
    in_check(g, c) && !has_any_safe_move(g, c)
}

/// Stalemate: not in check, yet no safe move left.
pub open spec fn stalemate(g: Seq<Piece>, c: Color) -> bool {
    !in_check(g, c) && !has_any_safe_move(g, c)
}

/// The authoritative board: the 9x10 grid, plus the cached king coordinates,
/// the incrementally maintained hash, the bitboard mirror, and the transient
/// cache — all of which `inv` ties to the grid.
#[derive(Debug)]
pub struct Board {
    pieces: Vec<Piece>,
    red_king_pos: Option<Position>,
    black_king_pos: Option<Position>,
    zobrist_hash: ZobristHash,
    current_hash: u64,
    bitboard: Bitboard,
    cache: BoardCache,
}

impl Board {
    /// The grid, squares in file-major order.
    pub closed spec fn grid(self) -> Seq<Piece> {
        self.pieces@
    }

    /// The grid has exactly its 90 squares.
    pub closed spec fn grid_wf(self) -> bool {
        self.pieces@.len() == 90
    }

    /// The Zobrist table this board hashes with.
    pub closed spec fn table(self) -> Seq<u64> {
        self.zobrist_hash.spec_table()
    }

    /// The incrementally maintained hash.
    pub closed spec fn hash(self) -> u64 {
        self.current_hash
    }

    /// The cached coordinate of the Red king.
    pub closed spec fn red_king(self) -> Option<Position> {
        self.red_king_pos
    }

    /// The cached coordinate of the Black king.
    pub closed spec fn black_king(self) -> Option<Position> {
        self.black_king_pos
    }

    /// Every derived structure agrees with the grid: the hash equals a full
    /// recomputation, the king caches equal a full scan, the bitboard mirrors
    /// the grid, and the cache holds nothing stale.
    pub closed spec fn inv(self) -> bool {
        &&& self.grid_wf()
        &&& self.zobrist_hash.wf()
        &&& self.current_hash == grid_hash(self.table(), self.grid())
        &&& king_cache_ok(self.red_king_pos, self.grid(), Color::Red)
        &&& king_cache_ok(self.black_king_pos, self.grid(), Color::Black)
        &&& bitboard_matches(self.bitboard, self.grid())
        &&& self.cache.wf()
        &&& self.cache.all_clear_but_hash()
        &&& (self.cache.spec_hash() is None || self.cache.spec_hash() == Option::Some(
            self.current_hash,
        ))
    }

    /// `inv` guarantees the basic shape facts a caller outside this module
    /// may need to call the read-only accessors.
    pub proof fn lemma_inv_grid_wf(self)
        requires
            self.inv(),
        ensures
            self.grid_wf(),
            self.grid().len() == 90,
    {
    }

    /// The hash law: on every board that satisfies the invariant — and every
    /// constructor and mutator of this type establishes it — the
    /// incrementally maintained hash equals a recomputation from scratch
    /// over the grid, as `ZobristHash::calculate` performs it.
    pub proof fn lemma_hash_matches_recomputation(self)
        requires
            self.inv(),
        ensures
            self.hash() == grid_hash(self.table(), self.grid()),
    {
    }

    /// The piece standing on `pos`; a vacant piece for coordinates off the board.
    pub fn get_piece(&self, pos: Position) -> (r: Piece)
        requires
            self.grid_wf(),
        ensures
            r == square_at(self.grid(), pos.spec_x() as int, pos.spec_y() as int),
    {
        if pos.is_valid() {
            self.pieces[pos.x() as usize * 10 + pos.y() as usize]
        } else {
            Piece::default()
        }
    }



    /// The grid after the mover leaves `from` and lands on `to`.
    pub open spec fn grid_after(g: Seq<Piece>, fx: int, fy: int, tx: int, ty: int) -> Seq<Piece> {
        g.update(fx * 10 + fy, Piece::vacant()).update(tx * 10 + ty, square_at(g, fx, fy))
    }

    /// Place the 32 pieces of the standard starting layout.
    #[verifier::rlimit(50)]
    fn initialize(&mut self)
        requires
            old(self).grid_wf(),
            old(self).grid() == empty_grid(),
            bitboard_matches(old(self).bitboard, old(self).grid()),
        ensures
            final(self).grid_wf(),
            final(self).grid() == initial_grid(),
            bitboard_matches(final(self).bitboard, final(self).grid()),
            king_cache_ok(final(self).red_king_pos, final(self).grid(), Color::Red),
            king_cache_ok(final(self).black_king_pos, final(self).grid(), Color::Black),
            final(self).zobrist_hash == old(self).zobrist_hash,
            final(self).current_hash == old(self).current_hash,
            final(self).cache == old(self).cache,
    {
        let red = Color::Red;
        self.set_piece_sync(Position::new(0, 0), Piece { piece_type: PieceType::Chariot, color: red });
        self.set_piece_sync(Position::new(1, 0), Piece { piece_type: PieceType::Horse, color: red });
        self.set_piece_sync(Position::new(2, 0), Piece { piece_type: PieceType::Elephant, color: red });
        self.set_piece_sync(Position::new(3, 0), Piece { piece_type: PieceType::Advisor, color: red });
        self.set_piece_sync(Position::new(4, 0), Piece { piece_type: PieceType::King, color: red });
        self.set_piece_sync(Position::new(5, 0), Piece { piece_type: PieceType::Advisor, color: red });
        self.set_piece_sync(Position::new(6, 0), Piece { piece_type: PieceType::Elephant, color: red });
        self.set_piece_sync(Position::new(7, 0), Piece { piece_type: PieceType::Horse, color: red });
        self.set_piece_sync(Position::new(8, 0), Piece { piece_type: PieceType::Chariot, color: red });

        self.set_piece_sync(Position::new(1, 2), Piece { piece_type: PieceType::Cannon, color: red });
        self.set_piece_sync(Position::new(7, 2), Piece { piece_type: PieceType::Cannon, color: red });

        self.set_piece_sync(Position::new(0, 3), Piece { piece_type: PieceType::Pawn, color: red });
        self.set_piece_sync(Position::new(2, 3), Piece { piece_type: PieceType::Pawn, color: red });
        self.set_piece_sync(Position::new(4, 3), Piece { piece_type: PieceType::Pawn, color: red });
        self.set_piece_sync(Position::new(6, 3), Piece { piece_type: PieceType::Pawn, color: red });
        self.set_piece_sync(Position::new(8, 3), Piece { piece_type: PieceType::Pawn, color: red });

        let black = Color::Black;
        self.set_piece_sync(Position::new(0, 9), Piece { piece_type: PieceType::Chariot, color: black });
        self.set_piece_sync(Position::new(1, 9), Piece { piece_type: PieceType::Horse, color: black });
        self.set_piece_sync(Position::new(2, 9), Piece { piece_type: PieceType::Elephant, color: black });
        self.set_piece_sync(Position::new(3, 9), Piece { piece_type: PieceType::Advisor, color: black });
        self.set_piece_sync(Position::new(4, 9), Piece { piece_type: PieceType::King, color: black });
        self.set_piece_sync(Position::new(5, 9), Piece { piece_type: PieceType::Advisor, color: black });
        self.set_piece_sync(Position::new(6, 9), Piece { piece_type: PieceType::Elephant, color: black });
        self.set_piece_sync(Position::new(7, 9), Piece { piece_type: PieceType::Horse, color: black });
        self.set_piece_sync(Position::new(8, 9), Piece { piece_type: PieceType::Chariot, color: black });

        self.set_piece_sync(Position::new(1, 7), Piece { piece_type: PieceType::Cannon, color: black });
        self.set_piece_sync(Position::new(7, 7), Piece { piece_type: PieceType::Cannon, color: black });

        self.set_piece_sync(Position::new(0, 6), Piece { piece_type: PieceType::Pawn, color: black });
        self.set_piece_sync(Position::new(2, 6), Piece { piece_type: PieceType::Pawn, color: black });
        self.set_piece_sync(Position::new(4, 6), Piece { piece_type: PieceType::Pawn, color: black });
        self.set_piece_sync(Position::new(6, 6), Piece { piece_type: PieceType::Pawn, color: black });
        self.set_piece_sync(Position::new(8, 6), Piece { piece_type: PieceType::Pawn, color: black });

        proof {
            assert forall|i: int| 0 <= i < 90 implies self.pieces@[i] == initial_grid()[i] by {
                lemma_square_of_grid_index(i);
            }
            assert(self.pieces@ =~= initial_grid());
        }

        self.update_king_positions();
    }

    pub fn new() -> (r: Self)
        ensures
            r.inv(),
            r.grid() == initial_grid(),
    {
        let mut board = Board::default();

        board.initialize();
        let h = board.zobrist_hash.calculate(&board);
        board.current_hash = h;
        board.cache.cache_hash(h);

        board
    }

    /// The current position hash.
    pub fn get_hash(&self) -> (r: u64)
        ensures
            r == self.hash(),
    {
        self.current_hash
    }

    /// Overwrite one square, re-derive the king caches if a king was placed
    /// or displaced, recompute the hash from scratch, and drop the cache.
    /// Coordinates off the board are ignored.
    pub fn set_piece(&mut self, pos: Position, piece: Piece)
        requires
            old(self).inv(),
        ensures
            final(self).inv(),
            final(self).table() == old(self).table(),
            final(self).grid() == if pos.spec_valid() {
                old(self).grid().update(pos.spec_x() as int * 10 + pos.spec_y() as int, piece)
            } else {
                old(self).grid()
            },
            final(self).hash() == grid_hash(final(self).table(), final(self).grid()),
    {
        if pos.is_valid() {
            let displaced = self.get_piece(pos);
            self.set_piece_sync(pos, piece);

            if piece.piece_type == PieceType::King || displaced.piece_type == PieceType::King {
                self.update_king_positions();
            } else {
                proof {
                    let g1 = old(self).grid();
                    let g2 = self.pieces@;
                    assert forall|m: int| 0 <= m < 90 implies king_on(g1, Color::Red, m)
                        == king_on(g2, Color::Red, m) by {}
                    assert forall|m: int| 0 <= m < 90 implies king_on(g1, Color::Black, m)
                        == king_on(g2, Color::Black, m) by {}
                    lemma_king_scan_agrees(g1, g2, Color::Red, 0);
                    lemma_king_scan_agrees(g1, g2, Color::Black, 0);
                }
            }

            let h = self.zobrist_hash.calculate(self);
            self.current_hash = h;
            self.cache.clear();
            self.cache.cache_hash(h);
        }
    }

    /// Move the piece on `from` to `to`, capturing whatever stood there:
    /// write the two squares, keep the king caches current, step the hash
    /// incrementally, and drop the cache. No legality is checked here;
    /// callers check it first.
    pub fn make_move(&mut self, from: Position, to: Position)
        requires
            old(self).inv(),
            from.spec_valid(),
            to.spec_valid(),
            !(from.spec_x() == to.spec_x() && from.spec_y() == to.spec_y()),
            square_at(
                old(self).grid(),
                from.spec_x() as int,
                from.spec_y() as int,
            ).is_occupied(),
        ensures
            final(self).inv(),
            final(self).table() == old(self).table(),
            final(self).grid() == Board::grid_after(
                old(self).grid(),
                from.spec_x() as int,
                from.spec_y() as int,
                to.spec_x() as int,
                to.spec_y() as int,
            ),
            final(self).hash() == grid_hash(final(self).table(), final(self).grid()),
    {
        let ghost g1 = old(self).grid();
        let ghost t = old(self).table();
        let ghost fx = from.spec_x() as int;
        let ghost fy = from.spec_y() as int;
        let ghost tx = to.spec_x() as int;
        let ghost ty = to.spec_y() as int;
        let ghost fi = fx * 10 + fy;
        let ghost ti = tx * 10 + ty;

        let moved_piece = self.get_piece(from);
        let captured_piece = self.get_piece(to);

        self.set_piece_sync(from, Piece::default());
        self.set_piece_sync(to, moved_piece);

        proof {
            lemma_grid_index_coords(fx, fy);
            lemma_grid_index_coords(tx, ty);
            assert(fi != ti);
        }

        if moved_piece.piece_type == PieceType::King || captured_piece.piece_type
            == PieceType::King {
            self.update_king_positions();
        } else {
            proof {
                let g2 = self.pieces@;
                assert forall|m: int| 0 <= m < 90 implies king_on(g1, Color::Red, m) == king_on(
                    g2,
                    Color::Red,
                    m,
                ) by {}
                assert forall|m: int| 0 <= m < 90 implies king_on(g1, Color::Black, m) == king_on(
                    g2,
                    Color::Black,
                    m,
                ) by {}
                lemma_king_scan_agrees(g1, g2, Color::Red, 0);
                lemma_king_scan_agrees(g1, g2, Color::Black, 0);
            }
        }

        let h = self.zobrist_hash.update(
            self.current_hash,
            from,
            to,
            moved_piece,
            captured_piece,
        );
        proof {
            let gmid = g1.update(fi, Piece::vacant());
            let g2 = self.pieces@;
            assert(g2 == gmid.update(ti, moved_piece));
            crate::zobrist::lemma_hash_point_update(t, g1, gmid, fi, 90);
            assert(crate::zobrist::square_value(t, gmid, fi) == 0);
            crate::zobrist::lemma_xor_zero(
                grid_hash(t, g1) ^ crate::zobrist::square_value(t, g1, fi),
            );
            crate::zobrist::lemma_hash_point_update(t, gmid, g2, ti, 90);
            assert(gmid[ti] == g1[ti]);
        }
        self.current_hash = h;

        self.cache.clear();
        self.cache.cache_hash(h);
    }


    /// Is `color`'s king under attack in the current position?
    pub fn is_in_check(&self, color: Color) -> (r: bool)
        requires
            self.inv(),
        ensures
            r == in_check(self.grid(), color),
    {
        // The status cache is consulted here, but no path ever writes it
        // back, so under `inv` this lookup never hits and the scan below
        // always runs.
        if let Option::Some(status) = self.cache.get_cached_check_status(color) {
            return status;
        }

        let king_pos_opt = match color {
            Color::Red => self.red_king_pos,
            Color::Black => self.black_king_pos,
            Color::Neutral => {
                return false;
            },
        };

        let king_pos = match king_pos_opt {
            Option::Some(p) => p,
            Option::None => {
                return false;
            },
        };

        let opponent_color = match color {
            Color::Red => Color::Black,
            Color::Black => Color::Red,
            Color::Neutral => {
                return false;
            },
        };

        let ghost g = self.grid();
        let ghost ki = king_index(g, color)->Some_0;
        proof {
            lemma_king_index_some(g, color, 0, ki);
            crate::position::lemma_spec_new_coords((ki / 10) as u8, (ki % 10) as u8);
        }
        let ghost kx = ki / 10;
        let ghost ky = ki % 10;

        let mut x: u8 = 0;
        while x < 9
            invariant
                self.inv(),
                g == self.grid(),
                x <= 9,
                king_index(g, color) == Option::Some(ki),
                0 <= ki < 90,
                kx == ki / 10,
                ky == ki % 10,
                king_pos.spec_x() == kx,
                king_pos.spec_y() == ky,
                opponent_color == opponent_of(color),
                color != Color::Neutral,
                forall|a: int, b: int| a < x ==> !(#[trigger] move_ok(g, a, b, kx, ky, opponent_color)),
            decreases 9 - x,
        {
            let mut y: u8 = 0;
            while y < 10
                invariant
                    self.inv(),
                    g == self.grid(),
                    x < 9,
                    y <= 10,
                    king_index(g, color) == Option::Some(ki),
                    0 <= ki < 90,
                    kx == ki / 10,
                    ky == ki % 10,
                    king_pos.spec_x() == kx,
                    king_pos.spec_y() == ky,
                    opponent_color == opponent_of(color),
                    color != Color::Neutral,
                    forall|a: int, b: int|
                        a < x || (a == x && b < y) ==> !(#[trigger] move_ok(
                            g,
                            a,
                            b,
                            kx,
                            ky,
                            opponent_color,
                        )),
                decreases 10 - y,
            {
                let from = Position::new(x, y);
                if self.bitboard.has_color(from, opponent_color) {
                    let piece = self.get_piece(from);
                    if piece.piece_type != PieceType::Vacant {
                        if self.is_move_valid(from, king_pos, opponent_color) {
                            proof {
                                assert(move_ok(g, x as int, y as int, kx, ky, opponent_color));
                            }
                            return true;
                        }
                    }
                }
                proof {
                    lemma_mask_index_of_square(x as int, y as int);
                    let ci = color_index(opponent_color);
                    let j = (x + 9 * y) as u128;
                    assert(bit_set(self.bitboard.color_mask(ci), j) == mask_bit_color(g, ci, j));
                    assert(!move_ok(g, x as int, y as int, kx, ky, opponent_color));
                }
                y = y + 1;
            }
            x = x + 1;
        }

        proof {
            assert forall|a: int, b: int| !(#[trigger] move_ok(
                g,
                a,
                b,
                kx,
                ky,
                opponent_color,
            )) by {
                if 0 <= a < 9 {
                }
            }
        }
        false
    }

    /// The single legality gate: try the move, test for self-check, and roll
    /// the board back to exactly its prior grid, hash and king caches,
    /// whatever the outcome.
    pub fn is_move_safe(&mut self, from: Position, to: Position, color: Color) -> (r: bool)
        requires
            old(self).inv(),
        ensures
            final(self).inv(),
            final(self).grid() == old(self).grid(),
            final(self).hash() == old(self).hash(),
            final(self).red_king() == old(self).red_king(),
            final(self).black_king() == old(self).black_king(),
            final(self).table() == old(self).table(),
            r == move_safe(
                old(self).grid(),
                from.spec_x() as int,
                from.spec_y() as int,
                to.spec_x() as int,
                to.spec_y() as int,
                color,
            ),
    {
        if !self.is_move_valid(from, to, color) {
            return false;
        }

        let original_from = self.get_piece(from);
        let original_to = self.get_piece(to);
        let original_hash = self.current_hash;
        let original_red_king = self.red_king_pos;
        let original_black_king = self.black_king_pos;

        proof {
            let g1 = old(self).grid();
            let fx = from.spec_x() as int;
            let fy = from.spec_y() as int;
            let tx = to.spec_x() as int;
            let ty = to.spec_y() as int;
            assert(move_ok(g1, fx, fy, tx, ty, color));
            assert(!(fx == tx && fy == ty));
        }

        self.make_move(from, to);

        let is_safe = !self.is_in_check(color);

        self.set_piece_sync(from, original_from);
        self.set_piece_sync(to, original_to);
        self.current_hash = original_hash;
        self.red_king_pos = original_red_king;
        self.black_king_pos = original_black_king;

        self.cache.clear();
        self.cache.cache_hash(original_hash);

        proof {
            assert(self.pieces@ =~= old(self).grid());
        }

        is_safe
    }

    /// Does `color` have any move that is both legal and safe? Simulation
    /// runs on a clone, so the board itself is never touched.
    pub fn has_legal_moves(&self, color: Color) -> (r: bool)
        requires
            self.inv(),
        ensures
            r == has_any_safe_move(self.grid(), color),
    {
        let mut temp_board = self.clone();
        let ghost g = self.grid();

        let mut x1: u8 = 0;
        while x1 < 9
            invariant
                self.inv(),
                g == self.grid(),
                temp_board.inv(),
                temp_board.grid() == g,
                x1 <= 9,
                forall|a: int, b: int, c2: int, d: int|
                    a < x1 ==> !(#[trigger] move_safe(g, a, b, c2, d, color)),
            decreases 9 - x1,
        {
            let mut y1: u8 = 0;
            while y1 < 10
                invariant
                    self.inv(),
                    g == self.grid(),
                    temp_board.inv(),
                    temp_board.grid() == g,
                    x1 < 9,
                    y1 <= 10,
                    forall|a: int, b: int, c2: int, d: int|
                        a < x1 || (a == x1 && b < y1) ==> !(#[trigger] move_safe(
                            g,
                            a,
                            b,
                            c2,
                            d,
                            color,
                        )),
                decreases 10 - y1,
            {
                let from = Position::new(x1, y1);
                let from_piece = self.get_piece(from);

                if from_piece.color == color {
                    let mut x2: u8 = 0;
                    while x2 < 9
                        invariant
                            self.inv(),
                            g == self.grid(),
                            temp_board.inv(),
                            temp_board.grid() == g,
                            x1 < 9,
                            y1 < 10,
                            from.spec_x() == x1,
                            from.spec_y() == y1,
                            x2 <= 9,
                            forall|c2: int, d: int|
                                c2 < x2 ==> !(#[trigger] move_safe(
                                    g,
                                    x1 as int,
                                    y1 as int,
                                    c2,
                                    d,
                                    color,
                                )),
                        decreases 9 - x2,
                    {
                        let mut y2: u8 = 0;
                        while y2 < 10
                            invariant
                                self.inv(),
                                g == self.grid(),
                                temp_board.inv(),
                                temp_board.grid() == g,
                                x1 < 9,
                                y1 < 10,
                                from.spec_x() == x1,
                                from.spec_y() == y1,
                                x2 < 9,
                                y2 <= 10,
                                forall|c2: int, d: int|
                                    c2 < x2 || (c2 == x2 && d < y2) ==> !(#[trigger] move_safe(
                                        g,
                                        x1 as int,
                                        y1 as int,
                                        c2,
                                        d,
                                        color,
                                    )),
                            decreases 10 - y2,
                        {
                            let to = Position::new(x2, y2);
                            if self.is_move_valid(from, to, color) {
                                if temp_board.is_move_safe(from, to, color) {
                                    proof {
                                        assert(move_safe(
                                            g,
                                            x1 as int,
                                            y1 as int,
                                            x2 as int,
                                            y2 as int,
                                            color,
                                        ));
                                    }
                                    return true;
                                }
                            }
                            proof {
                                assert(!move_safe(
                                    g,
                                    x1 as int,
                                    y1 as int,
                                    x2 as int,
                                    y2 as int,
                                    color,
                                ));
                            }
                            y2 = y2 + 1;
                        }
                        x2 = x2 + 1;
                    }
                } else {
                    proof {
                        assert forall|c2: int, d: int| !(#[trigger] move_safe(
                            g,
                            x1 as int,
                            y1 as int,
                            c2,
                            d,
                            color,
                        )) by {}
                    }
                }
                y1 = y1 + 1;
            }
            x1 = x1 + 1;
        }

        proof {
            assert forall|a: int, b: int, c2: int, d: int| !(#[trigger] move_safe(
                g,
                a,
                b,
                c2,
                d,
                color,
            )) by {
                if 0 <= a < 9 {
                }
            }
        }
        false
    }

    /// Checkmate: in check and without a single safe move.
    pub fn is_checkmate(&self, color: Color) -> (r: bool)
        requires
            self.inv(),
        ensures
            r == checkmate(self.grid(), color),
    {
        if !self.is_in_check(color) {
            return false;
        }
        !self.has_legal_moves(color)
    }

    /// Stalemate: not in check, yet without a single safe move.
    pub fn is_stalemate(&self, color: Color) -> (r: bool)
        requires
            self.inv(),
        ensures
            r == stalemate(self.grid(), color),
    {
        if self.is_in_check(color) {
            return false;
        }
        !self.has_legal_moves(color)
    }

    /// Does moving `color`'s piece from `from` to `to` obey the movement
    /// rules? No check-safety is tested here.
    pub fn is_move_valid(&self, from: Position, to: Position, color: Color) -> (r: bool)
        requires
            self.inv(),
        ensures
            r == move_ok(
                self.grid(),
                from.spec_x() as int,
                from.spec_y() as int,
                to.spec_x() as int,
                to.spec_y() as int,
                color,
            ),
    {
        if !from.is_valid() || !to.is_valid() {
            return false;
        }
        let from_piece = self.get_piece(from);
        if from_piece.piece_type == PieceType::Vacant {
            return false;
        }
        if from_piece.color != color {
            return false;
        }
        let to_piece = self.get_piece(to);
        if to_piece.color == color {
            return false;
        }
        match from_piece.piece_type {
            PieceType::King => self.is_king_move_valid(from, to),
            PieceType::Advisor => self.is_advisor_move_valid(from, to),
            PieceType::Elephant => self.is_elephant_move_valid(from, to),
            PieceType::Horse => self.is_horse_move_valid(from, to),
            PieceType::Chariot => self.is_chariot_move_valid(from, to),
            PieceType::Cannon => self.is_cannon_move_valid(from, to),
            PieceType::Pawn => self.is_pawn_move_valid(from, to, color),
            _ => false,
        }
    }

    /// Advisor shape: one diagonal step ending inside the mover's palace.
    fn is_advisor_move_valid(&self, from: Position, to: Position) -> (r: bool)
        requires
            self.inv(),
            from.spec_valid(),
            to.spec_valid(),
        ensures
            r == advisor_rule(
                from.spec_x() as int,
                from.spec_y() as int,
                to.spec_x() as int,
                to.spec_y() as int,
                square_at(self.grid(), from.spec_x() as int, from.spec_y() as int).color,
            ),
    {
        let fx = from.x();
        let fy = from.y();
        let tx = to.x();
        let ty = to.y();
        let dx = if fx >= tx { fx - tx } else { tx - fx };
        let dy = if fy >= ty { fy - ty } else { ty - fy };

        if !(dx == 1 && dy == 1) {
            return false;
        }

        let piece = self.get_piece(from);
        proof {
            crate::bitboard::lemma_palace_bits(to.spec_x(), to.spec_y());
        }
        self.bitboard.is_in_palace(to, piece.color)
    }

    /// King shape: one orthogonal step ending inside the mover's palace.
    fn is_king_move_valid(&self, from: Position, to: Position) -> (r: bool)
        requires
            self.inv(),
            from.spec_valid(),
            to.spec_valid(),
        ensures
            r == king_rule(
                from.spec_x() as int,
                from.spec_y() as int,
                to.spec_x() as int,
                to.spec_y() as int,
                square_at(self.grid(), from.spec_x() as int, from.spec_y() as int).color,
            ),
    {
        let fx = from.x();
        let fy = from.y();
        let tx = to.x();
        let ty = to.y();
        let dx = if fx >= tx { fx - tx } else { tx - fx };
        let dy = if fy >= ty { fy - ty } else { ty - fy };

        if !(dx == 1 && dy == 0 || dx == 0 && dy == 1) {
            return false;
        }

        let piece = self.get_piece(from);
        proof {
            crate::bitboard::lemma_palace_bits(to.spec_x(), to.spec_y());
        }
        self.bitboard.is_in_palace(to, piece.color)
    }

    /// Elephant shape: two diagonal steps, an empty eye square, and no
    /// crossing of the river.
    fn is_elephant_move_valid(&self, from: Position, to: Position) -> (r: bool)
        requires
            self.grid_wf(),
            from.spec_valid(),
            to.spec_valid(),
        ensures
            r == elephant_rule(
                self.grid(),
                from.spec_x() as int,
                from.spec_y() as int,
                to.spec_x() as int,
                to.spec_y() as int,
                square_at(self.grid(), from.spec_x() as int, from.spec_y() as int).color,
            ),
    {
        let fx = from.x();
        let fy = from.y();
        let tx = to.x();
        let ty = to.y();
        let dx = if fx >= tx { fx - tx } else { tx - fx };
        let dy = if fy >= ty { fy - ty } else { ty - fy };

        if !(dx == 2 && dy == 2) {
            return false;
        }

        let eye_x = (fx + tx) / 2;
        let eye_y = (fy + ty) / 2;
        let eye_pos = Position::new(eye_x, eye_y);
        if self.get_piece(eye_pos).piece_type != PieceType::Vacant {
            return false;
        }

        let piece = self.get_piece(from);
        match piece.color {
            Color::Red => ty < 5,
            Color::Black => ty >= 5,
            _ => false,
        }
    }

    /// Horse shape: a one-by-two jump with an empty leg square.
    fn is_horse_move_valid(&self, from: Position, to: Position) -> (r: bool)
        requires
            self.grid_wf(),
            from.spec_valid(),
            to.spec_valid(),
        ensures
            r == horse_rule(
                self.grid(),
                from.spec_x() as int,
                from.spec_y() as int,
                to.spec_x() as int,
                to.spec_y() as int,
            ),
    {
        let fx = from.x();
        let fy = from.y();
        let tx = to.x();
        let ty = to.y();
        let dx = if fx >= tx { fx - tx } else { tx - fx };
        let dy = if fy >= ty { fy - ty } else { ty - fy };

        if !(dx == 1 && dy == 2 || dx == 2 && dy == 1) {
            return false;
        }

        let leg_x: u8;
        let leg_y: u8;
        if dx == 2 {
            leg_x = (fx + tx) / 2;
            leg_y = fy;
        } else {
            leg_x = fx;
            leg_y = (fy + ty) / 2;
        }

        let leg_pos = Position::new(leg_x, leg_y);
        self.get_piece(leg_pos).piece_type == PieceType::Vacant
    }

    /// Chariot shape: a straight line over empty squares.
    fn is_chariot_move_valid(&self, from: Position, to: Position) -> (r: bool)
        requires
            self.grid_wf(),
        ensures
            r == chariot_rule(
                self.grid(),
                from.spec_x() as int,
                from.spec_y() as int,
                to.spec_x() as int,
                to.spec_y() as int,
            ),
    {
        if from.x() != to.x() && from.y() != to.y() {
            return false;
        }
        self.is_path_clear(from, to)
    }

    /// Cannon shape: a straight line, empty when moving, with exactly one
    /// screen piece when capturing.
    fn is_cannon_move_valid(&self, from: Position, to: Position) -> (r: bool)
        requires
            self.grid_wf(),
        ensures
            r == cannon_rule(
                self.grid(),
                from.spec_x() as int,
                from.spec_y() as int,
                to.spec_x() as int,
                to.spec_y() as int,
            ),
    {
        if from.x() != to.x() && from.y() != to.y() {
            return false;
        }

        let to_piece = self.get_piece(to);
        let has_capture = to_piece.piece_type != PieceType::Vacant;

        let piece_count = self.count_pieces_on_path(from, to);

        if has_capture {
            piece_count == 1
        } else {
            piece_count == 0
        }
    }

    /// Pawn shape: one forward step, or one sideways step after the river.
    fn is_pawn_move_valid(&self, from: Position, to: Position, color: Color) -> (r: bool)
        requires
            self.grid_wf(),
        ensures
            r == pawn_rule(
                from.spec_x() as int,
                from.spec_y() as int,
                to.spec_x() as int,
                to.spec_y() as int,
                color,
            ),
    {
        let fx = from.x();
        let fy = from.y();
        let tx = to.x();
        let ty = to.y();
        let dx = if fx >= tx { fx - tx } else { tx - fx };
        let dy = if fy >= ty { fy - ty } else { ty - fy };

        if dx == 0 && dy == 1 {
            match color {
                Color::Red => ty > fy,
                Color::Black => ty < fy,
                _ => false,
            }
        } else {
            dx == 1 && dy == 0 && self.is_pawn_crossed_river(from, color)
        }
    }

    /// Has a pawn of `color` standing on `pos` crossed the river?
    fn is_pawn_crossed_river(&self, pos: Position, color: Color) -> (r: bool)
        ensures
            r == pawn_crossed(color, pos.spec_y() as int),
    {
        match color {
            Color::Red => pos.y() >= 5,
            Color::Black => pos.y() < 5,
            _ => false,
        }
    }

    /// Is the straight line between the two squares free of pieces?
    fn is_path_clear(&self, from: Position, to: Position) -> (r: bool)
        requires
            self.grid_wf(),
        ensures
            r == (path_count(
                self.grid(),
                from.spec_x() as int,
                from.spec_y() as int,
                to.spec_x() as int,
                to.spec_y() as int,
            ) == 0),
    {
        self.count_pieces_on_path(from, to) == 0
    }

    /// How many pieces stand strictly between two squares of one line?
    fn count_pieces_on_path(&self, from: Position, to: Position) -> (r: u32)
        requires
            self.grid_wf(),
        ensures
            r == path_count(
                self.grid(),
                from.spec_x() as int,
                from.spec_y() as int,
                to.spec_x() as int,
                to.spec_y() as int,
            ),
    {
        let ghost g = self.grid();
        let mut count: u32 = 0;

        if from.x() == to.x() {
            let start = if from.y() <= to.y() {
                from.y()
            } else {
                to.y()
            } + 1;
            let end = if from.y() <= to.y() {
                to.y()
            } else {
                from.y()
            };

            let mut y = start;
            while y < end
                invariant
                    self.grid_wf(),
                    g == self.grid(),
                    end < 16,
                    start <= y <= end || (y == start && start > end),
                    count == occupied_vert(g, from.spec_x() as int, start as int, y as int),
                    count <= y,
                decreases end - y,
            {
                let pos = Position::new(from.x(), y);
                if self.get_piece(pos).piece_type != PieceType::Vacant {
                    count = count + 1;
                }
                y = y + 1;
            }
        } else if from.y() == to.y() {
            let start = if from.x() <= to.x() {
                from.x()
            } else {
                to.x()
            } + 1;
            let end = if from.x() <= to.x() {
                to.x()
            } else {
                from.x()
            };

            let mut x = start;
            while x < end
                invariant
                    self.grid_wf(),
                    g == self.grid(),
                    end < 16,
                    start <= x <= end || (x == start && start > end),
                    count == occupied_horiz(g, from.spec_y() as int, start as int, x as int),
                    count <= x,
                decreases end - x,
            {
                let pos = Position::new(x, from.y());
                if self.get_piece(pos).piece_type != PieceType::Vacant {
                    count = count + 1;
                }
                x = x + 1;
            }
        }
        count
    }

    /// Scan the grid in file-major order for `color`'s king.
    pub fn find_king(&self, color: Color) -> (r: Option<Position>)
        requires
            self.grid_wf(),
        ensures
            king_cache_ok(r, self.grid(), color),
    {
        let ghost g = self.grid();
        let mut x: u8 = 0;
        while x < 9
            invariant
                self.grid_wf(),
                g == self.grid(),
                x <= 9,
                king_index(g, color) == king_index_from(g, color, 10 * x),
            decreases 9 - x,
        {
            let mut y: u8 = 0;
            while y < 10
                invariant
                    self.grid_wf(),
                    g == self.grid(),
                    x < 9,
                    y <= 10,
                    king_index(g, color) == king_index_from(g, color, 10 * x + y),
                decreases 10 - y,
            {
                let pos = Position::new(x, y);
                let piece = self.get_piece(pos);
                let is_king = match piece.piece_type {
                    PieceType::King => true,
                    _ => false,
                };
                let same_color = match (piece.color, color) {
                    (Color::Red, Color::Red) => true,
                    (Color::Black, Color::Black) => true,
                    (Color::Neutral, Color::Neutral) => true,
                    _ => false,
                };
                if is_king && same_color {
                    proof {
                        let i = 10 * x + y;
                        assert(king_on(g, color, i));
                        assert(king_index_from(g, color, i) == Option::Some(i));
                        vstd::arithmetic::div_mod::lemma_fundamental_div_mod_converse(
                            i,
                            10,
                            x as int,
                            y as int,
                        );
                    }
                    return Option::Some(pos);
                }
                proof {
                    let i = 10 * x + y;
                    assert(!king_on(g, color, i));
                    assert(king_index_from(g, color, i) == king_index_from(g, color, i + 1));
                }
                y = y + 1;
            }
            x = x + 1;
        }
        proof {
            assert(king_index_from(g, color, 90) is None);
        }
        Option::None
    }

    /// Re-derive both cached king coordinates by a full scan.
    fn update_king_positions(&mut self)
        requires
            old(self).grid_wf(),
        ensures
            final(self).pieces == old(self).pieces,
            final(self).zobrist_hash == old(self).zobrist_hash,
            final(self).current_hash == old(self).current_hash,
            final(self).bitboard == old(self).bitboard,
            final(self).cache == old(self).cache,
            king_cache_ok(final(self).red_king_pos, final(self).grid(), Color::Red),
            king_cache_ok(final(self).black_king_pos, final(self).grid(), Color::Black),
    {
        let r = self.find_king(Color::Red);
        self.red_king_pos = r;
        let b = self.find_king(Color::Black);
        self.black_king_pos = b;
    }

    /// Write `piece` to the grid and mirror the write in the bitboard;
    /// coordinates off the board are ignored.
    fn set_piece_sync(&mut self, pos: Position, piece: Piece)
        requires
            old(self).grid_wf(),
            bitboard_matches(old(self).bitboard, old(self).grid()),
        ensures
            final(self).grid_wf(),
            final(self).grid() == if pos.spec_valid() {
                old(self).grid().update(
                    pos.spec_x() as int * 10 + pos.spec_y() as int,
                    piece,
                )
            } else {
                old(self).grid()
            },
            bitboard_matches(final(self).bitboard, final(self).grid()),
            final(self).red_king_pos == old(self).red_king_pos,
            final(self).black_king_pos == old(self).black_king_pos,
            final(self).zobrist_hash == old(self).zobrist_hash,
            final(self).current_hash == old(self).current_hash,
            final(self).cache == old(self).cache,
    {
        if pos.is_valid() {
            let x = pos.x();
            let y = pos.y();
            let idx = x as usize * 10 + y as usize;
            self.pieces.set(idx, piece);
            self.bitboard.set_piece(pos, piece);
            proof {
                let gx = x as int;
                let gy = y as int;
                let gi = gx * 10 + gy;
                let ix = bb_index(x, y);
                lemma_mask_index_of_square(gx, gy);
                let bb1 = old(self).bitboard;
                let bb2 = self.bitboard;
                let g2 = self.pieces@;
                let g1 = old(self).grid();
                assert forall|k: int, j: u128| 0 <= k < 8 && j < 128 implies bit_set(
                    bb2.piece_mask(k),
                    j,
                ) == mask_bit_kind(g2, k, j) by {
                    assert(bit_set(bb1.piece_mask(k), j) == mask_bit_kind(g1, k, j));
                    if j == ix {
                        assert(g2[gi] == piece);
                    } else if j < 90 {
                        lemma_square_of_mask_index(j as int);
                        let jx = j as int % 9;
                        let jy = j as int / 9;
                        if jx * 10 + jy == gi {
                            lemma_grid_index_coords(jx, jy);
                            lemma_grid_index_coords(gx, gy);
                            assert(jx == gx && jy == gy);
                            assert(j == ix);
                        }
                        assert(g2[jx * 10 + jy] == g1[jx * 10 + jy]);
                    }
                }
                assert forall|c: int, j: u128| 0 <= c < 3 && j < 128 implies bit_set(
                    bb2.color_mask(c),
                    j,
                ) == mask_bit_color(g2, c, j) by {
                    assert(bit_set(bb1.color_mask(c), j) == mask_bit_color(g1, c, j));
                    if j == ix {
                        assert(g2[gi] == piece);
                    } else if j < 90 {
                        lemma_square_of_mask_index(j as int);
                        let jx = j as int % 9;
                        let jy = j as int / 9;
                        if jx * 10 + jy == gi {
                            lemma_grid_index_coords(jx, jy);
                            lemma_grid_index_coords(gx, gy);
                            assert(jx == gx && jy == gy);
                            assert(j == ix);
                        }
                        assert(g2[jx * 10 + jy] == g1[jx * 10 + jy]);
                    }
                }
            }
        }
    }
}


impl Clone for Board {
    /// A board equal to this one in every observable respect.
    fn clone(&self) -> (r: Self)
        ensures
            r.grid() == self.grid(),
            r.table() == self.table(),
            r.hash() == self.hash(),
            r.red_king() == self.red_king(),
            r.black_king() == self.black_king(),
            self.inv() ==> r.inv(),
    {
        Board {
            pieces: crate::vec_util::copy_vec(&self.pieces),
            red_king_pos: self.red_king_pos,
            black_king_pos: self.black_king_pos,
            zobrist_hash: self.zobrist_hash.clone(),
            current_hash: self.current_hash,
            bitboard: self.bitboard.clone(),
            cache: self.cache.clone(),
        }
    }
}

/// A scan that returns a king index found it in range, standing on a king square.
proof fn lemma_king_index_some(g: Seq<Piece>, color: Color, i: int, j: int)
    requires
        king_index_from(g, color, i) == Option::Some(j),
    ensures
        i <= j < 90,
        king_on(g, color, j),
    decreases 90 - i,
{
    if 0 <= i < 90 {
        if !king_on(g, color, i) {
            lemma_king_index_some(g, color, i + 1, j);
        }
    }
}

impl Default for Board {
    /// An empty board: vacant grid, no kings, hash zero, palace masks set.
    fn default() -> (r: Self)
        ensures
            r.inv(),
            r.grid() == empty_grid(),
            r.hash() == 0,
    {
        let mut pieces: Vec<Piece> = Vec::new();
        let mut i: usize = 0;
        while i < 90
            invariant
                pieces.len() == i,
                i <= 90,
                forall|m: int| 0 <= m < i ==> pieces[m] == Piece::vacant(),
            decreases 90 - i,
        {
            pieces.push(Piece::default());
            i = i + 1;
        }
        let mut bitboard = Bitboard::new();
        bitboard.init_special_positions();
        let board = Board {
            pieces,
            red_king_pos: Option::None,
            black_king_pos: Option::None,
            zobrist_hash: ZobristHash::new(),
            current_hash: 0,
            bitboard,
            cache: BoardCache::new(),
        };
        proof {
            assert(board.grid() =~= empty_grid());
            crate::zobrist::lemma_hash_empty(board.table(), board.grid(), 90);
            lemma_king_scan_none(board.grid(), Color::Red, 0);
            lemma_king_scan_none(board.grid(), Color::Black, 0);
            assert(0u128 | RED_PALACE_MASK == RED_PALACE_MASK) by (bit_vector);
            assert(0u128 | BLACK_PALACE_MASK == BLACK_PALACE_MASK) by (bit_vector);
            assert forall|k: int, j: u128| 0 <= k < 8 && j < 128 implies bit_set(
                board.bitboard.piece_mask(k),
                j,
            ) == mask_bit_kind(board.grid(), k, j) by {
                lemma_zero_bit(j);
                if j < 90 {
                    lemma_square_of_mask_index(j as int);
                }
            }
            assert forall|c: int, j: u128| 0 <= c < 3 && j < 128 implies bit_set(
                board.bitboard.color_mask(c),
                j,
            ) == mask_bit_color(board.grid(), c, j) by {
                lemma_zero_bit(j);
                if j < 90 {
                    lemma_square_of_mask_index(j as int);
                }
            }
        }
        board
    }
}

/// Bit `j` of the all-zero mask is clear.
proof fn lemma_zero_bit(j: u128)
    by (bit_vector)
    ensures
        !bit_set(0u128, j),
{
}

/// A mask index below 90 decomposes into the unique square it indexes.
proof fn lemma_square_of_mask_index(j: int)
    requires
        0 <= j < 90,
    ensures
        valid_square(j % 9, j / 9),
        j % 9 + 9 * (j / 9) == j,
{
    vstd::arithmetic::div_mod::lemma_fundamental_div_mod(j, 9);
    vstd::arithmetic::div_mod::lemma_mod_bound(j, 9);
}

/// A square's mask index decomposes back into the square.
proof fn lemma_mask_index_of_square(x: int, y: int)
    requires
        valid_square(x, y),
    ensures
        (x + 9 * y) % 9 == x,
        (x + 9 * y) / 9 == y,
        0 <= x + 9 * y < 90,
{
    vstd::arithmetic::div_mod::lemma_fundamental_div_mod_converse(x + 9 * y, 9, y, x);
}

/// A grid index below 90 decomposes into the unique square it indexes.
proof fn lemma_square_of_grid_index(i: int)
    requires
        0 <= i < 90,
    ensures
        valid_square(i / 10, i % 10),
        (i / 10) * 10 + i % 10 == i,
{
    vstd::arithmetic::div_mod::lemma_fundamental_div_mod(i, 10);
    vstd::arithmetic::div_mod::lemma_mod_bound(i, 10);
}

/// Scans of two grids with the same king squares agree.
proof fn lemma_king_scan_agrees(g1: Seq<Piece>, g2: Seq<Piece>, color: Color, i: int)
    requires
        forall|m: int| 0 <= m < 90 ==> king_on(g1, color, m) == king_on(g2, color, m),
        0 <= i <= 90,
    ensures
        king_index_from(g1, color, i) == king_index_from(g2, color, i),
    decreases 90 - i,
{
    if i < 90 {
        lemma_king_scan_agrees(g1, g2, color, i + 1);
    }
}

/// A square's grid index decomposes back into the square.
pub proof fn lemma_grid_index_coords(x: int, y: int)
    requires
        valid_square(x, y),
    ensures
        (x * 10 + y) / 10 == x,
        (x * 10 + y) % 10 == y,
        0 <= x * 10 + y < 90,
{
    vstd::arithmetic::div_mod::lemma_fundamental_div_mod_converse(x * 10 + y, 10, x, y);
}

/// A scan finds no king where none stands.
proof fn lemma_king_scan_none(g: Seq<Piece>, color: Color, i: int)
    requires
        forall|m: int| i <= m < 90 ==> !king_on(g, color, m),
    ensures
        king_index_from(g, color, i) is None,
    decreases 90 - i,
{
    if 0 <= i < 90 {
        lemma_king_scan_none(g, color, i + 1);
    }
}

} // verus!
