use vstd::prelude::*;

use crate::board::{
    checkmate, in_check, move_safe, opponent_of, square_at, stalemate, valid_square, Board,
};
use crate::piece::{Color, Piece, PieceType};
use crate::position::Position;
use crate::zobrist::grid_hash;

verus! {

/// Where a game stands: still being played, won, or drawn by stalemate.
#[derive(Debug, Clone, Copy, PartialEq, Eq, Structural)]
pub enum GameStatus {
    Playing,
    RedWon,
    BlackWon,
    Stalemate,
}

/// A seated player: a name and the side they play.
#[derive(Debug)]
pub struct Player {
    pub name: String,
    pub color: Color,
}

impl Clone for Player {
    fn clone(&self) -> (r: Self)
        ensures
            r == *self,
    {
        Player { name: self.name.clone(), color: self.color }
    }
}

/// One played move, with everything undo needs to restore the position.
#[derive(Debug, Clone, Copy)]
pub struct MoveRecord {
    from_x: u8,
    from_y: u8,
    to_x: u8,
    to_y: u8,
    moved_piece: Piece,
    captured_piece: Piece,
    hash_before: u64,
}

impl MoveRecord {
    /// The record a move leaves behind.
    pub closed spec fn spec_record(
        from_x: u8,
        from_y: u8,
        to_x: u8,
        to_y: u8,
        moved_piece: Piece,
        captured_piece: Piece,
        hash_before: u64,
    ) -> MoveRecord {
        MoveRecord { from_x, from_y, to_x, to_y, moved_piece, captured_piece, hash_before }
    }

    pub closed spec fn spec_from(self) -> Position {
        Position::spec_new(self.from_x, self.from_y)
    }

    pub closed spec fn spec_to(self) -> Position {
        Position::spec_new(self.to_x, self.to_y)
    }

    pub closed spec fn spec_moved(self) -> Piece {
        self.moved_piece
    }

    pub closed spec fn spec_captured(self) -> Piece {
        self.captured_piece
    }

    pub closed spec fn spec_hash_before(self) -> u64 {
        self.hash_before
    }

    /// The projections of a freshly made record are exactly its arguments.
    pub proof fn lemma_record_fields(
        from_x: u8,
        from_y: u8,
        to_x: u8,
        to_y: u8,
        moved_piece: Piece,
        captured_piece: Piece,
        hash_before: u64,
    )
        ensures
            ({
                let rec = MoveRecord::spec_record(
                    from_x,
                    from_y,
                    to_x,
                    to_y,
                    moved_piece,
                    captured_piece,
                    hash_before,
                );
                &&& rec.spec_from() == Position::spec_new(from_x, from_y)
                &&& rec.spec_to() == Position::spec_new(to_x, to_y)
                &&& rec.spec_moved() == moved_piece
                &&& rec.spec_captured() == captured_piece
                &&& rec.spec_hash_before() == hash_before
            }),
    {
    }
}

/// One game: its board, the seated players, whose turn it is, how it ended
/// (if it did), and the move history undo walks backward.
#[derive(Debug)]
pub struct Game {
    pub id: u32,
    pub board: Board,
    pub players: Vec<Player>,
    pub status: GameStatus,
    pub current_turn: Color,
    pub move_history: Vec<MoveRecord>,
}

/// A game is sound: its board invariant holds, the turn belongs to a real
/// side, and every recorded move names real squares.
pub open spec fn game_wf(gm: Game) -> bool {
    &&& gm.board.inv()
    &&& gm.current_turn != Color::Neutral
    &&& forall|m: int|
        0 <= m < gm.move_history@.len() ==> (#[trigger] gm.move_history@[m]).spec_from().spec_valid()
            && gm.move_history@[m].spec_to().spec_valid()
}

/// Both games look the same to every observer: same identity, same position
/// and hash, same seats, status, turn and history.
pub open spec fn game_equiv(a: Game, b: Game) -> bool {
    &&& a.id == b.id
    &&& a.board.grid() == b.board.grid()
    &&& a.board.hash() == b.board.hash()
    &&& a.board.table() == b.board.table()
    &&& a.board.red_king() == b.board.red_king()
    &&& a.board.black_king() == b.board.black_king()
    &&& a.players@ == b.players@
    &&& a.status == b.status
    &&& a.current_turn == b.current_turn
    &&& a.move_history@ == b.move_history@
}

/// The first index at or after `i` whose game carries `id`.
pub open spec fn game_index_from(s: Seq<Game>, id: u32, i: int) -> Option<int>
    decreases s.len() - i,
{
    if i < 0 || i >= s.len() {
        Option::None
    } else if s[i].id == id {
        Option::Some(i)
    } else {
        game_index_from(s, id, i + 1)
    }
}

/// Where the game with `id` sits, if anywhere.
pub open spec fn game_index(s: Seq<Game>, id: u32) -> Option<int> {
    game_index_from(s, id, 0)
}

/// The winner when `turn` delivers the final blow.
pub open spec fn winner_of(turn: Color) -> GameStatus {
    match turn {
        Color::Red => GameStatus::RedWon,
        Color::Black => GameStatus::BlackWon,
        Color::Neutral => GameStatus::Playing,
    }
}

/// The status a game reaches right after `turn` moved: capturing the
/// opposing king is an immediate win; otherwise checkmate and stalemate
/// against the opponent are evaluated, and failing both, play goes on.
pub open spec fn status_after_move(g2: Seq<Piece>, turn: Color, captured: Piece) -> GameStatus {
    if captured.piece_type == PieceType::King {
        winner_of(turn)
    } else if checkmate(g2, opponent_of(turn)) {
        winner_of(turn)
    } else if stalemate(g2, opponent_of(turn)) {
        GameStatus::Stalemate
    } else {
        GameStatus::Playing
    }
}

/// May this move be played in this game right now? The game must still be
/// running and the move must be legal and leave the mover's king safe.
pub open spec fn game_move_allowed(gm: Game, fx: u8, fy: u8, tx: u8, ty: u8) -> bool {
    let f = Position::spec_new(fx, fy);
    let t = Position::spec_new(tx, ty);
    gm.status == GameStatus::Playing && move_safe(
        gm.board.grid(),
        f.spec_x() as int,
        f.spec_y() as int,
        t.spec_x() as int,
        t.spec_y() as int,
        gm.current_turn,
    )
}

/// Everything `make_move` changes in a game, stated field by field.
pub open spec fn move_applied(go: Game, gn: Game, fx: u8, fy: u8, tx: u8, ty: u8) -> bool {
    let f = Position::spec_new(fx, fy);
    let t = Position::spec_new(tx, ty);
    let fxi = f.spec_x() as int;
    let fyi = f.spec_y() as int;
    let txi = t.spec_x() as int;
    let tyi = t.spec_y() as int;
    let grid = go.board.grid();
    let moved = square_at(grid, fxi, fyi);
    let captured = square_at(grid, txi, tyi);
    let g2 = Board::grid_after(grid, fxi, fyi, txi, tyi);
    &&& gn.id == go.id
    &&& gn.players@ == go.players@
    &&& gn.board.inv()
    &&& gn.board.table() == go.board.table()
    &&& gn.board.grid() == g2
    &&& gn.board.hash() == grid_hash(go.board.table(), g2)
    &&& gn.current_turn == opponent_of(go.current_turn)
    &&& gn.status == status_after_move(g2, go.current_turn, captured)
    &&& gn.move_history@ == go.move_history@.push(
        MoveRecord::spec_record(fx, fy, tx, ty, moved, captured, go.board.hash()),
    )
}

/// Everything `undo_move` changes in a game, stated field by field: the last
/// record is popped, its two squares are written back, the turn flips, and
/// the game is playing again.
pub open spec fn undo_applied(go: Game, gn: Game) -> bool {
    let rec = go.move_history@.last();
    let fi = rec.spec_from().spec_x() as int * 10 + rec.spec_from().spec_y() as int;
    let ti = rec.spec_to().spec_x() as int * 10 + rec.spec_to().spec_y() as int;
    let g2 = go.board.grid().update(fi, rec.spec_moved()).update(ti, rec.spec_captured());
    &&& gn.id == go.id
    &&& gn.players@ == go.players@
    &&& gn.board.inv()
    &&& gn.board.table() == go.board.table()
    &&& gn.board.grid() == g2
    &&& gn.board.hash() == grid_hash(go.board.table(), g2)
    &&& gn.current_turn == opponent_of(go.current_turn)
    &&& gn.status == GameStatus::Playing
    &&& gn.move_history@ == go.move_history@.drop_last()
}


/// Everything `Ruler::create_game` does: with ids left, a fresh game under
/// the handed-out id is appended; with ids exhausted, 0 comes back and
/// nothing changes.
pub open spec fn create_step(r0: Ruler, r1: Ruler, game_id: u32) -> bool {
    &&& (r0.next_id() < u32::MAX ==> {
        &&& game_id == r0.next_id()
        &&& r1.next_id() == r0.next_id() + 1
        &&& r1.games_seq().len() == r0.games_seq().len() + 1
        &&& r1.games_seq().subrange(0, r0.games_seq().len() as int) == r0.games_seq()
        &&& {
            let gm = r1.games_seq().last();
            &&& gm.id == game_id
            &&& gm.board.inv()
            &&& gm.board.grid() == crate::board::initial_grid()
            &&& gm.players@.len() == 0
            &&& gm.status == GameStatus::Playing
            &&& gm.current_turn == Color::Red
            &&& gm.move_history@.len() == 0
        }
    })
    &&& (r0.next_id() == u32::MAX ==> game_id == 0 && r1.games_seq() == r0.games_seq()
        && r1.next_id() == r0.next_id())
}

/// Everything `Ruler::add_player_to_game` does: the player is seated iff the
/// game exists, a seat is free and the color is untaken; otherwise nothing
/// changes.
pub open spec fn join_step(
    r0: Ruler,
    r1: Ruler,
    game_id: u32,
    nm: Seq<char>,
    color: Color,
    r: bool,
) -> bool {
    &&& r1.next_id() == r0.next_id()
    &&& match game_index(r0.games_seq(), game_id) {
        Option::None => r == false && r1.games_seq() == r0.games_seq(),
        Option::Some(i) => {
            let go = r0.games_seq()[i];
            if go.players@.len() >= 2 || (exists|m: int|
                0 <= m < go.players@.len() && (#[trigger] go.players@[m]).color == color) {
                r == false && r1.games_seq() == r0.games_seq()
            } else {
                &&& r == true
                &&& r1.games_seq().len() == r0.games_seq().len()
                &&& forall|m: int|
                    0 <= m < r0.games_seq().len() && m != i ==> r1.games_seq()[m]
                        == r0.games_seq()[m]
                &&& {
                    let gn = r1.games_seq()[i];
                    &&& gn.id == go.id
                    &&& gn.board == go.board
                    &&& gn.status == go.status
                    &&& gn.current_turn == go.current_turn
                    &&& gn.move_history@ == go.move_history@
                    &&& gn.players@.len() == go.players@.len() + 1
                    &&& gn.players@.subrange(0, go.players@.len() as int) == go.players@
                    &&& gn.players@.last().name@ == nm
                    &&& gn.players@.last().color == color
                }
            }
        },
    }
}

/// Everything `Ruler::make_move` does: the move is played iff the game
/// exists, is running, and the move is legal and safe for the side to move;
/// otherwise the game is observably untouched.
pub open spec fn move_step(
    r0: Ruler,
    r1: Ruler,
    game_id: u32,
    from_x: u8,
    from_y: u8,
    to_x: u8,
    to_y: u8,
    r: bool,
) -> bool {
    &&& r1.next_id() == r0.next_id()
    &&& match game_index(r0.games_seq(), game_id) {
        Option::None => r == false && r1.games_seq() == r0.games_seq(),
        Option::Some(i) => {
            &&& r1.games_seq().len() == r0.games_seq().len()
            &&& forall|m: int|
                0 <= m < r0.games_seq().len() && m != i ==> r1.games_seq()[m]
                    == r0.games_seq()[m]
            &&& if game_move_allowed(r0.games_seq()[i], from_x, from_y, to_x, to_y) {
                r == true && move_applied(
                    r0.games_seq()[i],
                    r1.games_seq()[i],
                    from_x,
                    from_y,
                    to_x,
                    to_y,
                )
            } else {
                r == false && game_equiv(r1.games_seq()[i], r0.games_seq()[i])
            }
        },
    }
}

/// Everything `Ruler::undo_move` does: the last move is taken back iff the
/// game exists and has history; otherwise nothing changes.
pub open spec fn undo_step(r0: Ruler, r1: Ruler, game_id: u32, r: bool) -> bool {
    &&& r1.next_id() == r0.next_id()
    &&& match game_index(r0.games_seq(), game_id) {
        Option::None => r == false && r1.games_seq() == r0.games_seq(),
        Option::Some(i) => {
            &&& r1.games_seq().len() == r0.games_seq().len()
            &&& forall|m: int|
                0 <= m < r0.games_seq().len() && m != i ==> r1.games_seq()[m]
                    == r0.games_seq()[m]
            &&& if r0.games_seq()[i].move_history@.len() == 0 {
                r == false && r1.games_seq()[i] == r0.games_seq()[i]
            } else {
                r == true && undo_applied(r0.games_seq()[i], r1.games_seq()[i])
            }
        },
    }
}

/// The session manager: every open game, keyed by the id it was created
/// under, and the id the next game will get.
#[derive(Debug)]
pub struct Ruler {
    games: Vec<Game>,
    next_game_id: u32,
}

impl Ruler {
    /// The open games, in creation order.
    pub closed spec fn games_seq(self) -> Seq<Game> {
        self.games@
    }

    /// The id the next created game will get.
    pub closed spec fn next_id(self) -> u32 {
        self.next_game_id
    }

    /// Every game is sound, ids are unique and below the next id, and no id
    /// is 0 (0 is the answer when no game could be created).
    pub open spec fn inv(self) -> bool {
        &&& 1 <= self.next_id()
        &&& forall|i: int| 0 <= i < self.games_seq().len() ==> game_wf(#[trigger] self.games_seq()[i])
        &&& forall|i: int|
            0 <= i < self.games_seq().len() ==> 1 <= (#[trigger] self.games_seq()[i]).id
                < self.next_id()
        &&& forall|i: int, j: int|
            0 <= i < j < self.games_seq().len() ==> self.games_seq()[i].id
                != self.games_seq()[j].id
    }

    pub fn new() -> (r: Self)
        ensures
            r.inv(),
            r.games_seq().len() == 0,
            r.next_id() == 1,
    {
        Ruler { games: Vec::new(), next_game_id: 1 }
    }

    /// Open a new game under a fresh id and return that id; 0 is returned,
    /// and nothing changes, in the (practically unreachable) case that the
    /// ids are exhausted.
    pub fn create_game(&mut self) -> (game_id: u32)
        requires
            old(self).inv(),
        ensures
            final(self).inv(),
            create_step(*old(self), *final(self), game_id),
    {
        if self.next_game_id == u32::MAX {
            return 0;
        }
        let game_id = self.next_game_id;
        self.next_game_id = self.next_game_id + 1;

        let game = Game {
            id: game_id,
            board: Board::new(),
            players: Vec::new(),
            status: GameStatus::Playing,
            current_turn: Color::Red,
            move_history: Vec::new(),
        };

        let ghost gnew = game;
        self.games.push(game);
        proof {
            let olds = old(self).games@;
            assert(self.games@.subrange(0, olds.len() as int) =~= olds);
            assert(game_wf(gnew));
            assert forall|m: int| 0 <= m < self.games@.len() implies game_wf(
                #[trigger] self.games@[m],
            ) by {
                if m < olds.len() {
                    assert(game_wf(olds[m]));
                }
            }
            assert forall|m: int| 0 <= m < self.games@.len() implies 1 <= (
            #[trigger] self.games@[m]).id < self.next_game_id by {
                if m < olds.len() {
                    assert(1 <= olds[m].id < old(self).next_game_id);
                }
            }
            assert forall|m: int, j: int| 0 <= m < j < self.games@.len() implies self.games@[m].id
                != self.games@[j].id by {
                if j < olds.len() {
                    assert(olds[m].id != olds[j].id);
                } else {
                    assert(1 <= olds[m].id < old(self).next_game_id);
                }
            }
        }
        game_id
    }

    /// The index of the game with `game_id`, if it is open.
    fn find_index(&self, game_id: u32) -> (r: Option<usize>)
        ensures
            match r {
                Option::Some(i) => 0 <= i < self.games_seq().len() && game_index(
                    self.games_seq(),
                    game_id,
                ) == Option::Some(i as int),
                Option::None => game_index(self.games_seq(), game_id) is None,
            },
    {
        let n = self.games.len();
        let mut i: usize = 0;
        while i < n
            invariant
                n == self.games.len(),
                i <= n,
                game_index(self.games@, game_id) == game_index_from(self.games@, game_id, i as int),
            decreases n - i,
        {
            if self.games[i].id == game_id {
                return Option::Some(i);
            }
            i = i + 1;
        }
        Option::None
    }

    /// The game with `game_id`, if it is open.
    pub fn get_game(&self, game_id: u32) -> (r: Option<&Game>)
        ensures
            match r {
                Option::Some(gm) => game_index(self.games_seq(), game_id) matches Option::Some(i)
                    && self.games_seq()[i] == *gm,
                Option::None => game_index(self.games_seq(), game_id) is None,
            },
    {
        match self.find_index(game_id) {
            Option::Some(i) => Option::Some(&self.games[i]),
            Option::None => Option::None,
        }
    }

    /// Seat a player: fails when the game does not exist, both seats are
    /// taken, or the color is already taken.
    pub fn add_player_to_game(&mut self, game_id: u32, name: String, color: Color) -> (r: bool)
        requires
            old(self).inv(),
        ensures
            final(self).inv(),
            join_step(*old(self), *final(self), game_id, name@, color, r),
    {
        let idx = self.find_index(game_id);
        match idx {
            Option::None => false,
            Option::Some(i) => {
                let ghost olds = old(self).games@;
                let mut game = self.games.remove(i);
                proof {
                    assert(game_wf(old(self).games_seq()[i as int]));
                }

                if game.players.len() >= 2 {
                    self.games.insert(i, game);
                    proof {
                        assert(self.games@ =~= olds);
                    }
                    return false;
                }

                let np = game.players.len();
                let mut m: usize = 0;
                let mut taken = false;
                while m < np
                    invariant
                        np == game.players.len(),
                        m <= np,
                        taken == exists|q: int|
                            0 <= q < m && (#[trigger] game.players@[q]).color == color,
                    decreases np - m,
                {
                    let same = match (game.players[m].color, color) {
                        (Color::Red, Color::Red) => true,
                        (Color::Black, Color::Black) => true,
                        (Color::Neutral, Color::Neutral) => true,
                        _ => false,
                    };
                    if same {
                        taken = true;
                    }
                    m = m + 1;
                }

                if taken {
                    self.games.insert(i, game);
                    proof {
                        assert(self.games@ =~= olds);
                    }
                    return false;
                }

                game.players.push(Player { name, color });
                let ghost gnew = game;
                self.games.insert(i, game);
                proof {
                    assert(self.games@ =~= olds.update(i as int, self.games@[i as int]));
                    lemma_game_index_same_ids(olds, self.games@, game_id, 0);
                    assert(game_wf(gnew));
                    lemma_games_inv_after_update(
                        olds,
                        self.games@,
                        i as int,
                        old(self).next_game_id,
                    );
                    assert(gnew.players@.subrange(0, olds[i as int].players@.len() as int)
                        =~= olds[i as int].players@);
                }
                true
            },
        }
    }

    /// Play one move: the game must be running, the mover must be the side
    /// to move, and the move must be legal and safe. On success the move is
    /// recorded, win and stalemate are evaluated, and the turn passes.
    pub fn make_move(&mut self, game_id: u32, from_x: u8, from_y: u8, to_x: u8, to_y: u8) -> (r:
        bool)
        requires
            old(self).inv(),
        ensures
            final(self).inv(),
            move_step(*old(self), *final(self), game_id, from_x, from_y, to_x, to_y, r),
    {
        let idx = self.find_index(game_id);
        match idx {
            Option::None => false,
            Option::Some(i) => {
                let ghost olds = old(self).games@;
                let mut game = self.games.remove(i);
                let ghost go = game;
                proof {
                    assert(game_wf(old(self).games_seq()[i as int]));
                }
                let mut success = false;

                if game.status == GameStatus::Playing {
                    let from = Position::new(from_x, from_y);
                    let to = Position::new(to_x, to_y);

                    if game.board.is_move_valid(from, to, game.current_turn) {
                        if game.board.is_move_safe(from, to, game.current_turn) {
                            proof {
                                game.board.lemma_inv_grid_wf();
                            }
                            let moved_piece = game.board.get_piece(from);
                            let captured_piece = game.board.get_piece(to);
                            let hash_before = game.board.get_hash();

                            game.board.make_move(from, to);

                            game.move_history.push(
                                MoveRecord {
                                    from_x,
                                    from_y,
                                    to_x,
                                    to_y,
                                    moved_piece,
                                    captured_piece,
                                    hash_before,
                                },
                            );

                            let opponent_color = match game.current_turn {
                                Color::Red => Color::Black,
                                Color::Black => Color::Red,
                                Color::Neutral => Color::Neutral,
                            };

                            // a captured king wins at once; only otherwise
                            // are checkmate and stalemate evaluated
                            if captured_piece.piece_type == PieceType::King {
                                game.status = match game.current_turn {
                                    Color::Red => GameStatus::RedWon,
                                    Color::Black => GameStatus::BlackWon,
                                    Color::Neutral => GameStatus::Playing,
                                };
                            } else if game.board.is_checkmate(opponent_color) {
                                game.status = match game.current_turn {
                                    Color::Red => GameStatus::RedWon,
                                    Color::Black => GameStatus::BlackWon,
                                    Color::Neutral => GameStatus::Playing,
                                };
                            } else if game.board.is_stalemate(opponent_color) {
                                game.status = GameStatus::Stalemate;
                            }

                            game.current_turn = opponent_color;

                            success = true;
                        }
                    }
                }

                let ghost gnew = game;
                self.games.insert(i, game);
                proof {
                    assert(self.games@ =~= olds.update(i as int, self.games@[i as int]));
                    lemma_game_index_same_ids(olds, self.games@, game_id, 0);
                    assert forall|m: int|
                        0 <= m < gnew.move_history@.len() implies (
                    #[trigger] gnew.move_history@[m]).spec_from().spec_valid()
                        && gnew.move_history@[m].spec_to().spec_valid() by {
                        if m < go.move_history@.len() {
                            assert(go.move_history@[m].spec_from().spec_valid()
                                && go.move_history@[m].spec_to().spec_valid());
                        }
                    }
                    assert(game_wf(gnew));
                    lemma_games_inv_after_update(
                        olds,
                        self.games@,
                        i as int,
                        old(self).next_game_id,
                    );
                }
                success
            },
        }
    }

    /// Close a game; false when no game carries the id.
    pub fn remove_game(&mut self, game_id: u32) -> (r: bool)
        requires
            old(self).inv(),
        ensures
            final(self).inv(),
            final(self).next_id() == old(self).next_id(),
            match game_index(old(self).games_seq(), game_id) {
                Option::None => r == false && final(self).games_seq() == old(self).games_seq(),
                Option::Some(i) => r == true && final(self).games_seq() == old(self).games_seq().remove(i),
            },
    {
        match self.find_index(game_id) {
            Option::None => false,
            Option::Some(i) => {
                let ghost olds = old(self).games@;
                self.games.remove(i);
                proof {
                    assert forall|m: int| 0 <= m < self.games@.len() implies game_wf(
                        #[trigger] self.games@[m],
                    ) by {
                        if m < i {
                            assert(game_wf(olds[m]));
                        } else {
                            assert(game_wf(olds[m + 1]));
                        }
                    }
                    assert forall|m: int| 0 <= m < self.games@.len() implies 1 <= (
                    #[trigger] self.games@[m]).id < self.next_game_id by {
                        if m < i {
                            assert(1 <= olds[m].id < self.next_game_id);
                        } else {
                            assert(1 <= olds[m + 1].id < self.next_game_id);
                        }
                    }
                    assert forall|m: int, j: int|
                        0 <= m < j < self.games@.len() implies self.games@[m].id
                        != self.games@[j].id by {
                        let m1: int = if m < i {
                            m
                        } else {
                            m + 1
                        };
                        let j1: int = if j < i {
                            j
                        } else {
                            j + 1
                        };
                        assert(olds[m1].id != olds[j1].id);
                    }
                }
                true
            },
        }
    }

    /// Every open game, in creation order.
    pub fn get_all_games(&self) -> (r: Vec<&Game>)
        ensures
            r@.len() == self.games_seq().len(),
            forall|i: int| 0 <= i < r@.len() ==> *r@[i] == self.games_seq()[i],
    {
        let mut r: Vec<&Game> = Vec::new();
        let n = self.games.len();
        let mut i: usize = 0;
        while i < n
            invariant
                n == self.games.len(),
                i <= n,
                r@.len() == i,
                forall|m: int| 0 <= m < i ==> *r@[m] == self.games@[m],
            decreases n - i,
        {
            r.push(&self.games[i]);
            i = i + 1;
        }
        r
    }

    /// Take back the last played move: the recorded mover and captured piece
    /// are written back to their squares, the turn flips, and the game is
    /// playing again. Fails when the game is missing or has no history.
    pub fn undo_move(&mut self, game_id: u32) -> (r: bool)
        requires
            old(self).inv(),
        ensures
            final(self).inv(),
            undo_step(*old(self), *final(self), game_id, r),
    {
        let idx = self.find_index(game_id);
        match idx {
            Option::None => false,
            Option::Some(i) => {
                let ghost olds = old(self).games@;
                let mut game = self.games.remove(i);
                let ghost go = game;
                proof {
                    assert(game_wf(old(self).games_seq()[i as int]));
                    if go.move_history@.len() > 0 {
                        assert(go.move_history@[go.move_history@.len() - 1].spec_from().spec_valid()
                            && go.move_history@[go.move_history@.len()
                            - 1].spec_to().spec_valid());
                    }
                }
                let mut success = false;

                if game.move_history.len() > 0 {
                    if let Option::Some(last_move) = game.move_history.pop() {
                        let from = Position::new(last_move.from_x, last_move.from_y);
                        let to = Position::new(last_move.to_x, last_move.to_y);

                        game.board.set_piece(from, last_move.moved_piece);
                        game.board.set_piece(to, last_move.captured_piece);

                        game.current_turn = match game.current_turn {
                            Color::Red => Color::Black,
                            Color::Black => Color::Red,
                            Color::Neutral => Color::Neutral,
                        };

                        if game.status != GameStatus::Playing {
                            game.status = GameStatus::Playing;
                        }

                        success = true;
                    }
                }

                let ghost gnew = game;
                self.games.insert(i, game);
                proof {
                    assert(self.games@ =~= olds.update(i as int, self.games@[i as int]));
                    lemma_game_index_same_ids(olds, self.games@, game_id, 0);
                    assert forall|m: int|
                        0 <= m < gnew.move_history@.len() implies (
                    #[trigger] gnew.move_history@[m]).spec_from().spec_valid()
                        && gnew.move_history@[m].spec_to().spec_valid() by {
                        assert(go.move_history@[m].spec_from().spec_valid()
                            && go.move_history@[m].spec_to().spec_valid());
                    }
                    assert(game_wf(gnew));
                    lemma_games_inv_after_update(
                        olds,
                        self.games@,
                        i as int,
                        old(self).next_game_id,
                    );
                }
                success
            },
        }
    }
}

/// Replacing one game by a sound game under the same id keeps the whole
/// list sound.
proof fn lemma_games_inv_after_update(olds: Seq<Game>, news: Seq<Game>, i: int, next_id: u32)
    requires
        0 <= i < olds.len(),
        news == olds.update(i, news[i]),
        forall|m: int| 0 <= m < olds.len() ==> game_wf(#[trigger] olds[m]),
        forall|m: int| 0 <= m < olds.len() ==> 1 <= (#[trigger] olds[m]).id < next_id,
        forall|m: int, j: int| 0 <= m < j < olds.len() ==> olds[m].id != olds[j].id,
        game_wf(news[i]),
        news[i].id == olds[i].id,
    ensures
        forall|m: int| 0 <= m < news.len() ==> game_wf(#[trigger] news[m]),
        forall|m: int| 0 <= m < news.len() ==> 1 <= (#[trigger] news[m]).id < next_id,
        forall|m: int, j: int| 0 <= m < j < news.len() ==> news[m].id != news[j].id,
{
    assert forall|m: int| 0 <= m < news.len() implies game_wf(#[trigger] news[m]) by {
        if m != i {
            assert(game_wf(olds[m]));
        }
    }
    assert forall|m: int| 0 <= m < news.len() implies 1 <= (#[trigger] news[m]).id < next_id by {
        assert(1 <= olds[m].id < next_id);
    }
    assert forall|m: int, j: int| 0 <= m < j < news.len() implies news[m].id != news[j].id by {
        assert(olds[m].id != olds[j].id);
    }
}

/// Undo after a move is the identity on the position: when a game in a
/// sound state plays an allowed move and then takes it back, its grid, hash,
/// turn and history return to their exact pre-move values, and the game is
/// playing again.
pub proof fn lemma_make_then_undo_round_trip(
    go: Game,
    gn: Game,
    gz: Game,
    fx: u8,
    fy: u8,
    tx: u8,
    ty: u8,
)
    requires
        game_wf(go),
        game_move_allowed(go, fx, fy, tx, ty),
        move_applied(go, gn, fx, fy, tx, ty),
        undo_applied(gn, gz),
    ensures
        gz.board.grid() == go.board.grid(),
        gz.board.hash() == go.board.hash(),
        gz.board.table() == go.board.table(),
        gz.current_turn == go.current_turn,
        gz.move_history@ == go.move_history@,
        gz.status == GameStatus::Playing,
        gz.id == go.id,
        gz.players@ == go.players@,
{
    let f = Position::spec_new(fx, fy);
    let t = Position::spec_new(tx, ty);
    let fxi = f.spec_x() as int;
    let fyi = f.spec_y() as int;
    let txi = t.spec_x() as int;
    let tyi = t.spec_y() as int;
    let g0 = go.board.grid();
    let rec = gn.move_history@.last();

    assert(move_safe(g0, fxi, fyi, txi, tyi, go.current_turn));
    assert(crate::board::move_ok(g0, fxi, fyi, txi, tyi, go.current_turn));
    assert(!(fxi == txi && fyi == tyi));

    assert(gn.move_history@.drop_last() =~= go.move_history@);
    assert(rec == MoveRecord::spec_record(
        fx,
        fy,
        tx,
        ty,
        square_at(g0, fxi, fyi),
        square_at(g0, txi, tyi),
        go.board.hash(),
    ));

    go.board.lemma_inv_grid_wf();
    lemma_undo_restores_position(g0, go.board.table(), fxi, fyi, txi, tyi);

    assert(gz.board.grid() == g0);
    go.board.lemma_hash_matches_recomputation();
    assert(gz.board.hash() == go.board.hash());
    assert(gz.current_turn == opponent_of(opponent_of(go.current_turn)));
}

/// Two game lists with the same ids at the same places agree on where any id
/// sits.
proof fn lemma_game_index_same_ids(s1: Seq<Game>, s2: Seq<Game>, id: u32, i: int)
    requires
        s1.len() == s2.len(),
        forall|m: int| 0 <= m < s1.len() ==> s1[m].id == s2[m].id,
        0 <= i,
    ensures
        game_index_from(s1, id, i) == game_index_from(s2, id, i),
    decreases s1.len() - i,
{
    if i < s1.len() {
        lemma_game_index_same_ids(s1, s2, id, i + 1);
    }
}

/// Taking a move back restores the grid it was played on, and with it the
/// recomputed hash: writing the recorded mover to its origin and the
/// recorded captured piece to the destination of `grid_after` yields the
/// pre-move grid again.
pub proof fn lemma_undo_restores_position(
    g: Seq<Piece>,
    t: Seq<u64>,
    fx: int,
    fy: int,
    tx: int,
    ty: int,
)
    requires
        g.len() == 90,
        valid_square(fx, fy),
        valid_square(tx, ty),
        !(fx == tx && fy == ty),
    ensures
        Board::grid_after(g, fx, fy, tx, ty).update(fx * 10 + fy, square_at(g, fx, fy)).update(
            tx * 10 + ty,
            square_at(g, tx, ty),
        ) == g,
        grid_hash(
            t,
            Board::grid_after(g, fx, fy, tx, ty).update(fx * 10 + fy, square_at(g, fx, fy)).update(
                tx * 10 + ty,
                square_at(g, tx, ty),
            ),
        ) == grid_hash(t, g),
        opponent_of(opponent_of(Color::Red)) == Color::Red,
        opponent_of(opponent_of(Color::Black)) == Color::Black,
{
    assert(fx * 10 + fy != tx * 10 + ty) by {
        crate::board::lemma_grid_index_coords(fx, fy);
        crate::board::lemma_grid_index_coords(tx, ty);
    }
    assert(Board::grid_after(g, fx, fy, tx, ty).update(fx * 10 + fy, square_at(g, fx, fy)).update(
        tx * 10 + ty,
        square_at(g, tx, ty),
    ) =~= g);
}

} // verus!
