use vstd::prelude::*;

use crate::ast::ASTNode;
use crate::lexer::{token_end, token_is, token_shape, trimmed, Keywords, Lexer, Token, TokenShape};
use crate::piece::Color;

verus! {

/// `CREATE GAME` scanned from `i0`.
pub open spec fn create_ok(s: Seq<char>, i0: int) -> bool {
    let i1 = token_end(s, i0);
    token_shape(s, i0) == TokenShape::Kw(Keywords::Create) && token_shape(s, i1)
        == TokenShape::Kw(Keywords::Game)
}

/// `JOIN GAME <id> <name> <color>` scanned from `i0`.
pub open spec fn join_ok(s: Seq<char>, i0: int) -> bool {
    let i1 = token_end(s, i0);
    let i2 = token_end(s, i1);
    let i3 = token_end(s, i2);
    let i4 = token_end(s, i3);
    &&& token_shape(s, i0) == TokenShape::Kw(Keywords::Join)
    &&& token_shape(s, i1) == TokenShape::Kw(Keywords::Game)
    &&& token_shape(s, i2) matches TokenShape::Num(_)
    &&& token_shape(s, i3) matches TokenShape::Ident(_)
    &&& (token_shape(s, i4) == TokenShape::RedWord || token_shape(s, i4) == TokenShape::BlackWord)
}

/// The node a well-formed join command parses to.
pub open spec fn join_node(s: Seq<char>, i0: int, r: ASTNode) -> bool {
    let i1 = token_end(s, i0);
    let i2 = token_end(s, i1);
    let i3 = token_end(s, i2);
    let i4 = token_end(s, i3);
    &&& r matches ASTNode::JoinGame { game_id, name, color }
    &&& token_shape(s, i2) == TokenShape::Num(game_id)
    &&& token_shape(s, i3) == TokenShape::Ident(name@)
    &&& color == (if token_shape(s, i4) == TokenShape::RedWord {
        Color::Red
    } else {
        Color::Black
    })
}

/// `GAME <id> <color> MOVE (x,y) TO (x,y)` scanned from `i0`.
pub open spec fn move_ok_cmd(s: Seq<char>, i0: int) -> bool {
    let i1 = token_end(s, i0);
    let i2 = token_end(s, i1);
    let i3 = token_end(s, i2);
    let i4 = token_end(s, i3);
    let i5 = token_end(s, i4);
    &&& token_shape(s, i0) == TokenShape::Kw(Keywords::Game)
    &&& token_shape(s, i1) matches TokenShape::Num(_)
    &&& (token_shape(s, i2) == TokenShape::RedWord || token_shape(s, i2) == TokenShape::BlackWord)
    &&& token_shape(s, i3) == TokenShape::Kw(Keywords::Move)
    &&& token_shape(s, i4) matches TokenShape::Coord(_, _)
    &&& token_shape(s, i5) == TokenShape::Kw(Keywords::To)
    &&& token_shape(s, token_end(s, i5)) matches TokenShape::Coord(_, _)
}

/// The node a well-formed move command parses to.
pub open spec fn move_node(s: Seq<char>, i0: int, r: ASTNode) -> bool {
    let i1 = token_end(s, i0);
    let i2 = token_end(s, i1);
    let i3 = token_end(s, i2);
    let i4 = token_end(s, i3);
    let i5 = token_end(s, i4);
    let i6 = token_end(s, i5);
    &&& r matches ASTNode::Move { game_id, color, from_x, from_y, to_x, to_y }
    &&& token_shape(s, i1) == TokenShape::Num(game_id)
    &&& color == (if token_shape(s, i2) == TokenShape::RedWord {
        Color::Red
    } else {
        Color::Black
    })
    &&& token_shape(s, i4) == TokenShape::Coord(from_x, from_y)
    &&& token_shape(s, i6) == TokenShape::Coord(to_x, to_y)
}

/// `UNDO GAME <id>` scanned from `i0`.
pub open spec fn undo_ok(s: Seq<char>, i0: int) -> bool {
    let i1 = token_end(s, i0);
    let i2 = token_end(s, i1);
    &&& token_shape(s, i0) == TokenShape::Kw(Keywords::Undo)
    &&& token_shape(s, i1) == TokenShape::Kw(Keywords::Game)
    &&& token_shape(s, i2) matches TokenShape::Num(_)
}

/// `GET GAME <id>` scanned from `i0`.
pub open spec fn get_ok(s: Seq<char>, i0: int) -> bool {
    let i1 = token_end(s, i0);
    let i2 = token_end(s, i1);
    &&& token_shape(s, i0) == TokenShape::Kw(Keywords::Get)
    &&& token_shape(s, i1) == TokenShape::Kw(Keywords::Game)
    &&& token_shape(s, i2) matches TokenShape::Num(_)
}

/// What parsing the token stream scanned from `i0` yields: one of the five
/// command forms when its tokens line up, and `Invalid` for everything else.
pub open spec fn ast_rel(s: Seq<char>, i0: int, r: ASTNode) -> bool {
    let i1 = token_end(s, i0);
    let i2 = token_end(s, i1);
    match token_shape(s, i0) {
        TokenShape::Kw(Keywords::Create) => if create_ok(s, i0) {
            r == ASTNode::CreateGame
        } else {
            r == ASTNode::Invalid
        },
        TokenShape::Kw(Keywords::Join) => if join_ok(s, i0) {
            join_node(s, i0, r)
        } else {
            r == ASTNode::Invalid
        },
        TokenShape::Kw(Keywords::Game) => if move_ok_cmd(s, i0) {
            move_node(s, i0, r)
        } else {
            r == ASTNode::Invalid
        },
        TokenShape::Kw(Keywords::Undo) => if undo_ok(s, i0) {
            r == (ASTNode::Undo { game_id: token_shape(s, i2)->Num_0 })
        } else {
            r == ASTNode::Invalid
        },
        TokenShape::Kw(Keywords::Get) => if get_ok(s, i0) {
            r == (ASTNode::GetGame { game_id: token_shape(s, i2)->Num_0 })
        } else {
            r == ASTNode::Invalid
        },
        _ => r == ASTNode::Invalid,
    }
}

/// Two tokens carry the same information (identifiers compare by content).
pub open spec fn token_like(a: Token, b: Token) -> bool {
    match (a, b) {
        (Token::Identifier(x), Token::Identifier(y)) => x@ == y@,
        _ => a == b,
    }
}

/// The syntactic analyzer: a scanner plus one token of lookahead.
pub struct Parser {
    lexer: Lexer,
    current_token: Token,
    peek_token: Token,
    cur_pos: Ghost<int>,
    peek_pos: Ghost<int>,
}

impl Parser {
    /// The characters being parsed.
    pub closed spec fn src(self) -> Seq<char> {
        self.lexer.src()
    }

    /// Where the current token was scanned.
    pub closed spec fn at(self) -> int {
        self.cur_pos@
    }

    /// The two lookahead tokens are the ones scanned at their recorded
    /// positions, and the scanner stands right after the second.
    pub closed spec fn inv(self) -> bool {
        &&& self.lexer.wf()
        &&& 0 <= self.cur_pos@
        &&& token_is(self.src(), self.cur_pos@, self.current_token)
        &&& self.peek_pos@ == token_end(self.src(), self.cur_pos@)
        &&& token_is(self.src(), self.peek_pos@, self.peek_token)
        &&& self.lexer.pos() == token_end(self.src(), self.peek_pos@)
    }

    pub fn new(input: &str) -> (r: Self)
        ensures
            r.inv(),
            r.at() == 0,
            r.src() == trimmed(input@) || input@.len() > usize::MAX - 2,
    {
        let mut lexer = Lexer::new(input);
        let current_token = lexer.next_token();
        let ghost p1 = token_end(lexer.src(), 0);
        let peek_token = lexer.next_token();

        Parser {
            lexer,
            current_token,
            peek_token,
            cur_pos: Ghost(0),
            peek_pos: Ghost(p1),
        }
    }

    /// Step the lookahead window one token forward.
    fn next_token(&mut self)
        requires
            old(self).inv(),
        ensures
            final(self).inv(),
            final(self).src() == old(self).src(),
            final(self).at() == token_end(old(self).src(), old(self).at()),
    {
        self.current_token = self.peek_token.clone();
        let t = self.lexer.next_token();
        self.peek_token = t;
        proof {
            crate::lexer::lemma_token_end_bounds(old(self).src(), old(self).at());
            self.cur_pos@ = self.peek_pos@;
            self.peek_pos@ = token_end(self.lexer.src(), self.cur_pos@);
        }
    }

    /// Consume the current token when it equals `expected`.
    fn expect_token(&mut self, expected: Token) -> (r: bool)
        requires
            old(self).inv(),
        ensures
            final(self).inv(),
            final(self).src() == old(self).src(),
            r ==> final(self).at() == token_end(old(self).src(), old(self).at()),
            !r ==> final(self).at() == old(self).at(),
    {
        if token_eq(&self.current_token, &expected) {
            self.next_token();
            true
        } else {
            false
        }
    }

    /// Consume the current token when it is the keyword `expected`.
    fn expect_keyword(&mut self, expected: Keywords) -> (r: bool)
        requires
            old(self).inv(),
        ensures
            final(self).inv(),
            final(self).src() == old(self).src(),
            r == (token_shape(old(self).src(), old(self).at()) == TokenShape::Kw(expected)),
            r ==> final(self).at() == token_end(old(self).src(), old(self).at()),
            !r ==> final(self).at() == old(self).at(),
    {
        match &self.current_token {
            Token::Keyword(keyword) => {
                let same = match (keyword, expected) {
                    (Keywords::Game, Keywords::Game) => true,
                    (Keywords::Create, Keywords::Create) => true,
                    (Keywords::Join, Keywords::Join) => true,
                    (Keywords::Move, Keywords::Move) => true,
                    (Keywords::Undo, Keywords::Undo) => true,
                    (Keywords::Get, Keywords::Get) => true,
                    (Keywords::To, Keywords::To) => true,
                    _ => false,
                };
                if same {
                    self.next_token();
                    true
                } else {
                    false
                }
            },
            _ => false,
        }
    }

    /// Consume a color word.
    fn parse_color(&mut self) -> (r: Option<Color>)
        requires
            old(self).inv(),
        ensures
            final(self).inv(),
            final(self).src() == old(self).src(),
            r == (match token_shape(old(self).src(), old(self).at()) {
                TokenShape::RedWord => Option::Some(Color::Red),
                TokenShape::BlackWord => Option::Some(Color::Black),
                _ => Option::<Color>::None,
            }),
            r is Some ==> final(self).at() == token_end(old(self).src(), old(self).at()),
            r is None ==> final(self).at() == old(self).at(),
    {
        match self.current_token {
            Token::Red => {
                self.next_token();
                Option::Some(Color::Red)
            },
            Token::Black => {
                self.next_token();
                Option::Some(Color::Black)
            },
            _ => Option::None,
        }
    }

    /// Consume a numeral.
    fn parse_number(&mut self) -> (r: Option<u32>)
        requires
            old(self).inv(),
        ensures
            final(self).inv(),
            final(self).src() == old(self).src(),
            r == (match token_shape(old(self).src(), old(self).at()) {
                TokenShape::Num(n) => Option::Some(n),
                _ => Option::<u32>::None,
            }),
            r is Some ==> final(self).at() == token_end(old(self).src(), old(self).at()),
            r is None ==> final(self).at() == old(self).at(),
    {
        match self.current_token {
            Token::Number(n) => {
                let num = n;
                self.next_token();
                Option::Some(num)
            },
            _ => Option::None,
        }
    }

    /// Consume an identifier.
    fn parse_identifier(&mut self) -> (r: Option<String>)
        requires
            old(self).inv(),
        ensures
            final(self).inv(),
            final(self).src() == old(self).src(),
            match r {
                Option::Some(nm) => token_shape(old(self).src(), old(self).at())
                    == TokenShape::Ident(nm@) && final(self).at() == token_end(
                    old(self).src(),
                    old(self).at(),
                ),
                Option::None => !(token_shape(old(self).src(), old(self).at())
                    matches TokenShape::Ident(_)) && final(self).at() == old(self).at(),
            },
    {
        match &self.current_token {
            Token::Identifier(s) => {
                let ident = s.clone();
                self.next_token();
                Option::Some(ident)
            },
            _ => Option::None,
        }
    }

    /// Consume a coordinate pair.
    fn parse_coordinate(&mut self) -> (r: Option<(u8, u8)>)
        requires
            old(self).inv(),
        ensures
            final(self).inv(),
            final(self).src() == old(self).src(),
            r == (match token_shape(old(self).src(), old(self).at()) {
                TokenShape::Coord(x, y) => Option::Some((x, y)),
                _ => Option::<(u8, u8)>::None,
            }),
            r is Some ==> final(self).at() == token_end(old(self).src(), old(self).at()),
            r is None ==> final(self).at() == old(self).at(),
    {
        match self.current_token {
            Token::Coordinate(x, y) => {
                let coord = (x, y);
                self.next_token();
                Option::Some(coord)
            },
            _ => Option::None,
        }
    }

    /// Parse `CREATE GAME`.
    fn parse_create_game(&mut self) -> (r: Option<ASTNode>)
        requires
            old(self).inv(),
        ensures
            final(self).inv(),
            match r {
                Option::Some(node) => create_ok(old(self).src(), old(self).at()) && node
                    == ASTNode::CreateGame,
                Option::None => !create_ok(old(self).src(), old(self).at()),
            },
    {
        if !self.expect_keyword(Keywords::Create) {
            return Option::None;
        }

        if !self.expect_keyword(Keywords::Game) {
            return Option::None;
        }

        Option::Some(ASTNode::CreateGame)
    }

    /// Parse `JOIN GAME <id> <name> <color>`.
    fn parse_join_game(&mut self) -> (r: Option<ASTNode>)
        requires
            old(self).inv(),
        ensures
            final(self).inv(),
            match r {
                Option::Some(node) => join_ok(old(self).src(), old(self).at()) && join_node(
                    old(self).src(),
                    old(self).at(),
                    node,
                ),
                Option::None => !join_ok(old(self).src(), old(self).at()),
            },
    {
        if !self.expect_keyword(Keywords::Join) {
            return Option::None;
        }

        if !self.expect_keyword(Keywords::Game) {
            return Option::None;
        }

        let game_id = match self.parse_number() {
            Option::Some(n) => n,
            Option::None => {
                return Option::None;
            },
        };
        let name = match self.parse_identifier() {
            Option::Some(nm) => nm,
            Option::None => {
                return Option::None;
            },
        };
        let color = match self.parse_color() {
            Option::Some(c) => c,
            Option::None => {
                return Option::None;
            },
        };

        Option::Some(ASTNode::JoinGame { game_id, name, color })
    }

    /// Parse `GAME <id> <color> MOVE (x,y) TO (x,y)`.
    fn parse_move(&mut self) -> (r: Option<ASTNode>)
        requires
            old(self).inv(),
        ensures
            final(self).inv(),
            match r {
                Option::Some(node) => move_ok_cmd(old(self).src(), old(self).at()) && move_node(
                    old(self).src(),
                    old(self).at(),
                    node,
                ),
                Option::None => !move_ok_cmd(old(self).src(), old(self).at()),
            },
    {
        if !self.expect_keyword(Keywords::Game) {
            return Option::None;
        }

        let game_id = match self.parse_number() {
            Option::Some(n) => n,
            Option::None => {
                return Option::None;
            },
        };
        let color = match self.parse_color() {
            Option::Some(c) => c,
            Option::None => {
                return Option::None;
            },
        };

        if !self.expect_keyword(Keywords::Move) {
            return Option::None;
        }

        let (from_x, from_y) = match self.parse_coordinate() {
            Option::Some(c) => c,
            Option::None => {
                return Option::None;
            },
        };

        if !self.expect_keyword(Keywords::To) {
            return Option::None;
        }

        let (to_x, to_y) = match self.parse_coordinate() {
            Option::Some(c) => c,
            Option::None => {
                return Option::None;
            },
        };

        Option::Some(ASTNode::Move { game_id, color, from_x, from_y, to_x, to_y })
    }

    /// Parse `UNDO GAME <id>`.
    fn parse_undo(&mut self) -> (r: Option<ASTNode>)
        requires
            old(self).inv(),
        ensures
            final(self).inv(),
            match r {
                Option::Some(node) => undo_ok(old(self).src(), old(self).at()) && node == (
                ASTNode::Undo {
                    game_id: token_shape(
                        old(self).src(),
                        token_end(
                            old(self).src(),
                            token_end(old(self).src(), old(self).at()),
                        ),
                    )->Num_0,
                }),
                Option::None => !undo_ok(old(self).src(), old(self).at()),
            },
    {
        if !self.expect_keyword(Keywords::Undo) {
            return Option::None;
        }

        if !self.expect_keyword(Keywords::Game) {
            return Option::None;
        }

        let game_id = match self.parse_number() {
            Option::Some(n) => n,
            Option::None => {
                return Option::None;
            },
        };

        Option::Some(ASTNode::Undo { game_id })
    }

    /// Parse `GET GAME <id>`.
    fn parse_get_game(&mut self) -> (r: Option<ASTNode>)
        requires
            old(self).inv(),
        ensures
            final(self).inv(),
            match r {
                Option::Some(node) => get_ok(old(self).src(), old(self).at()) && node == (
                ASTNode::GetGame {
                    game_id: token_shape(
                        old(self).src(),
                        token_end(
                            old(self).src(),
                            token_end(old(self).src(), old(self).at()),
                        ),
                    )->Num_0,
                }),
                Option::None => !get_ok(old(self).src(), old(self).at()),
            },
    {
        if !self.expect_keyword(Keywords::Get) {
            return Option::None;
        }

        if !self.expect_keyword(Keywords::Game) {
            return Option::None;
        }

        let game_id = match self.parse_number() {
            Option::Some(n) => n,
            Option::None => {
                return Option::None;
            },
        };

        Option::Some(ASTNode::GetGame { game_id })
    }

    /// Parse one command; anything that does not fit a command form is
    /// `Invalid`.
    pub fn parse(&mut self) -> (r: ASTNode)
        requires
            old(self).inv(),
        ensures
            final(self).inv(),
            ast_rel(old(self).src(), old(self).at(), r),
    {
        match &self.current_token {
            Token::Keyword(Keywords::Create) => {
                if let Option::Some(node) = self.parse_create_game() {
                    node
                } else {
                    ASTNode::Invalid
                }
            },
            Token::Keyword(Keywords::Join) => {
                if let Option::Some(node) = self.parse_join_game() {
                    node
                } else {
                    ASTNode::Invalid
                }
            },
            Token::Keyword(Keywords::Game) => {
                if let Option::Some(node) = self.parse_move() {
                    node
                } else {
                    ASTNode::Invalid
                }
            },
            Token::Keyword(Keywords::Undo) => {
                if let Option::Some(node) = self.parse_undo() {
                    node
                } else {
                    ASTNode::Invalid
                }
            },
            Token::Keyword(Keywords::Get) => {
                if let Option::Some(node) = self.parse_get_game() {
                    node
                } else {
                    ASTNode::Invalid
                }
            },
            _ => ASTNode::Invalid,
        }
    }
}

/// Equality of two tokens, identifiers compared by content.
fn token_eq(a: &Token, b: &Token) -> (r: bool)
    ensures
        r == token_like(*a, *b),
{
    match (a, b) {
        (Token::Keyword(x), Token::Keyword(y)) => {
            match (x, y) {
                (Keywords::Game, Keywords::Game) => true,
                (Keywords::Create, Keywords::Create) => true,
                (Keywords::Join, Keywords::Join) => true,
                (Keywords::Move, Keywords::Move) => true,
                (Keywords::Undo, Keywords::Undo) => true,
                (Keywords::Get, Keywords::Get) => true,
                (Keywords::To, Keywords::To) => true,
                _ => false,
            }
        },
        (Token::Red, Token::Red) => true,
        (Token::Black, Token::Black) => true,
        (Token::Number(x), Token::Number(y)) => x == y,
        (Token::Coordinate(a1, a2), Token::Coordinate(b1, b2)) => a1 == b1 && a2 == b2,
        (Token::LeftParen, Token::LeftParen) => true,
        (Token::RightParen, Token::RightParen) => true,
        (Token::Comma, Token::Comma) => true,
        (Token::Identifier(x), Token::Identifier(y)) => *x == *y,
        (Token::Eof, Token::Eof) => true,
        _ => false,
    }
}

} // verus!
