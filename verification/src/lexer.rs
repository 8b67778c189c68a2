use vstd::prelude::*;

use crate::text::{
    chars_to_string, dig_val, is_alnum, is_ascii_letter, is_dig, is_space, is_unicode_alnum,
    is_unicode_space, str_to_chars, to_upper, upper_of,
};

verus! {

/// The command keywords.
#[derive(Debug, Clone, Copy, PartialEq, Eq, Structural)]
pub enum Keywords {
    Game,
    Create,
    Join,
    Move,
    Undo,
    Get,
    To,
}

/// One lexical unit of a command line.
#[derive(Debug, PartialEq)]
pub enum Token {
    Keyword(Keywords),
    Red,
    Black,
    Number(u32),
    Coordinate(u8, u8),
    LeftParen,
    RightParen,
    Comma,
    Identifier(String),
    Eof,
}

impl Clone for Token {
    fn clone(&self) -> (r: Self)
        ensures
            r == *self,
    {
        match self {
            Token::Keyword(k) => Token::Keyword(*k),
            Token::Red => Token::Red,
            Token::Black => Token::Black,
            Token::Number(n) => Token::Number(*n),
            Token::Coordinate(x, y) => Token::Coordinate(*x, *y),
            Token::LeftParen => Token::LeftParen,
            Token::RightParen => Token::RightParen,
            Token::Comma => Token::Comma,
            Token::Identifier(s) => Token::Identifier(s.clone()),
            Token::Eof => Token::Eof,
        }
    }
}

/// The character at `i`, with the NUL sentinel past either end.
pub open spec fn char_at(s: Seq<char>, i: int) -> char {
    if 0 <= i < s.len() {
        s[i]
    } else {
        '\0'
    }
}

/// The first position at or after `i` that does not hold whitespace.
pub open spec fn skip_ws(s: Seq<char>, i: int) -> int
    decreases s.len() - i,
{
    if i < 0 || i >= s.len() {
        i
    } else if is_unicode_space(s[i]) {
        skip_ws(s, i + 1)
    } else {
        i
    }
}

/// The first position at or after `i` that does not hold an ASCII digit.
pub open spec fn digits_end(s: Seq<char>, i: int) -> int
    decreases s.len() - i,
{
    if i < 0 || i >= s.len() {
        i
    } else if is_dig(s[i]) {
        digits_end(s, i + 1)
    } else {
        i
    }
}

/// The decimal value of the digits in [i, j).
pub open spec fn digits_val(s: Seq<char>, i: int, j: int) -> int
    decreases j - i,
{
    if i >= j {
        0
    } else {
        digits_val(s, i, j - 1) * 10 + dig_val(s[j - 1])
    }
}

/// The first position at or after `i` that does not hold an alphanumeric
/// character.
pub open spec fn ident_end(s: Seq<char>, i: int) -> int
    decreases s.len() - i,
{
    if i < 0 || i >= s.len() {
        i
    } else if is_unicode_alnum(s[i]) {
        ident_end(s, i + 1)
    } else {
        i
    }
}

/// The coordinate pair scanned from the opening parenthesis at `k`, if the
/// text there has the shape `(x,y)` with two in-range numerals.
pub open spec fn coord_ok(s: Seq<char>, k: int) -> Option<(u8, u8)> {
    let p1 = k + 1;
    if !is_dig(char_at(s, p1)) {
        Option::None
    } else {
        let e1 = digits_end(s, p1);
        let v1 = digits_val(s, p1, e1);
        if v1 > u32::MAX {
            Option::None
        } else if char_at(s, e1) != ',' {
            Option::None
        } else {
            let p2 = e1 + 1;
            if !is_dig(char_at(s, p2)) {
                Option::None
            } else {
                let e2 = digits_end(s, p2);
                let v2 = digits_val(s, p2, e2);
                if v2 > u32::MAX {
                    Option::None
                } else if char_at(s, e2) != ')' {
                    Option::None
                } else {
                    Option::Some(((v1 % 256) as u8, (v2 % 256) as u8))
                }
            }
        }
    }
}

/// Where the coordinate scan starting at `k` stops, successful or not.
pub open spec fn coord_scan_end(s: Seq<char>, k: int) -> int {
    let p1 = k + 1;
    if !is_dig(char_at(s, p1)) {
        p1
    } else {
        let e1 = digits_end(s, p1);
        if digits_val(s, p1, e1) > u32::MAX {
            e1
        } else if char_at(s, e1) != ',' {
            e1
        } else {
            let p2 = e1 + 1;
            if !is_dig(char_at(s, p2)) {
                p2
            } else {
                let e2 = digits_end(s, p2);
                if digits_val(s, p2, e2) > u32::MAX {
                    e2
                } else if char_at(s, e2) != ')' {
                    e2
                } else {
                    e2 + 1
                }
            }
        }
    }
}

/// The keyword an uppercased word names, if any.
pub open spec fn keyword_of(u: Seq<char>) -> Option<Keywords> {
    if u == "GAME"@ {
        Option::Some(Keywords::Game)
    } else if u == "CREATE"@ {
        Option::Some(Keywords::Create)
    } else if u == "JOIN"@ {
        Option::Some(Keywords::Join)
    } else if u == "MOVE"@ {
        Option::Some(Keywords::Move)
    } else if u == "UNDO"@ {
        Option::Some(Keywords::Undo)
    } else if u == "GET"@ {
        Option::Some(Keywords::Get)
    } else if u == "TO"@ {
        Option::Some(Keywords::To)
    } else {
        Option::None
    }
}

/// The shape of one token, with an identifier carried as its view.
pub ghost enum TokenShape {
    Kw(Keywords),
    RedWord,
    BlackWord,
    Num(u32),
    Coord(u8, u8),
    LParen,
    RParen,
    Comma,
    Ident(Seq<char>),
    End,
}

/// The shape of the token a scan starting at `i` produces.
pub open spec fn token_shape(s: Seq<char>, i: int) -> TokenShape {
    let k = skip_ws(s, i);
    let c = char_at(s, k);
    if c == '(' {
        match coord_ok(s, k) {
            Option::Some((x, y)) => TokenShape::Coord(x, y),
            Option::None => TokenShape::LParen,
        }
    } else if c == ')' {
        TokenShape::RParen
    } else if c == ',' {
        TokenShape::Comma
    } else if is_dig(c) {
        let v = digits_val(s, k, digits_end(s, k));
        if v <= u32::MAX {
            TokenShape::Num(v as u32)
        } else {
            TokenShape::End
        }
    } else if is_ascii_letter(c) {
        let u = upper_of(s.subrange(k, ident_end(s, k)));
        match keyword_of(u) {
            Option::Some(kw) => TokenShape::Kw(kw),
            Option::None => if u == "RED"@ {
                TokenShape::RedWord
            } else if u == "BLACK"@ {
                TokenShape::BlackWord
            } else {
                TokenShape::Ident(u)
            },
        }
    } else {
        TokenShape::End
    }
}

/// Where the scan starting at `i` stops.
pub open spec fn token_end(s: Seq<char>, i: int) -> int {
    let k = skip_ws(s, i);
    let c = char_at(s, k);
    if c == '(' {
        match coord_ok(s, k) {
            Option::Some(xy) => coord_scan_end(s, k),
            Option::None => coord_scan_end(s, k) + 1,
        }
    } else if c == ')' || c == ',' {
        k + 1
    } else if is_dig(c) {
        digits_end(s, k)
    } else if is_ascii_letter(c) {
        ident_end(s, k)
    } else if c == '\0' {
        k
    } else {
        k + 1
    }
}

/// The token value a shape describes; an identifier is pinned by its view.
pub open spec fn shape_matches(sh: TokenShape, t: Token) -> bool {
    match sh {
        TokenShape::Kw(k) => t == Token::Keyword(k),
        TokenShape::RedWord => t == Token::Red,
        TokenShape::BlackWord => t == Token::Black,
        TokenShape::Num(v) => t == Token::Number(v),
        TokenShape::Coord(x, y) => t == Token::Coordinate(x, y),
        TokenShape::LParen => t == Token::LeftParen,
        TokenShape::RParen => t == Token::RightParen,
        TokenShape::Comma => t == Token::Comma,
        TokenShape::Ident(u) => t matches Token::Identifier(nm) && nm@ == u,
        TokenShape::End => t == Token::Eof,
    }
}

/// The token scanned at `i` is `t`.
pub open spec fn token_is(s: Seq<char>, i: int, t: Token) -> bool {
    shape_matches(token_shape(s, i), t)
}

/// The input with leading and trailing whitespace removed.
pub open spec fn trimmed(s: Seq<char>) -> Seq<char> {
    let a = skip_ws(s, 0);
    let b = ws_suffix_start(s, s.len() as int);
    if a >= b {
        Seq::empty()
    } else {
        s.subrange(a, b)
    }
}

/// The start of the whitespace run that ends at `j`.
pub open spec fn ws_suffix_start(s: Seq<char>, j: int) -> int
    decreases j,
{
    if j <= 0 {
        0
    } else if is_unicode_space(s[j - 1]) {
        ws_suffix_start(s, j - 1)
    } else {
        j
    }
}

/// `ts` is exactly the sequence of tokens scanned from `i0` to `iend`,
/// none of them the end marker.
pub open spec fn tokens_read(s: Seq<char>, i0: int, ts: Seq<Token>, iend: int) -> bool
    decreases ts.len(),
{
    if ts.len() == 0 {
        iend == i0
    } else {
        &&& !(ts[0] matches Token::Eof)
        &&& token_is(s, i0, ts[0])
        &&& tokens_read(s, token_end(s, i0), ts.drop_first(), iend)
    }
}

/// The scanner: the trimmed input as characters, the cursor, and the
/// character under it (NUL at and past the end).
#[derive(Debug)]
pub struct Lexer {
    input: Vec<char>,
    position: usize,
    read_position: usize,
    ch: char,
}

impl Lexer {
    /// The characters being scanned.
    pub closed spec fn src(self) -> Seq<char> {
        self.input@
    }

    /// The cursor.
    pub closed spec fn pos(self) -> int {
        self.position as int
    }

    pub closed spec fn wf(self) -> bool {
        &&& self.input@.len() <= usize::MAX - 2
        &&& self.position <= self.input@.len() + 1
        &&& self.read_position == self.position + 1
        &&& self.ch == char_at(self.input@, self.position as int)
    }

    pub fn new(input: &str) -> (r: Self)
        ensures
            r.wf(),
            r.src() == trimmed(input@) || (input@.len() > usize::MAX - 2 && r.src()
                == trimmed(input@).subrange(0, (usize::MAX - 2) as int)),
            r.pos() == 0,
    {
        let chars = str_to_chars(input);
        let n = chars.len();

        let mut start: usize = 0;
        while start < n && is_space(chars[start])
            invariant
                n == chars.len(),
                start <= n,
                skip_ws(chars@, 0) == skip_ws(chars@, start as int),
            decreases n - start,
        {
            start = start + 1;
        }

        let mut end: usize = n;
        while end > start && is_space(chars[end - 1])
            invariant
                n == chars.len(),
                start <= end <= n,
                ws_suffix_start(chars@, n as int) == ws_suffix_start(chars@, end as int),
            decreases end,
        {
            end = end - 1;
        }

        let mut trimmed_chars: Vec<char> = Vec::new();
        let mut i = start;
        while i < end
            invariant
                n == chars.len(),
                start <= i <= end <= n,
                trimmed_chars@.len() == i - start,
                forall|m: int| start <= m < i ==> trimmed_chars@[m - start] == chars@[m],
                trimmed_chars@.len() <= usize::MAX - 2,
            ensures
                i == end || trimmed_chars@.len() == usize::MAX - 2,
            decreases end - i,
        {
            if trimmed_chars.len() == usize::MAX - 2 {
                // Unreachable for any text that fits in memory; it keeps the
                // cursor arithmetic below total.
                break ;
            }
            trimmed_chars.push(chars[i]);
            i = i + 1;
        }

        proof {
            let s = chars@;
            let a = skip_ws(s, 0);
            let b = ws_suffix_start(s, n as int);
            lemma_skip_ws_bounds(s, 0);
            lemma_ws_suffix_bounds(s, end as int);
            assert(skip_ws(s, start as int) == start);
            if end > start {
                assert(ws_suffix_start(s, end as int) == end);
                if i == end {
                    assert(trimmed_chars@ =~= trimmed(s));
                } else {
                    assert(trimmed_chars@ =~= trimmed(s).subrange(0, (usize::MAX - 2) as int));
                }
            } else {
                assert(b <= end);
                assert(trimmed_chars@ =~= Seq::<char>::empty());
                assert(trimmed(s) =~= Seq::<char>::empty());
            }
        }

        let mut lexer = Lexer {
            input: trimmed_chars,
            position: 0,
            read_position: 0,
            ch: '\0',
        };
        lexer.read_char();
        lexer
    }

    /// Step the cursor one character forward.
    fn read_char(&mut self)
        requires
            old(self).input@.len() <= usize::MAX - 2,
            old(self).read_position <= old(self).input@.len() + 1,
        ensures
            final(self).input == old(self).input,
            final(self).position == old(self).read_position,
            final(self).read_position == old(self).read_position + 1,
            final(self).ch == char_at(final(self).input@, final(self).position as int),
    {
        if self.read_position >= self.input.len() {
            self.ch = '\0';
        } else {
            self.ch = self.input[self.read_position];
        }

        self.position = self.read_position;
        self.read_position = self.read_position + 1;
    }

    /// Step past whitespace.
    fn skip_whitespace(&mut self)
        requires
            old(self).wf(),
        ensures
            final(self).wf(),
            final(self).input == old(self).input,
            final(self).pos() == skip_ws(old(self).src(), old(self).pos()),
    {
        while is_space(self.ch)
            invariant
                self.input@.len() <= usize::MAX - 2,
                self.position <= self.input@.len() + 1,
                self.read_position == self.position + 1,
                self.ch == char_at(self.input@, self.position as int),
                self.input == old(self).input,
                skip_ws(old(self).src(), old(self).pos()) == skip_ws(
                    self.input@,
                    self.position as int,
                ),
            decreases self.input@.len() - self.position,
        {
            self.read_char();
        }
    }

    /// Scan a run of digits into a number; the whole run is consumed and
    /// the value is refused when it exceeds the 32-bit range.
    fn read_number(&mut self) -> (r: Option<u32>)
        requires
            old(self).wf(),
            old(self).pos() <= old(self).src().len(),
        ensures
            final(self).wf(),
            final(self).input == old(self).input,
            final(self).pos() == digits_end(old(self).src(), old(self).pos()),
            final(self).pos() <= old(self).src().len(),
            match r {
                Option::Some(v) => digits_val(old(self).src(), old(self).pos(), final(self).pos())
                    == v,
                Option::None => digits_val(old(self).src(), old(self).pos(), final(self).pos())
                    > u32::MAX,
            },
    {
        let ghost s = self.input@;
        let ghost start = self.position as int;
        let mut val: u32 = 0;
        let mut overflow = false;

        while 48 <= self.ch as u32 && self.ch as u32 <= 57
            invariant
                self.input@.len() <= usize::MAX - 2,
                self.position <= self.input@.len() + 1,
                self.read_position == self.position + 1,
                self.ch == char_at(self.input@, self.position as int),
                self.input == old(self).input,
                s == self.input@,
                0 <= start <= self.position as int <= s.len(),
                digits_end(s, start) == digits_end(s, self.position as int),
                !overflow ==> val == digits_val(s, start, self.position as int) && digits_val(
                    s,
                    start,
                    self.position as int,
                ) <= u32::MAX,
                overflow ==> digits_val(s, start, self.position as int) > u32::MAX,
            decreases self.input@.len() - self.position,
        {
            let d = self.ch as u32 - 48;
            let ghost p = self.position as int;
            proof {
                assert(digits_val(s, start, p + 1) == digits_val(s, start, p) * 10 + dig_val(
                    s[p],
                ));
            }
            if !overflow && val <= (u32::MAX - d) / 10 {
                proof {
                    assert(val * 10 + d <= u32::MAX) by (nonlinear_arith)
                        requires
                            val <= (u32::MAX - d) / 10,
                            d <= 9,
                    ;
                }
                val = val * 10 + d;
            } else {
                proof {
                    if !overflow {
                        assert(val * 10 + d > u32::MAX) by (nonlinear_arith)
                            requires
                                val > (u32::MAX - d) / 10,
                                d <= 9,
                        ;
                    } else {
                        assert(digits_val(s, start, p) * 10 + dig_val(s[p]) > u32::MAX)
                            by (nonlinear_arith)
                            requires
                                digits_val(s, start, p) > u32::MAX,
                                dig_val(s[p]) >= 0,
                        ;
                    }
                }
                overflow = true;
            }
            self.read_char();
        }

        if overflow {
            Option::None
        } else {
            Option::Some(val)
        }
    }

    /// Scan a run of alphanumeric characters into a word.
    fn read_identifier(&mut self) -> (r: String)
        requires
            old(self).wf(),
            old(self).pos() <= old(self).src().len(),
        ensures
            final(self).wf(),
            final(self).input == old(self).input,
            final(self).pos() == ident_end(old(self).src(), old(self).pos()),
            final(self).pos() <= old(self).src().len(),
            r@ == old(self).src().subrange(old(self).pos(), final(self).pos()),
            is_ascii_letter(char_at(old(self).src(), old(self).pos())) ==> final(self).pos()
                > old(self).pos(),
    {
        let ghost s = self.input@;
        let ghost start = self.position as int;
        let mut collected: Vec<char> = Vec::new();

        proof {
            assert(collected@ =~= s.subrange(start, start));
        }
        loop
            invariant
                self.input@.len() <= usize::MAX - 2,
                self.position <= self.input@.len() + 1,
                self.read_position == self.position + 1,
                self.ch == char_at(self.input@, self.position as int),
                self.input == old(self).input,
                s == self.input@,
                0 <= start <= self.position as int <= s.len(),
                ident_end(s, start) == ident_end(s, self.position as int),
                collected@ == s.subrange(start, self.position as int),
            ensures
                !is_unicode_alnum(char_at(s, self.position as int)),
                is_ascii_letter(char_at(s, start)) ==> self.position > start,
            decreases s.len() + 1 - self.position,
        {
            let alnum = is_alnum(self.ch);
            if !alnum {
                break ;
            }
            proof {
                assert(self.position < s.len());
            }
            collected.push(self.ch);
            self.read_char();
            proof {
                assert(collected@ =~= s.subrange(start, self.position as int));
            }
        }
        chars_to_string(&collected)
    }

    /// Scan a `(x,y)` coordinate; on failure the characters looked at stay
    /// consumed, exactly as far as the scan reached.
    fn read_coordinate(&mut self) -> (r: Option<(u8, u8)>)
        requires
            old(self).wf(),
            char_at(old(self).src(), old(self).pos()) == '(',
        ensures
            final(self).wf(),
            final(self).input == old(self).input,
            r == coord_ok(old(self).src(), old(self).pos()),
            final(self).pos() == coord_scan_end(old(self).src(), old(self).pos()),
            final(self).pos() <= old(self).src().len(),
    {
        let ghost s = self.input@;
        let ghost k = self.position as int;

        if !(self.ch == '(') {
            return Option::None;
        }
        self.read_char();

        let x: u8;
        if 48 <= self.ch as u32 && self.ch as u32 <= 57 {
            match self.read_number() {
                Option::Some(n) => {
                    proof {
                        assert(n as u8 == (n % 256) as u8) by (bit_vector);
                    }
                    x = n as u8;
                },
                Option::None => {
                    return Option::None;
                },
            }
        } else {
            return Option::None;
        }

        if !(self.ch == ',') {
            return Option::None;
        }
        self.read_char();

        let y: u8;
        if 48 <= self.ch as u32 && self.ch as u32 <= 57 {
            match self.read_number() {
                Option::Some(n) => {
                    proof {
                        assert(n as u8 == (n % 256) as u8) by (bit_vector);
                    }
                    y = n as u8;
                },
                Option::None => {
                    return Option::None;
                },
            }
        } else {
            return Option::None;
        }

        if !(self.ch == ')') {
            return Option::None;
        }
        self.read_char();

        Option::Some((x, y))
    }

    /// Scan the next token.
    pub fn next_token(&mut self) -> (r: Token)
        requires
            old(self).wf(),
        ensures
            final(self).wf(),
            final(self).src() == old(self).src(),
            token_is(old(self).src(), old(self).pos(), r),
            final(self).pos() == token_end(old(self).src(), old(self).pos()),
            !(r matches Token::Eof) ==> final(self).pos() > old(self).pos(),
            final(self).pos() >= old(self).pos(),
    {
        proof {
            if old(self).pos() <= old(self).src().len() {
                lemma_skip_ws_bounds(old(self).src(), old(self).pos());
            }
            let k = skip_ws(old(self).src(), old(self).pos());
            lemma_digits_end_bounds(old(self).src(), k);
            lemma_ident_end_bounds(old(self).src(), k);
            lemma_coord_scan_bounds(old(self).src(), k);
        }
        self.skip_whitespace();

        let c = self.ch;
        let ci = c as u32;

        if c == '(' {
            match self.read_coordinate() {
                Option::Some((x, y)) => Token::Coordinate(x, y),
                Option::None => {
                    self.read_char();
                    Token::LeftParen
                },
            }
        } else if c == ')' {
            self.read_char();
            Token::RightParen
        } else if c == ',' {
            self.read_char();
            Token::Comma
        } else if 48 <= ci && ci <= 57 {
            match self.read_number() {
                Option::Some(n) => Token::Number(n),
                Option::None => Token::Eof,
            }
        } else if (97 <= ci && ci <= 122) || (65 <= ci && ci <= 90) {
            let ident = self.read_identifier();
            let upper = to_upper(ident.as_str());
            if string_is(&upper, "GAME") {
                Token::Keyword(Keywords::Game)
            } else if string_is(&upper, "CREATE") {
                Token::Keyword(Keywords::Create)
            } else if string_is(&upper, "JOIN") {
                Token::Keyword(Keywords::Join)
            } else if string_is(&upper, "MOVE") {
                Token::Keyword(Keywords::Move)
            } else if string_is(&upper, "UNDO") {
                Token::Keyword(Keywords::Undo)
            } else if string_is(&upper, "GET") {
                Token::Keyword(Keywords::Get)
            } else if string_is(&upper, "TO") {
                Token::Keyword(Keywords::To)
            } else if string_is(&upper, "RED") {
                Token::Red
            } else if string_is(&upper, "BLACK") {
                Token::Black
            } else {
                Token::Identifier(upper)
            }
        } else if c == '\0' {
            Token::Eof
        } else {
            self.read_char();
            Token::Eof
        }
    }

    /// Scan the whole input into tokens, stopping at the end marker.
    pub fn tokenize(&mut self) -> (r: Vec<Token>)
        requires
            old(self).wf(),
        ensures
            final(self).wf(),
            final(self).src() == old(self).src(),
            exists|p: int|
                tokens_read(old(self).src(), old(self).pos(), r@, p) && token_is(
                    old(self).src(),
                    p,
                    Token::Eof,
                ) && final(self).pos() == token_end(old(self).src(), p),
    {
        let ghost s = self.input@;
        let ghost start = self.position as int;
        let ghost mut lp: int = start;
        let mut tokens: Vec<Token> = Vec::new();

        loop
            invariant_except_break
                tokens_read(s, start, tokens@, self.position as int),
            invariant
                self.input@.len() <= usize::MAX - 2,
                self.position <= self.input@.len() + 1,
                self.read_position == self.position + 1,
                self.ch == char_at(self.input@, self.position as int),
                s == self.input@,
                0 <= start <= self.position as int <= s.len() + 1,
            ensures
                tokens_read(s, start, tokens@, lp),
                token_is(s, lp, Token::Eof),
                self.position as int == token_end(s, lp),
            decreases s.len() + 1 - self.position,
        {
            let ghost before = self.position as int;
            let ghost toks_before = tokens@;
            let token = self.next_token();
            let is_eof = match token {
                Token::Eof => true,
                _ => false,
            };
            if is_eof {
                proof {
                    lp = before;
                }
                break ;
            }
            proof {
                lemma_tokens_read_push(s, start, toks_before, before, token);
            }
            tokens.push(token);
        }
        tokens
    }
}

/// Equality of a scanned word against a keyword literal.
fn string_is(u: &String, lit: &str) -> (r: bool)
    ensures
        r == (u@ == lit@),
{
    let l = String::from_str(lit);
    *u == l
}

/// `skip_ws` never runs backward, nor past the end of real input.
pub proof fn lemma_skip_ws_bounds(s: Seq<char>, i: int)
    requires
        0 <= i,
    ensures
        i <= skip_ws(s, i),
        i <= s.len() ==> skip_ws(s, i) <= s.len(),
    decreases s.len() - i,
{
    if i < s.len() && is_unicode_space(s[i]) {
        lemma_skip_ws_bounds(s, i + 1);
    }
}

/// A token scan never runs backward.
pub proof fn lemma_token_end_bounds(s: Seq<char>, i: int)
    requires
        0 <= i,
    ensures
        i <= token_end(s, i),
{
    lemma_skip_ws_bounds(s, i);
    let k = skip_ws(s, i);
    lemma_digits_end_bounds(s, k);
    lemma_ident_end_bounds(s, k);
    lemma_coord_scan_bounds(s, k);
}

/// A coordinate scan always moves past the opening parenthesis.
pub proof fn lemma_coord_scan_bounds(s: Seq<char>, k: int)
    requires
        0 <= k,
    ensures
        k + 1 <= coord_scan_end(s, k),
{
    lemma_digits_end_bounds(s, k + 1);
    if is_dig(char_at(s, k + 1)) {
        let e1 = digits_end(s, k + 1);
        lemma_digits_end_bounds(s, e1 + 1);
    }
}

/// A digit run never runs past the end and never backward.
pub proof fn lemma_digits_end_bounds(s: Seq<char>, i: int)
    requires
        0 <= i,
    ensures
        i <= digits_end(s, i),
        i <= s.len() ==> digits_end(s, i) <= s.len(),
    decreases s.len() - i,
{
    if i < s.len() && is_dig(s[i]) {
        lemma_digits_end_bounds(s, i + 1);
    }
}

/// An identifier run never runs past the end and never backward.
pub proof fn lemma_ident_end_bounds(s: Seq<char>, i: int)
    requires
        0 <= i,
    ensures
        i <= ident_end(s, i),
        i <= s.len() ==> ident_end(s, i) <= s.len(),
    decreases s.len() - i,
{
    if i < s.len() && is_unicode_alnum(s[i]) {
        lemma_ident_end_bounds(s, i + 1);
    }
}

/// `ws_suffix_start` stays in range.
proof fn lemma_ws_suffix_bounds(s: Seq<char>, j: int)
    requires
        0 <= j <= s.len(),
    ensures
        0 <= ws_suffix_start(s, j) <= j,
    decreases j,
{
    if j > 0 && is_unicode_space(s[j - 1]) {
        lemma_ws_suffix_bounds(s, j - 1);
    }
}

/// Reading one more non-end token extends a read token sequence.
proof fn lemma_tokens_read_push(s: Seq<char>, i0: int, ts: Seq<Token>, j: int, t: Token)
    requires
        tokens_read(s, i0, ts, j),
        token_is(s, j, t),
        !(t matches Token::Eof),
    ensures
        tokens_read(s, i0, ts.push(t), token_end(s, j)),
    decreases ts.len(),
{
    if ts.len() == 0 {
        assert(ts.push(t)[0] == t);
        assert(ts.push(t).drop_first() =~= Seq::<Token>::empty());
        assert(tokens_read(s, token_end(s, i0), Seq::<Token>::empty(), token_end(s, j)));
    } else {
        assert(ts.push(t)[0] == ts[0]);
        assert(ts.push(t).drop_first() =~= ts.drop_first().push(t));
        lemma_tokens_read_push(s, token_end(s, i0), ts.drop_first(), j, t);
    }
}

} // verus!
