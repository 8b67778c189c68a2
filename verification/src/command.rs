use vstd::prelude::*;

use crate::lexer::digits_val;
use crate::piece::Color;
use crate::text::{
    chars_to_string, dig_val, is_dig, is_space, is_unicode_space, str_to_chars, to_upper, upper_of,
};

verus! {

/// One parsed command of the word-based command syntax.
#[derive(Debug)]
pub enum Command {
    Move { game_id: u32, color: Color, from_x: u8, from_y: u8, to_x: u8, to_y: u8 },
    CreateGame,
    JoinGame { game_id: u32, name: String, color: Color },
    GetGame { game_id: u32 },
    Undo { game_id: u32 },
    Invalid,
}

impl Clone for Command {
    fn clone(&self) -> (r: Self)
        ensures
            r == *self,
    {
        match self {
            Command::Move { game_id, color, from_x, from_y, to_x, to_y } => Command::Move {
                game_id: *game_id,
                color: *color,
                from_x: *from_x,
                from_y: *from_y,
                to_x: *to_x,
                to_y: *to_y,
            },
            Command::CreateGame => Command::CreateGame,
            Command::JoinGame { game_id, name, color } => Command::JoinGame {
                game_id: *game_id,
                name: name.clone(),
                color: *color,
            },
            Command::GetGame { game_id } => Command::GetGame { game_id: *game_id },
            Command::Undo { game_id } => Command::Undo { game_id: *game_id },
            Command::Invalid => Command::Invalid,
        }
    }
}

/// The first position at or after `i` holding whitespace, or the end.
pub open spec fn word_end(s: Seq<char>, i: int) -> int
    decreases s.len() - i,
{
    if i < 0 || i >= s.len() {
        i
    } else if is_unicode_space(s[i]) {
        i
    } else {
        word_end(s, i + 1)
    }
}

/// The whitespace-separated words of `s`, scanned from `i`.
pub open spec fn words_from(s: Seq<char>, i: int) -> Seq<Seq<char>>
    decreases s.len() - i,
    via words_from_decreases
{
    if i < 0 || i >= s.len() {
        Seq::empty()
    } else if is_unicode_space(s[i]) {
        words_from(s, i + 1)
    } else {
        let e = word_end(s, i);
        if e > i && e <= s.len() {
            seq![s.subrange(i, e)] + words_from(s, e)
        } else {
            Seq::empty()
        }
    }
}

#[via_fn]
proof fn words_from_decreases(s: Seq<char>, i: int) {
    if 0 <= i < s.len() && !is_unicode_space(s[i]) {
        lemma_word_end_bounds(s, i);
    }
}

/// A word scan never runs backward nor past the end.
pub proof fn lemma_word_end_bounds(s: Seq<char>, i: int)
    requires
        0 <= i,
    ensures
        i <= word_end(s, i),
        i <= s.len() ==> word_end(s, i) <= s.len(),
    decreases s.len() - i,
{
    if 0 <= i < s.len() && !is_unicode_space(s[i]) {
        lemma_word_end_bounds(s, i + 1);
    }
}

/// The whitespace-separated words of `s`.
pub open spec fn words(s: Seq<char>) -> Seq<Seq<char>> {
    words_from(s, 0)
}

/// What `u32::from_str` makes of a word: an optional leading plus sign,
/// then digits only, in range.
pub open spec fn parse_u32_spec(w: Seq<char>) -> Option<u32> {
    let st: int = if w.len() > 0 && w[0] == '+' {
        1
    } else {
        0
    };
    if w.len() - st <= 0 {
        Option::None
    } else if exists|m: int| st <= m < w.len() && !is_dig(#[trigger] w[m]) {
        Option::None
    } else if digits_val(w, st, w.len() as int) > u32::MAX {
        Option::None
    } else {
        Option::Some(digits_val(w, st, w.len() as int) as u32)
    }
}

/// What `u8::from_str` makes of a word.
pub open spec fn parse_u8_spec(w: Seq<char>) -> Option<u8> {
    let st: int = if w.len() > 0 && w[0] == '+' {
        1
    } else {
        0
    };
    if w.len() - st <= 0 {
        Option::None
    } else if exists|m: int| st <= m < w.len() && !is_dig(#[trigger] w[m]) {
        Option::None
    } else if digits_val(w, st, w.len() as int) > u8::MAX {
        Option::None
    } else {
        Option::Some(digits_val(w, st, w.len() as int) as u8)
    }
}

/// A parenthesis character, as stripped off coordinate words.
pub open spec fn is_paren(c: char) -> bool {
    c == '(' || c == ')'
}

/// The first position at or after `i` that is not a parenthesis.
pub open spec fn skip_paren(s: Seq<char>, i: int) -> int
    decreases s.len() - i,
{
    if i < 0 || i >= s.len() {
        i
    } else if is_paren(s[i]) {
        skip_paren(s, i + 1)
    } else {
        i
    }
}

/// The start of the parenthesis run that ends at `j`.
pub open spec fn paren_suffix_start(s: Seq<char>, j: int) -> int
    decreases j,
{
    if j <= 0 {
        0
    } else if is_paren(s[j - 1]) {
        paren_suffix_start(s, j - 1)
    } else {
        j
    }
}

/// The word with its leading and trailing parentheses stripped.
pub open spec fn trim_parens(s: Seq<char>) -> Seq<char> {
    let a = skip_paren(s, 0);
    let b = paren_suffix_start(s, s.len() as int);
    if a >= b {
        Seq::empty()
    } else {
        s.subrange(a, b)
    }
}

/// The position of the first comma at or after `i`, or the end.
pub open spec fn first_comma(s: Seq<char>, i: int) -> int
    decreases s.len() - i,
{
    if i < 0 || i >= s.len() {
        i
    } else if s[i] == ',' {
        i
    } else {
        first_comma(s, i + 1)
    }
}

/// What a coordinate word `(x,y)` parses to: parentheses stripped, exactly
/// one comma, and two in-range numerals.
pub open spec fn coordinates_of(s: Seq<char>) -> Option<(u8, u8)> {
    let w = trim_parens(s);
    let c = first_comma(w, 0);
    if c >= w.len() {
        Option::None
    } else if first_comma(w, c + 1) < w.len() {
        Option::None
    } else {
        match parse_u8_spec(w.subrange(0, c)) {
            Option::None => Option::None,
            Option::Some(x) => match parse_u8_spec(w.subrange(c + 1, w.len() as int)) {
                Option::None => Option::None,
                Option::Some(y) => Option::Some((x, y)),
            },
        }
    }
}

/// `GAME <id> <color> MOVE <from> TO <to>`; this word-based syntax insists
/// on at least nine words before it looks at any of them.
pub open spec fn move_cmd_rel(ps: Seq<Seq<char>>, r: Command) -> bool {
    if ps.len() < 9 {
        r == Command::Invalid
    } else {
        match parse_u32_spec(ps[1]) {
            Option::None => r == Command::Invalid,
            Option::Some(game_id) => {
                let u2 = upper_of(ps[2]);
                if u2 != "RED"@ && u2 != "BLACK"@ {
                    r == Command::Invalid
                } else {
                    let color = if u2 == "RED"@ {
                        Color::Red
                    } else {
                        Color::Black
                    };
                    if upper_of(ps[3]) != "MOVE"@ {
                        r == Command::Invalid
                    } else {
                        match coordinates_of(ps[4]) {
                            Option::None => r == Command::Invalid,
                            Option::Some((from_x, from_y)) => if upper_of(ps[5]) != "TO"@ {
                                r == Command::Invalid
                            } else {
                                match coordinates_of(ps[6]) {
                                    Option::None => r == Command::Invalid,
                                    Option::Some((to_x, to_y)) => r == (Command::Move {
                                        game_id,
                                        color,
                                        from_x,
                                        from_y,
                                        to_x,
                                        to_y,
                                    }),
                                }
                            },
                        }
                    }
                }
            },
        }
    }
}

/// `JOIN GAME <id> <name> <color>`.
pub open spec fn join_cmd_rel(ps: Seq<Seq<char>>, r: Command) -> bool {
    if ps.len() != 5 || upper_of(ps[1]) != "GAME"@ {
        r == Command::Invalid
    } else {
        match parse_u32_spec(ps[2]) {
            Option::None => r == Command::Invalid,
            Option::Some(game_id) => {
                let u4 = upper_of(ps[4]);
                if u4 != "RED"@ && u4 != "BLACK"@ {
                    r == Command::Invalid
                } else {
                    &&& r matches Command::JoinGame { game_id: gid, name, color }
                    &&& gid == game_id
                    &&& name@ == ps[3]
                    &&& color == (if u4 == "RED"@ {
                        Color::Red
                    } else {
                        Color::Black
                    })
                }
            },
        }
    }
}

/// `GET GAME <id>` or `UNDO GAME <id>`: a three-word command with an id.
pub open spec fn id_cmd_ok(ps: Seq<Seq<char>>) -> bool {
    ps.len() == 3 && upper_of(ps[1]) == "GAME"@ && parse_u32_spec(ps[2]) is Some
}

/// What parsing a whole command line yields, over its words.
pub open spec fn command_rel(ps: Seq<Seq<char>>, r: Command) -> bool {
    if ps.len() == 0 {
        r == Command::Invalid
    } else {
        let u0 = upper_of(ps[0]);
        if u0 == "GAME"@ {
            move_cmd_rel(ps, r)
        } else if u0 == "CREATE"@ {
            if ps.len() == 2 && upper_of(ps[1]) == "GAME"@ {
                r == Command::CreateGame
            } else {
                r == Command::Invalid
            }
        } else if u0 == "JOIN"@ {
            join_cmd_rel(ps, r)
        } else if u0 == "GET"@ {
            if id_cmd_ok(ps) {
                r == (Command::GetGame { game_id: parse_u32_spec(ps[2])->Some_0 })
            } else {
                r == Command::Invalid
            }
        } else if u0 == "UNDO"@ {
            if id_cmd_ok(ps) {
                r == (Command::Undo { game_id: parse_u32_spec(ps[2])->Some_0 })
            } else {
                r == Command::Invalid
            }
        } else {
            r == Command::Invalid
        }
    }
}

/// The views of a list of words.
pub open spec fn word_views(ps: Seq<String>) -> Seq<Seq<char>> {
    ps.map_values(|p: String| p@)
}

/// The word-based command parser.
#[derive(Debug, Clone, Copy)]
pub struct CommandParser;

impl CommandParser {
    pub fn new() -> (r: Self) {
        CommandParser
    }

    /// Split the input into words and parse one command from them.
    pub fn parse(&self, input: &str) -> (r: Command)
        ensures
            command_rel(words(input@), r),
    {
        let parts = split_words(input);

        if parts.len() == 0 {
            return Command::Invalid;
        }

        let u0 = to_upper(parts[0].as_str());
        if string_eq(&u0, "GAME") {
            self.parse_move_command(&parts)
        } else if string_eq(&u0, "CREATE") {
            self.parse_create_game_command(&parts)
        } else if string_eq(&u0, "JOIN") {
            self.parse_join_game_command(&parts)
        } else if string_eq(&u0, "GET") {
            self.parse_get_game_command(&parts)
        } else if string_eq(&u0, "UNDO") {
            self.parse_undo_command(&parts)
        } else {
            Command::Invalid
        }
    }

    /// Parse `GAME <id> <color> MOVE <from> TO <to>`.
    fn parse_move_command(&self, parts: &Vec<String>) -> (r: Command)
        ensures
            move_cmd_rel(word_views(parts@), r),
    {
        if parts.len() < 9 {
            return Command::Invalid;
        }

        let game_id = match parse_u32_str(parts[1].as_str()) {
            Option::Some(id) => id,
            Option::None => {
                return Command::Invalid;
            },
        };

        let u2 = to_upper(parts[2].as_str());
        let color = if string_eq(&u2, "RED") {
            Color::Red
        } else if string_eq(&u2, "BLACK") {
            Color::Black
        } else {
            return Command::Invalid;
        };

        let u3 = to_upper(parts[3].as_str());
        if !string_eq(&u3, "MOVE") {
            return Command::Invalid;
        }

        let from_coords = self.parse_coordinates(parts[4].as_str());
        let (from_x, from_y) = match from_coords {
            Option::Some(c) => c,
            Option::None => {
                return Command::Invalid;
            },
        };

        let u5 = to_upper(parts[5].as_str());
        if !string_eq(&u5, "TO") {
            return Command::Invalid;
        }

        let to_coords = self.parse_coordinates(parts[6].as_str());
        let (to_x, to_y) = match to_coords {
            Option::Some(c) => c,
            Option::None => {
                return Command::Invalid;
            },
        };

        Command::Move { game_id, color, from_x, from_y, to_x, to_y }
    }

    /// Parse `CREATE GAME`.
    fn parse_create_game_command(&self, parts: &Vec<String>) -> (r: Command)
        ensures
            r == (if word_views(parts@).len() == 2 && upper_of(word_views(parts@)[1]) == "GAME"@ {
                Command::CreateGame
            } else {
                Command::Invalid
            }),
    {
        if parts.len() != 2 {
            return Command::Invalid;
        }
        let u1 = to_upper(parts[1].as_str());
        if !string_eq(&u1, "GAME") {
            return Command::Invalid;
        }

        Command::CreateGame
    }

    /// Parse `JOIN GAME <id> <name> <color>`.
    fn parse_join_game_command(&self, parts: &Vec<String>) -> (r: Command)
        ensures
            join_cmd_rel(word_views(parts@), r),
    {
        if parts.len() != 5 {
            return Command::Invalid;
        }
        let u1 = to_upper(parts[1].as_str());
        if !string_eq(&u1, "GAME") {
            return Command::Invalid;
        }

        let game_id = match parse_u32_str(parts[2].as_str()) {
            Option::Some(id) => id,
            Option::None => {
                return Command::Invalid;
            },
        };

        let name = parts[3].clone();

        let u4 = to_upper(parts[4].as_str());
        let color = if string_eq(&u4, "RED") {
            Color::Red
        } else if string_eq(&u4, "BLACK") {
            Color::Black
        } else {
            return Command::Invalid;
        };

        Command::JoinGame { game_id, name, color }
    }

    /// Parse `GET GAME <id>`.
    fn parse_get_game_command(&self, parts: &Vec<String>) -> (r: Command)
        ensures
            r == (if id_cmd_ok(word_views(parts@)) {
                Command::GetGame { game_id: parse_u32_spec(word_views(parts@)[2])->Some_0 }
            } else {
                Command::Invalid
            }),
    {
        if parts.len() != 3 {
            return Command::Invalid;
        }
        let u1 = to_upper(parts[1].as_str());
        if !string_eq(&u1, "GAME") {
            return Command::Invalid;
        }

        let game_id = match parse_u32_str(parts[2].as_str()) {
            Option::Some(id) => id,
            Option::None => {
                return Command::Invalid;
            },
        };

        Command::GetGame { game_id }
    }

    /// Parse `UNDO GAME <id>`.
    fn parse_undo_command(&self, parts: &Vec<String>) -> (r: Command)
        ensures
            r == (if id_cmd_ok(word_views(parts@)) {
                Command::Undo { game_id: parse_u32_spec(word_views(parts@)[2])->Some_0 }
            } else {
                Command::Invalid
            }),
    {
        if parts.len() != 3 {
            return Command::Invalid;
        }
        let u1 = to_upper(parts[1].as_str());
        if !string_eq(&u1, "GAME") {
            return Command::Invalid;
        }

        let game_id = match parse_u32_str(parts[2].as_str()) {
            Option::Some(id) => id,
            Option::None => {
                return Command::Invalid;
            },
        };

        Command::Undo { game_id }
    }

    /// Parse a coordinate word of the shape `(x,y)`.
    fn parse_coordinates(&self, input: &str) -> (r: Option<(u8, u8)>)
        ensures
            r == coordinates_of(input@),
    {
        let cs = str_to_chars(input);
        let n = cs.len();

        let mut a: usize = 0;
        while a < n && (cs[a] == '(' || cs[a] == ')')
            invariant
                n == cs.len(),
                a <= n,
                skip_paren(cs@, 0) == skip_paren(cs@, a as int),
            decreases n - a,
        {
            a = a + 1;
        }

        let mut b: usize = n;
        while b > a && (cs[b - 1] == '(' || cs[b - 1] == ')')
            invariant
                n == cs.len(),
                a <= b <= n,
                paren_suffix_start(cs@, n as int) == paren_suffix_start(cs@, b as int),
            decreases b,
        {
            b = b - 1;
        }

        let ghost w = trim_parens(cs@);
        proof {
            lemma_skip_paren_bounds(cs@, 0);
            lemma_paren_suffix_bounds(cs@, b as int);
            assert(skip_paren(cs@, a as int) == a);
            if b > a {
                assert(paren_suffix_start(cs@, b as int) == b);
                assert(w =~= cs@.subrange(a as int, b as int));
            } else {
                assert(w =~= Seq::<char>::empty());
            }
        }

        // find the first comma inside [a, b), and refuse a second one
        let mut first: usize = a;
        while first < b && cs[first] != ','
            invariant
                n == cs.len(),
                a <= first <= b <= n,
                w == trim_parens(cs@),
                b - a == w.len(),
                forall|m: int| 0 <= m < b - a ==> w[m] == cs@[a + m],
                first_comma(w, 0) == first_comma(w, first - a),
            decreases b - first,
        {
            first = first + 1;
        }

        proof {
            if first < b {
                assert(first_comma(w, first - a) == first - a);
            } else {
                assert(first_comma(w, first - a) == w.len());
            }
        }

        if first == b {
            return Option::None;
        }

        let mut second: usize = first + 1;
        while second < b && cs[second] != ','
            invariant
                n == cs.len(),
                a <= first < b <= n,
                first < second <= b,
                w == trim_parens(cs@),
                b - a == w.len(),
                forall|m: int| 0 <= m < b - a ==> w[m] == cs@[a + m],
                first_comma(w, first - a + 1) == first_comma(w, second - a),
            decreases b - second,
        {
            second = second + 1;
        }

        proof {
            if second < b {
                assert(first_comma(w, second - a) == second - a);
            } else {
                assert(first_comma(w, second - a) == w.len());
            }
        }

        if second < b {
            return Option::None;
        }

        let x = match parse_u8_range(&cs, a, first) {
            Option::Some(v) => v,
            Option::None => {
                proof {
                    assert(w.subrange(0, first_comma(w, 0)) =~= cs@.subrange(
                        a as int,
                        first as int,
                    ));
                }
                return Option::None;
            },
        };
        proof {
            assert(w.subrange(0, first_comma(w, 0)) =~= cs@.subrange(a as int, first as int));
        }

        let y = match parse_u8_range(&cs, first + 1, b) {
            Option::Some(v) => v,
            Option::None => {
                proof {
                    assert(w.subrange(first_comma(w, 0) + 1, w.len() as int) =~= cs@.subrange(
                        first + 1,
                        b as int,
                    ));
                }
                return Option::None;
            },
        };
        proof {
            assert(w.subrange(first_comma(w, 0) + 1, w.len() as int) =~= cs@.subrange(
                first + 1,
                b as int,
            ));
        }

        Option::Some((x, y))
    }
}

/// Split the input into its whitespace-separated words.
fn split_words(input: &str) -> (r: Vec<String>)
    ensures
        word_views(r@) == words(input@),
{
    let cs = str_to_chars(input);
    let n = cs.len();
    let mut parts: Vec<String> = Vec::new();

    let mut i: usize = 0;
    while i < n
        invariant
            n == cs.len(),
            i <= n,
            word_views(parts@) + words_from(cs@, i as int) == words(cs@),
        decreases n - i,
    {
        if is_space(cs[i]) {
            i = i + 1;
        } else {
            let start = i;
            let mut wchars: Vec<char> = Vec::new();
            while i < n && !is_space(cs[i])
                invariant
                    n == cs.len(),
                    start <= i <= n,
                    word_end(cs@, start as int) == word_end(cs@, i as int),
                    wchars@ == cs@.subrange(start as int, i as int),
                decreases n - i,
            {
                wchars.push(cs[i]);
                i = i + 1;
                proof {
                    assert(wchars@ =~= cs@.subrange(start as int, i as int));
                }
            }
            let word = chars_to_string(&wchars);
            proof {
                assert(word_end(cs@, i as int) == i);
                assert(words_from(cs@, start as int) =~= seq![cs@.subrange(
                    start as int,
                    i as int,
                )] + words_from(cs@, i as int));
                assert(word_views(parts@.push(word)) =~= word_views(parts@) + seq![word@]);
            }
            parts.push(word);
        }
    }
    proof {
        assert(word_views(parts@) =~= words(cs@));
    }
    parts
}

/// Equality of an uppercased word against a keyword literal.
fn string_eq(u: &String, lit: &str) -> (r: bool)
    ensures
        r == (u@ == lit@),
{
    let l = String::from_str(lit);
    *u == l
}

/// Parse a whole word as `u32::from_str` does.
fn parse_u32_str(w: &str) -> (r: Option<u32>)
    ensures
        r == parse_u32_spec(w@),
{
    let n = w.unicode_len();
    let start: usize = if n > 0 && w.get_char(0) == '+' {
        1
    } else {
        0
    };
    if n == start {
        return Option::None;
    }

    let mut val: u32 = 0;
    let mut overflow = false;
    let mut i = start;
    while i < n
        invariant
            n == w@.len(),
            start <= i <= n,
            start == (if n > 0 && w@[0] == '+' {
                1int
            } else {
                0int
            }),
            forall|m: int| start <= m < i ==> is_dig(#[trigger] w@[m]),
            !overflow ==> val == digits_val(w@, start as int, i as int) && digits_val(
                w@,
                start as int,
                i as int,
            ) <= u32::MAX,
            overflow ==> digits_val(w@, start as int, i as int) > u32::MAX,
        decreases n - i,
    {
        let c = w.get_char(i);
        let ci = c as u32;
        if !(48 <= ci && ci <= 57) {
            return Option::None;
        }
        let d = ci - 48;
        proof {
            assert(digits_val(w@, start as int, i + 1) == digits_val(w@, start as int, i as int)
                * 10 + dig_val(w@[i as int]));
        }
        if !overflow && val <= (u32::MAX - d) / 10 {
            proof {
                assert(val * 10 + d <= u32::MAX) by (nonlinear_arith)
                    requires
                        val <= (u32::MAX - d) / 10,
                        d <= 9,
                ;
            }
            val = val * 10 + d;
        } else {
            proof {
                if !overflow {
                    assert(val * 10 + d > u32::MAX) by (nonlinear_arith)
                        requires
                            val > (u32::MAX - d) / 10,
                            d <= 9,
                    ;
                } else {
                    assert(digits_val(w@, start as int, i as int) * 10 + dig_val(w@[i as int])
                        > u32::MAX) by (nonlinear_arith)
                        requires
                            digits_val(w@, start as int, i as int) > u32::MAX,
                            dig_val(w@[i as int]) >= 0,
                    ;
                }
            }
            overflow = true;
        }
        i = i + 1;
    }

    if overflow {
        Option::None
    } else {
        Option::Some(val)
    }
}

/// Parse the characters in [lo, hi) as `u8::from_str` does.
fn parse_u8_range(cs: &Vec<char>, lo: usize, hi: usize) -> (r: Option<u8>)
    requires
        lo <= hi <= cs@.len(),
    ensures
        r == parse_u8_spec(cs@.subrange(lo as int, hi as int)),
{
    let ghost w = cs@.subrange(lo as int, hi as int);
    proof {
        if lo < hi {
            assert(w[0] == cs@[lo as int]);
        }
    }
    let start: usize = if hi > lo && cs[lo] == '+' {
        lo + 1
    } else {
        lo
    };
    if hi == start {
        return Option::None;
    }

    let mut val: u32 = 0;
    let mut overflow = false;
    let mut i = start;
    while i < hi
        invariant
            hi <= cs@.len(),
            lo <= start <= i <= hi,
            w == cs@.subrange(lo as int, hi as int),
            start - lo == (if w.len() > 0 && w[0] == '+' {
                1int
            } else {
                0int
            }),
            forall|m: int| start - lo <= m < i - lo ==> is_dig(#[trigger] w[m]),
            !overflow ==> val == digits_val(w, start - lo, i - lo) && digits_val(
                w,
                start - lo,
                i - lo,
            ) <= u8::MAX,
            overflow ==> digits_val(w, start - lo, i - lo) > u8::MAX,
        decreases hi - i,
    {
        let c = cs[i];
        let ci = c as u32;
        proof {
            assert(w[i - lo] == cs@[i as int]);
        }
        if !(48 <= ci && ci <= 57) {
            proof {
                assert(!is_dig(w[i - lo]));
                assert(exists|m: int|
                    start - lo <= m < w.len() && !is_dig(#[trigger] w[m]));
            }
            return Option::None;
        }
        let d = ci - 48;
        proof {
            assert(is_dig(w[i - lo]));
            assert(digits_val(w, start - lo, i + 1 - lo) == digits_val(w, start - lo, i - lo) * 10
                + dig_val(w[i - lo]));
        }
        if !overflow && val <= 255 && val * 10 + d <= 255 {
            val = val * 10 + d;
        } else {
            proof {
                if !overflow {
                    assert(digits_val(w, start - lo, i - lo) * 10 + dig_val(w[i - lo]) > u8::MAX);
                } else {
                    assert(digits_val(w, start - lo, i - lo) * 10 + dig_val(w[i - lo]) > u8::MAX)
                        by (nonlinear_arith)
                        requires
                            digits_val(w, start - lo, i - lo) > u8::MAX,
                            dig_val(w[i - lo]) >= 0,
                    ;
                }
            }
            overflow = true;
        }
        i = i + 1;
    }

    if overflow {
        Option::None
    } else {
        Option::Some(val as u8)
    }
}

/// `skip_paren` never runs backward nor past the end.
proof fn lemma_skip_paren_bounds(s: Seq<char>, i: int)
    requires
        0 <= i,
    ensures
        i <= skip_paren(s, i),
        i <= s.len() ==> skip_paren(s, i) <= s.len(),
    decreases s.len() - i,
{
    if i < s.len() && is_paren(s[i]) {
        lemma_skip_paren_bounds(s, i + 1);
    }
}

/// `paren_suffix_start` stays in range.
proof fn lemma_paren_suffix_bounds(s: Seq<char>, j: int)
    requires
        0 <= j <= s.len(),
    ensures
        0 <= paren_suffix_start(s, j) <= j,
    decreases j,
{
    if j > 0 && is_paren(s[j - 1]) {
        lemma_paren_suffix_bounds(s, j - 1);
    }
}

} // verus!
