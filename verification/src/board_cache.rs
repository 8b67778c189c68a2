use vstd::prelude::*;

use crate::piece::Color;
use crate::position::Position;

verus! {

/// One remembered legal-move list: the origin square, the moving color, and
/// the destinations that were computed for them.
type LegalEntry = (Position, Color, Vec<Position>);

/// The list of destinations remembered for `key` in `s`, if any.
pub open spec fn legal_lookup(s: Seq<LegalEntry>, pos: Position, color: Color) -> Option<
    Seq<Position>,
>
    decreases s.len(),
{
    if s.len() == 0 {
        Option::None
    } else if s[0].0 == pos && s[0].1 == color {
        Option::Some(s[0].2@)
    } else {
        legal_lookup(s.drop_first(), pos, color)
    }
}

/// A transient memoization layer: legal-move lists keyed by origin and color,
/// a check-status flag per color, and the current hash. Every entry is wiped
/// by `clear` whenever the board mutates.
#[derive(Debug)]
pub struct BoardCache {
    legal_moves: Vec<LegalEntry>,
    red_check: Option<bool>,
    black_check: Option<bool>,
    neutral_check: Option<bool>,
    current_hash: Option<u64>,
}

impl BoardCache {
    /// Keys appear at most once in the legal-move list.
    pub closed spec fn wf(self) -> bool {
        forall|i: int, j: int|
            0 <= i < j < self.legal_moves@.len() ==> !(self.legal_moves@[i].0
                == self.legal_moves@[j].0 && self.legal_moves@[i].1 == self.legal_moves@[j].1)
    }

    /// The legal-move list remembered for an origin and color, if any.
    pub closed spec fn spec_legal(self, pos: Position, color: Color) -> Option<Seq<Position>> {
        legal_lookup(self.legal_moves@, pos, color)
    }

    /// True iff no legal-move list is remembered at all.
    pub closed spec fn legal_is_empty(self) -> bool {
        self.legal_moves@.len() == 0
    }

    /// The remembered check status of a color, if any.
    pub closed spec fn spec_check_status(self, color: Color) -> Option<bool> {
        match color {
            Color::Red => self.red_check,
            Color::Black => self.black_check,
            Color::Neutral => self.neutral_check,
        }
    }

    /// The remembered hash, if any.
    pub closed spec fn spec_hash(self) -> Option<u64> {
        self.current_hash
    }

    /// True iff the cache holds nothing but (possibly) a remembered hash.
    pub open spec fn all_clear_but_hash(self) -> bool {
        self.legal_is_empty() && self.spec_check_status(Color::Red) is None
            && self.spec_check_status(Color::Black) is None && self.spec_check_status(
            Color::Neutral,
        ) is None
    }

    pub fn new() -> (r: Self)
        ensures
            r.wf(),
            r.all_clear_but_hash(),
            r.spec_hash() is None,
            forall|p: Position, c: Color| r.spec_legal(p, c) is None,
    {
        let cache = BoardCache {
            legal_moves: Vec::new(),
            red_check: Option::None,
            black_check: Option::None,
            neutral_check: Option::None,
            current_hash: Option::None,
        };
        proof {
            assert forall|p: Position, c: Color| cache.spec_legal(p, c) is None by {}
        }
        cache
    }

    /// Remember `moves` as the legal destinations from `from_pos` for `color`,
    /// replacing any list remembered for that key before.
    pub fn cache_legal_moves(&mut self, from_pos: Position, color: Color, moves: Vec<Position>)
        requires
            old(self).wf(),
        ensures
            final(self).wf(),
            final(self).spec_legal(from_pos, color) == Option::Some(moves@),
            forall|p: Position, c: Color|
                !(p == from_pos && c == color) ==> final(self).spec_legal(p, c) == old(
                    self,
                ).spec_legal(p, c),
            forall|c: Color| final(self).spec_check_status(c) == old(self).spec_check_status(c),
            final(self).spec_hash() == old(self).spec_hash(),
    {
        let ghost orig = old(self).legal_moves@;
        let ghost origs = *old(self);
        let n = self.legal_moves.len();
        let mut i: usize = 0;
        while i < n
            invariant
                n == self.legal_moves.len(),
                i <= n,
                origs == *old(self),
                origs.wf(),
                orig == origs.legal_moves@,
                self.legal_moves@ == orig,
                self.red_check == origs.red_check,
                self.black_check == origs.black_check,
                self.neutral_check == origs.neutral_check,
                self.current_hash == origs.current_hash,
                forall|m: int| 0 <= m < i ==> !(orig[m].0 == from_pos && orig[m].1 == color),
            decreases n - i,
        {
            let hit = {
                let e = &self.legal_moves[i];
                let same_pos = e.0 == from_pos;
                let same_color = match (e.1, color) {
                    (Color::Red, Color::Red) => true,
                    (Color::Black, Color::Black) => true,
                    (Color::Neutral, Color::Neutral) => true,
                    _ => false,
                };
                same_pos && same_color
            };
            if hit {
                self.legal_moves.set(i, (from_pos, color, moves));
                proof {
                    assert(origs.wf());
                    assert(orig == origs.legal_moves@);
                    assert(orig[i as int].0 == from_pos && orig[i as int].1 == color);
                    assert(self.legal_moves@[i as int].0 == from_pos && self.legal_moves@[
                        i as int
                    ].1 == color);
                    assert(forall|m: int|
                        0 <= m < n && m != i ==> self.legal_moves@[m] == orig[m]);
                    assert forall|a: int, b: int| 0 <= a < b < n implies !(self.legal_moves@[a].0
                        == self.legal_moves@[b].0 && self.legal_moves@[a].1
                        == self.legal_moves@[b].1) by {
                        assert(!(origs.legal_moves@[a].0 == origs.legal_moves@[b].0
                            && origs.legal_moves@[a].1 == origs.legal_moves@[b].1));
                    }
                    lemma_legal_lookup_first_match(self.legal_moves@, from_pos, color, i as int);
                    assert forall|p: Position, c: Color| !(p == from_pos && c == color) implies
                        legal_lookup(self.legal_moves@, p, c) == legal_lookup(orig, p, c) by {
                        lemma_legal_lookup_update_other(orig, self.legal_moves@, i as int, p, c);
                    }
                }
                return ;
            }
            i = i + 1;
        }
        self.legal_moves.push((from_pos, color, moves));
        proof {
            lemma_legal_lookup_first_match(self.legal_moves@, from_pos, color, n as int);
            assert forall|p: Position, c: Color| !(p == from_pos && c == color) implies
                legal_lookup(self.legal_moves@, p, c) == legal_lookup(orig, p, c) by {
                lemma_legal_lookup_push_other(orig, (from_pos, color, moves), p, c);
            }
        }
    }

    /// The legal destinations remembered for `from` and `color`, if any.
    pub fn get_cached_legal_moves(&self, from: Position, color: Color) -> (r: Option<
        &Vec<Position>,
    >)
        ensures
            match r {
                Option::Some(v) => self.spec_legal(from, color) == Option::Some(v@),
                Option::None => self.spec_legal(from, color) is None,
            },
    {
        let n = self.legal_moves.len();
        let mut i: usize = 0;
        while i < n
            invariant
                n == self.legal_moves.len(),
                i <= n,
                forall|m: int|
                    0 <= m < i ==> !(self.legal_moves@[m].0 == from && self.legal_moves@[m].1
                        == color),
            decreases n - i,
        {
            let e = &self.legal_moves[i];
            let same_pos = e.0 == from;
            let same_color = match (e.1, color) {
                (Color::Red, Color::Red) => true,
                (Color::Black, Color::Black) => true,
                (Color::Neutral, Color::Neutral) => true,
                _ => false,
            };
            if same_pos && same_color {
                proof {
                    lemma_legal_lookup_first_match(self.legal_moves@, from, color, i as int);
                }
                return Option::Some(&self.legal_moves[i].2);
            }
            i = i + 1;
        }
        proof {
            lemma_legal_lookup_no_match(self.legal_moves@, from, color);
        }
        Option::None
    }

    /// Remember the check status of `color`.
    pub fn cache_check_status(&mut self, color: Color, status: bool)
        requires
            old(self).wf(),
        ensures
            final(self).wf(),
            final(self).spec_check_status(color) == Option::Some(status),
            forall|c: Color|
                c != color ==> final(self).spec_check_status(c) == old(self).spec_check_status(c),
            forall|p: Position, c: Color|
                final(self).spec_legal(p, c) == old(self).spec_legal(p, c),
            final(self).legal_is_empty() == old(self).legal_is_empty(),
            final(self).spec_hash() == old(self).spec_hash(),
    {
        match color {
            Color::Red => self.red_check = Option::Some(status),
            Color::Black => self.black_check = Option::Some(status),
            Color::Neutral => self.neutral_check = Option::Some(status),
        }
    }

    /// The remembered check status of `color`, if any.
    pub fn get_cached_check_status(&self, color: Color) -> (r: Option<bool>)
        ensures
            r == self.spec_check_status(color),
    {
        match color {
            Color::Red => self.red_check,
            Color::Black => self.black_check,
            Color::Neutral => self.neutral_check,
        }
    }

    /// Remember the current hash.
    pub fn cache_hash(&mut self, hash: u64)
        requires
            old(self).wf(),
        ensures
            final(self).wf(),
            final(self).spec_hash() == Option::Some(hash),
            forall|c: Color| final(self).spec_check_status(c) == old(self).spec_check_status(c),
            forall|p: Position, c: Color|
                final(self).spec_legal(p, c) == old(self).spec_legal(p, c),
            final(self).legal_is_empty() == old(self).legal_is_empty(),
    {
        self.current_hash = Option::Some(hash)
    }

    /// The remembered hash, if any.
    pub fn get_cached_hash(&self) -> (r: Option<u64>)
        ensures
            r == self.spec_hash(),
    {
        self.current_hash
    }

    /// Forget everything at once: afterwards every legal-move lookup, every
    /// check-status lookup and the hash lookup come back empty.
    pub fn clear(&mut self)
        ensures
            final(self).wf(),
            final(self).all_clear_but_hash(),
            final(self).spec_hash() is None,
            forall|p: Position, c: Color| final(self).spec_legal(p, c) is None,
    {
        self.legal_moves = Vec::new();
        self.red_check = Option::None;
        self.black_check = Option::None;
        self.neutral_check = Option::None;
        self.current_hash = Option::None;
        proof {
            let cur = *self;
            assert forall|p: Position, c: Color| cur.spec_legal(p, c) is None by {}
        }
    }
}

impl Clone for BoardCache {
    /// A cache remembering the same statuses and hash, with the same keys.
    fn clone(&self) -> (r: Self)
        ensures
            self.wf() ==> r.wf(),
            r.legal_is_empty() == self.legal_is_empty(),
            forall|c: Color| r.spec_check_status(c) == self.spec_check_status(c),
            r.spec_hash() == self.spec_hash(),
    {
        let n = self.legal_moves.len();
        let mut legal: Vec<LegalEntry> = Vec::new();
        let mut i: usize = 0;
        while i < n
            invariant
                n == self.legal_moves.len(),
                i <= n,
                legal@.len() == i,
                forall|m: int|
                    0 <= m < i ==> legal@[m].0 == self.legal_moves@[m].0 && legal@[m].1
                        == self.legal_moves@[m].1,
            decreases n - i,
        {
            let e = &self.legal_moves[i];
            let moves = crate::vec_util::copy_vec(&e.2);
            legal.push((e.0, e.1, moves));
            i = i + 1;
        }
        proof {
            if self.wf() {
                assert forall|a: int, b: int| 0 <= a < b < legal@.len() implies !(legal@[a].0
                    == legal@[b].0 && legal@[a].1 == legal@[b].1) by {
                    assert(!(self.legal_moves@[a].0 == self.legal_moves@[b].0
                        && self.legal_moves@[a].1 == self.legal_moves@[b].1));
                }
            }
        }
        BoardCache {
            legal_moves: legal,
            red_check: self.red_check,
            black_check: self.black_check,
            neutral_check: self.neutral_check,
            current_hash: self.current_hash,
        }
    }
}

/// If nothing before `i` matches and entry `i` does, the lookup returns entry `i`'s list.
proof fn lemma_legal_lookup_first_match(s: Seq<LegalEntry>, pos: Position, color: Color, i: int)
    requires
        0 <= i < s.len(),
        s[i].0 == pos && s[i].1 == color,
        forall|m: int| 0 <= m < i ==> !(s[m].0 == pos && s[m].1 == color),
    ensures
        legal_lookup(s, pos, color) == Option::Some(s[i].2@),
    decreases i,
{
    if i == 0 {
    } else {
        assert(s.drop_first()[i - 1] == s[i]);
        assert(forall|m: int| 0 <= m < i - 1 ==> s.drop_first()[m] == s[m + 1]);
        lemma_legal_lookup_first_match(s.drop_first(), pos, color, i - 1);
    }
}

/// If no entry matches, the lookup comes back empty.
proof fn lemma_legal_lookup_no_match(s: Seq<LegalEntry>, pos: Position, color: Color)
    requires
        forall|m: int| 0 <= m < s.len() ==> !(s[m].0 == pos && s[m].1 == color),
    ensures
        legal_lookup(s, pos, color) is None,
    decreases s.len(),
{
    if s.len() == 0 {
    } else {
        assert(forall|m: int| 0 <= m < s.len() - 1 ==> s.drop_first()[m] == s[m + 1]);
        lemma_legal_lookup_no_match(s.drop_first(), pos, color);
    }
}

/// Replacing the entry at `i` leaves every other key's lookup unchanged.
proof fn lemma_legal_lookup_update_other(
    s1: Seq<LegalEntry>,
    s2: Seq<LegalEntry>,
    i: int,
    pos: Position,
    color: Color,
)
    requires
        0 <= i < s1.len(),
        s2.len() == s1.len(),
        forall|m: int| 0 <= m < s1.len() && m != i ==> s2[m] == s1[m],
        !(s1[i].0 == pos && s1[i].1 == color),
        !(s2[i].0 == pos && s2[i].1 == color),
    ensures
        legal_lookup(s2, pos, color) == legal_lookup(s1, pos, color),
    decreases s1.len(),
{
    if s1.len() == 0 {
    } else if i == 0 {
        assert(s1.drop_first() =~= s2.drop_first());
    } else {
        assert(s2[0] == s1[0]);
        if s1[0].0 == pos && s1[0].1 == color {
        } else {
            assert(forall|m: int|
                0 <= m < s1.len() - 1 && m != i - 1 ==> s2.drop_first()[m] == s1.drop_first()[m]);
            assert(s1.drop_first()[i - 1] == s1[i]);
            assert(s2.drop_first()[i - 1] == s2[i]);
            lemma_legal_lookup_update_other(s1.drop_first(), s2.drop_first(), i - 1, pos, color);
        }
    }
}

/// Appending an entry with a different key leaves a key's lookup unchanged.
proof fn lemma_legal_lookup_push_other(
    s: Seq<LegalEntry>,
    e: LegalEntry,
    pos: Position,
    color: Color,
)
    requires
        !(e.0 == pos && e.1 == color),
    ensures
        legal_lookup(s.push(e), pos, color) == legal_lookup(s, pos, color),
    decreases s.len(),
{
    if s.len() == 0 {
        assert(s.push(e)[0] == e);
        assert(s.push(e).drop_first() =~= Seq::<LegalEntry>::empty());
        assert(legal_lookup(s.push(e).drop_first(), pos, color) is None);
    } else {
        assert(s.push(e)[0] == s[0]);
        if s[0].0 == pos && s[0].1 == color {
            assert(legal_lookup(s.push(e), pos, color) == Option::Some(s.push(e)[0].2@));
        } else {
            assert(s.push(e).drop_first() =~= s.drop_first().push(e));
            lemma_legal_lookup_push_other(s.drop_first(), e, pos, color);
        }
    }
}

} // verus!
