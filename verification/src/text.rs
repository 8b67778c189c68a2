use vstd::prelude::*;

verus! {

/// Whether a character has the Unicode White_Space property; said only by
/// `char::is_whitespace`.
pub uninterp spec fn is_unicode_space(c: char) -> bool;

/// Whether a character is Unicode alphanumeric; said only by
/// `char::is_alphanumeric`.
pub uninterp spec fn is_unicode_alnum(c: char) -> bool;

/// The Unicode uppercase form of a string; said only by `str::to_uppercase`.
pub uninterp spec fn upper_of(s: Seq<char>) -> Seq<char>;

/// Relies on char::is_whitespace: true exactly for the White_Space
/// characters, a fixed set that contains the ASCII blank, tab and line
/// breaks and no ASCII letter, digit or NUL.
#[verifier::external_body]
pub fn is_space(c: char) -> (r: bool)
    ensures
        r == is_unicode_space(c),
        c == ' ' || c == '\t' || c == '\n' || c == '\r' ==> r,
        c == '\0' || is_ascii_alnum(c) ==> !r,
{
    c.is_whitespace()
}

/// Relies on char::is_alphanumeric: true exactly for Unicode letters and
/// numbers, among them every ASCII letter and digit, and false for NUL,
/// blanks and ASCII punctuation.
#[verifier::external_body]
pub fn is_alnum(c: char) -> (r: bool)
    ensures
        r == is_unicode_alnum(c),
        is_ascii_alnum(c) ==> r,
        c == '\0' || c == ' ' || c == '(' || c == ')' || c == ',' ==> !r,
{
    c.is_alphanumeric()
}

/// Relies on str::to_uppercase: the result is a function of the characters
/// alone; an empty string stays empty.
#[verifier::external_body]
pub fn to_upper(s: &str) -> (r: String)
    ensures
        r@ == upper_of(s@),
        s@.len() == 0 ==> r@.len() == 0,
{
    s.to_uppercase()
}

/// Relies on Iterator::collect for String: the characters are joined in
/// order into one string.
#[verifier::external_body]
pub fn chars_to_string(v: &Vec<char>) -> (r: String)
    ensures
        r@ == v@,
{
    v.iter().collect()
}

/// An ASCII letter or digit.
pub open spec fn is_ascii_alnum(c: char) -> bool {
    is_ascii_letter(c) || is_dig(c)
}

/// An ASCII decimal digit.
pub open spec fn is_dig(c: char) -> bool {
    48 <= c as u32 && c as u32 <= 57
}

/// The value of one decimal digit.
pub open spec fn dig_val(c: char) -> int {
    c as u32 - 48
}

/// An ASCII letter, lower or upper case.
pub open spec fn is_ascii_letter(c: char) -> bool {
    (97 <= c as u32 && c as u32 <= 122) || (65 <= c as u32 && c as u32 <= 90)
}

/// The collected characters of a string.
pub fn str_to_chars(s: &str) -> (r: Vec<char>)
    ensures
        r@ == s@,
{
    let n = s.unicode_len();
    let mut r: Vec<char> = Vec::new();
    let mut i: usize = 0;
    while i < n
        invariant
            n == s@.len(),
            i <= n,
            r@.len() == i,
            forall|m: int| 0 <= m < i ==> r@[m] == s@[m],
        decreases n - i,
    {
        r.push(s.get_char(i));
        i = i + 1;
    }
    proof {
        assert(r@ =~= s@);
    }
    r
}

} // verus!
