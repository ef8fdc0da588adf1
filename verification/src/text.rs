//! Text helpers: identifiers decoded from string literals, comparisons with
//! fixed words, and decimal numerals.

use vstd::prelude::*;
use vstd::utf8::{valid_utf8, decode_utf8, encode_utf8};
use vstd::string::*;

verus! {

broadcast use vstd::seq::group_seq_axioms;

/// Whether `c` has the Unicode `Alphabetic` property, as `char::is_alphabetic` says.
pub uninterp spec fn unicode_alphabetic(c: char) -> bool;

/// Whether `c` is alphabetic or numeric in Unicode's sense, as `char::is_alphanumeric` says.
pub uninterp spec fn unicode_alphanumeric(c: char) -> bool;

/// Calls `char::is_alphabetic`; its result is named `unicode_alphabetic(c)`
/// (the Unicode tables are not written out here).
#[verifier::external_body]
fn char_is_alphabetic(c: char) -> (r: bool)
    ensures
        r == unicode_alphabetic(c),
{
    c.is_alphabetic()
}

/// Calls `char::is_alphanumeric`; its result is named `unicode_alphanumeric(c)`
/// (the Unicode tables are not written out here).
#[verifier::external_body]
fn char_is_alphanumeric(c: char) -> (r: bool)
    ensures
        r == unicode_alphanumeric(c),
{
    c.is_alphanumeric()
}

/// Calls `std::str::from_utf8`: it succeeds exactly on valid UTF-8, and the
/// text it gives back holds the decoded characters.
#[verifier::external_body]
fn utf8_str(bytes: &[u8]) -> (r: Option<&str>)
    ensures
        match r {
            Some(s) => valid_utf8(bytes@) && s@ == decode_utf8(bytes@),
            None => !valid_utf8(bytes@),
        },
{
    std::str::from_utf8(bytes).ok()
}

/// A character that may stand in a name: alphanumeric or `_`.
pub open spec fn word_char(c: char) -> bool {
    unicode_alphanumeric(c) || c == '_'
}

/// Every character of `s` may stand in a name.
pub open spec fn all_word_chars(s: Seq<char>) -> bool {
    forall|i: int| 0 <= i < s.len() ==> #[trigger] word_char(s[i])
}

/// The UTF-8 text of `bytes`, if `bytes` are valid UTF-8.
pub open spec fn utf8_text(bytes: Seq<u8>) -> Option<Seq<char>> {
    if valid_utf8(bytes) {
        Some(decode_utf8(bytes))
    } else {
        None
    }
}

/// The name that the bytes of a string literal spell: their UTF-8 text when it
/// is non-empty and made of alphanumeric characters and `_` only.
pub open spec fn identifier(bytes: Seq<u8>) -> Option<Seq<char>> {
    match utf8_text(bytes) {
        Some(s) => if s.len() > 0 && all_word_chars(s) {
            Some(s)
        } else {
            None
        },
        None => None,
    }
}

/// An optional `String` by its characters.
pub open spec fn opt_text(o: Option<String>) -> Option<Seq<char>> {
    match o {
        Some(s) => Some(s@),
        None => None,
    }
}

/// Whether every character of `s` may stand in a name.
fn word_chars_only(s: &str) -> (r: bool)
    ensures
        r == all_word_chars(s@),
{
    let n = s.unicode_len();
    let mut i: usize = 0;
    while i < n
        invariant
            n == s@.len(),
            i <= n,
            forall|j: int| 0 <= j < i ==> #[trigger] word_char(s@[j]),
        decreases n - i,
    {
        let c = s.get_char(i);
        if !(char_is_alphanumeric(c) || c == '_') {
            assert(!word_char(s@[i as int]));
            return false;
        }
        i = i + 1;
    }
    true
}

/// The UTF-8 text of `bytes` as a `String`, if `bytes` are valid UTF-8.
pub fn utf8_string(bytes: &[u8]) -> (r: Option<String>)
    ensures
        opt_text(r) == utf8_text(bytes@),
{
    match utf8_str(bytes) {
        Some(s) => Some(s.to_owned()),
        None => None,
    }
}

/// The name that the bytes of a string literal spell, if they spell one.
pub fn identifier_from_bytes(bytes: &[u8]) -> (r: Option<String>)
    ensures
        opt_text(r) == identifier(bytes@),
{
    match utf8_str(bytes) {
        Some(s) => {
            if !s.is_empty() && word_chars_only(s) {
                Some(s.to_owned())
            } else {
                None
            }
        },
        None => None,
    }
}

/// Whether the first character of a non-empty name is alphabetic or `_`.
pub open spec fn leading_char_ok(s: Seq<char>) -> bool {
    s.len() > 0 && (unicode_alphabetic(s[0]) || s[0] == '_')
}

/// Whether the first character of `s` is alphabetic or `_`.
pub fn starts_like_name(s: &String) -> (r: bool)
    ensures
        r == leading_char_ok(s@),
{
    let t = s.as_str();
    if t.is_empty() {
        false
    } else {
        let c = t.get_char(0);
        char_is_alphabetic(c) || c == '_'
    }
}

/// Whether two byte strings are equal.
pub fn bytes_equal(a: &[u8], b: &[u8]) -> (r: bool)
    ensures
        r == (a@ == b@),
{
    if a.len() != b.len() {
        return false;
    }
    let n = a.len();
    let mut i: usize = 0;
    while i < n
        invariant
            n == a@.len(),
            n == b@.len(),
            i <= n,
            forall|j: int| 0 <= j < i ==> a@[j] == b@[j],
        decreases n - i,
    {
        if a[i] != b[i] {
            return false;
        }
        i = i + 1;
    }
    assert(a@ =~= b@);
    true
}

/// Whether the bytes `a` are the UTF-8 encoding of the word `w`.
pub fn bytes_are_word(a: &[u8], w: &str) -> (r: bool)
    ensures
        r == (a@ == encode_utf8(w@)),
{
    bytes_equal(a, w.as_bytes())
}

/// Whether the text `s` is the word `w`.
pub fn text_is(s: &String, w: &str) -> (r: bool)
    ensures
        r == (s@ == w@),
{
    let owned: String = w.to_owned();
    *s == owned
}

/// The character of a decimal digit.
pub open spec fn digit_char(d: nat) -> char {
    if d == 0 {
        '0'
    } else if d == 1 {
        '1'
    } else if d == 2 {
        '2'
    } else if d == 3 {
        '3'
    } else if d == 4 {
        '4'
    } else if d == 5 {
        '5'
    } else if d == 6 {
        '6'
    } else if d == 7 {
        '7'
    } else if d == 8 {
        '8'
    } else {
        '9'
    }
}

/// The decimal numeral of `n`, without leading zeros.
pub open spec fn decimal(n: nat) -> Seq<char>
    decreases n,
{
    if n < 10 {
        seq![digit_char(n)]
    } else {
        decimal(n / 10).push(digit_char(n % 10))
    }
}

/// Appends the digit `d` to `s`.
fn push_digit(s: &mut String, d: usize)
    requires
        d < 10,
    ensures
        final(s)@ == old(s)@.push(digit_char(d as nat)),
{
    if d == 0 {
        proof { reveal_strlit("0"); }
        s.append("0");
    } else if d == 1 {
        proof { reveal_strlit("1"); }
        s.append("1");
    } else if d == 2 {
        proof { reveal_strlit("2"); }
        s.append("2");
    } else if d == 3 {
        proof { reveal_strlit("3"); }
        s.append("3");
    } else if d == 4 {
        proof { reveal_strlit("4"); }
        s.append("4");
    } else if d == 5 {
        proof { reveal_strlit("5"); }
        s.append("5");
    } else if d == 6 {
        proof { reveal_strlit("6"); }
        s.append("6");
    } else if d == 7 {
        proof { reveal_strlit("7"); }
        s.append("7");
    } else if d == 8 {
        proof { reveal_strlit("8"); }
        s.append("8");
    } else {
        proof { reveal_strlit("9"); }
        s.append("9");
    }
}

/// Appends the decimal numeral of `n` to `s`.
pub fn push_decimal(s: &mut String, n: usize)
    ensures
        final(s)@ == old(s)@ + decimal(n as nat),
    decreases n,
{
    if n < 10 {
        push_digit(s, n);
        assert(old(s)@.push(digit_char(n as nat)) =~= old(s)@ + decimal(n as nat));
    } else {
        push_decimal(s, n / 10);
        push_digit(s, n % 10);
        assert(s@ =~= old(s)@ + decimal(n as nat));
    }
}

} // verus!
