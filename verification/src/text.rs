//! Small string and character primitives shared by the rest of the crate.

use vstd::prelude::*;

verus! {

/// Whether `c` has the Unicode `White_Space` property (what `char::is_whitespace` decides).
pub uninterp spec fn unicode_whitespace(c: char) -> bool;

/// Whether `c` is alphabetic or numeric in Unicode (what `char::is_alphanumeric` decides).
pub uninterp spec fn unicode_alphanumeric(c: char) -> bool;

/// Calls `char::is_whitespace`; its result is named `unicode_whitespace`.
#[verifier::external_body]
pub(crate) fn is_whitespace(c: char) -> (r: bool)
    ensures
        r == unicode_whitespace(c),
{
    c.is_whitespace()
}

/// Calls `char::is_alphanumeric`; its result is named `unicode_alphanumeric`.
#[verifier::external_body]
pub(crate) fn is_alphanumeric(c: char) -> (r: bool)
    ensures
        r == unicode_alphanumeric(c),
{
    c.is_alphanumeric()
}

/// The display width, in terminal columns, that `ansi_width` gives `s`:
/// escape sequences count for nothing, other characters for their Unicode width.
pub uninterp spec fn ansi_width_spec(s: Seq<char>) -> nat;

/// Calls `ansi_width::ansi_width`; the result is named `ansi_width_spec`.
/// Claimed too, from its source: each character adds at most 3 columns (the
/// widest entry of the Unicode width table it consults).
#[verifier::external_body]
pub(crate) fn display_width(s: &str) -> (r: usize)
    ensures
        r == ansi_width_spec(s@),
        r <= 3 * s@.len(),
{
    ansi_width::ansi_width(s)
}

/// The lines of `s` as `str::lines` splits them: at `\n` or `\r\n`, without
/// the terminators, with no empty line after a final terminator.
pub uninterp spec fn text_lines_spec(s: Seq<char>) -> Seq<Seq<char>>;

/// Calls `str::lines` and collects the lines; the result is named
/// `text_lines_spec`.
#[verifier::external_body]
pub(crate) fn text_lines(s: &str) -> (r: Vec<String>)
    ensures
        r@.len() == text_lines_spec(s@).len(),
        forall|i: int| 0 <= i < r@.len() ==> #[trigger] r@[i]@ == text_lines_spec(s@)[i],
{
    s.lines().map(|l| l.to_string()).collect()
}

/// Compares two strings with `==` on `str`: equal exactly when they hold
/// the same characters.
#[verifier::external_body]
pub(crate) fn str_eq(a: &str, b: &str) -> (r: bool)
    ensures
        r == (a@ == b@),
{
    a == b
}

/// Calls `String::pop`, which removes the last character, if any.
#[verifier::external_body]
pub(crate) fn pop_char(s: &mut String)
    ensures
        old(s)@.len() == 0 ==> final(s)@ == old(s)@,
        old(s)@.len() > 0 ==> final(s)@ == old(s)@.drop_last(),
{
    s.pop();
}

/// Whether `r` is `s` without its leading and trailing whitespace.
pub open spec fn is_trimmed(s: Seq<char>, r: Seq<char>) -> bool {
    exists|i: int, j: int|
        #![trigger s.subrange(i, j)]
        {
            &&& 0 <= i <= j <= s.len()
            &&& r == s.subrange(i, j)
            &&& forall|k: int| 0 <= k < i ==> unicode_whitespace(#[trigger] s[k])
            &&& forall|k: int| j <= k < s.len() ==> unicode_whitespace(#[trigger] s[k])
            &&& i < j ==> !unicode_whitespace(s[i]) && !unicode_whitespace(s[j - 1])
        }
}

/// Calls `str::trim`, which removes leading and trailing characters with the
/// Unicode `White_Space` property (those `char::is_whitespace` accepts).
#[verifier::external_body]
pub(crate) fn trim(s: &str) -> (r: &str)
    ensures
        is_trimmed(s@, r@),
{
    s.trim()
}

/// Whether `s` begins with `prefix`.
pub fn starts_with(s: &str, prefix: &str) -> (r: bool)
    ensures
        r == (prefix@.len() <= s@.len() && s@.take(prefix@.len() as int) == prefix@),
{
    let a = chars_of(s);
    let b = chars_of(prefix);
    if b.len() > a.len() {
        return false;
    }
    let n = b.len();
    let mut i: usize = 0;
    while i < n
        invariant
            a@ == s@,
            b@ == prefix@,
            n == b@.len(),
            n <= a@.len(),
            i <= n,
            forall|k: int| 0 <= k < i ==> a@[k] == b@[k],
        decreases n - i,
    {
        if a[i] != b[i] {
            assert(s@.take(n as int)[i as int] != prefix@[i as int]);
            return false;
        }
        i = i + 1;
    }
    assert(s@.take(n as int) =~= prefix@);
    true
}

/// Calls `String::push`, which appends one character.
#[verifier::external_body]
pub(crate) fn push_char(s: &mut String, c: char)
    ensures
        final(s)@ == old(s)@.push(c),
{
    s.push(c);
}

/// Calls `String::push_str`, which appends a string.
#[verifier::external_body]
pub(crate) fn push_str(s: &mut String, t: &str)
    ensures
        final(s)@ == old(s)@ + t@,
{
    s.push_str(t);
}

/// The characters of `s`, in order.
pub fn chars_of(s: &str) -> (r: Vec<char>)
    ensures
        r@ == s@,
{
    let mut out: Vec<char> = Vec::new();
    for c in it: s.chars()
        invariant
            out@ == it.seq().take(it.index()),
    {
        out.push(c);
    }
    out
}

/// The string made of the characters of `cs`.
pub fn string_from_chars(cs: &Vec<char>) -> (r: String)
    ensures
        r@ == cs@,
{
    let mut out = String::new();
    let n = cs.len();
    let mut i: usize = 0;
    while i < n
        invariant
            n == cs@.len(),
            i <= n,
            out@ == cs@.take(i as int),
        decreases n - i,
    {
        push_char(&mut out, cs[i]);
        proof {
            assert(cs@.take(i + 1) == cs@.take(i as int).push(cs@[i as int]));
        }
        i = i + 1;
    }
    proof {
        assert(cs@.take(n as int) == cs@);
    }
    out
}

} // verus!
