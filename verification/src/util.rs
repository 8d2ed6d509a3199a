//! Editing helpers for the input line.

use vstd::prelude::*;

use crate::text::{
    chars_of, is_alphanumeric, is_whitespace, string_from_chars, unicode_alphanumeric,
    unicode_whitespace,
};

verus! {

/// The three kinds of characters that word deletion tells apart.
#[derive(PartialEq, Eq, Structural, Clone, Copy, Debug)]
pub enum CharKind {
    Whitespace,
    Keyword,
    Punctuation,
}

/// The kind of a character: whitespace first, then letters, digits and `_`,
/// then everything else.
pub open spec fn kind_of(c: char) -> CharKind {
    if unicode_whitespace(c) {
        CharKind::Whitespace
    } else if unicode_alphanumeric(c) || c == '_' {
        CharKind::Keyword
    } else {
        CharKind::Punctuation
    }
}

/// Classifies one character.
pub fn classify(c: char) -> (k: CharKind)
    ensures
        k == kind_of(c),
{
    if is_whitespace(c) {
        CharKind::Whitespace
    } else if is_alphanumeric(c) || c == '_' {
        CharKind::Keyword
    } else {
        CharKind::Punctuation
    }
}

/// What Ctrl-W leaves of `s`: the input without its maximal trailing run of
/// characters of the same kind as its last character.
pub open spec fn is_ctrl_w_result(s: Seq<char>, r: Seq<char>) -> bool {
    if s.len() == 0 {
        r.len() == 0
    } else {
        &&& r.len() < s.len()
        &&& r == s.take(r.len() as int)
        &&& forall|i: int| r.len() <= i < s.len() ==> #[trigger] kind_of(s[i]) == kind_of(s.last())
        &&& r.len() > 0 ==> kind_of(r.last()) != kind_of(s.last())
    }
}

/// Deletes the last word of the input line, as Ctrl-W does in a shell: the
/// trailing run of characters that share the kind of the last one.
pub fn ctrl_w_delete(input: &str) -> (r: String)
    ensures
        is_ctrl_w_result(input@, r@),
{
    let mut chars = chars_of(input);
    if chars.len() == 0 {
        return String::new();
    }
    let ghost s = chars@;
    let last_kind = classify(chars[chars.len() - 1]);
    while chars.len() > 0
        invariant
            chars@ == s.take(chars@.len() as int),
            chars@.len() < s.len() || chars@ == s,
            s.len() > 0,
            last_kind == kind_of(s.last()),
            forall|i: int| chars@.len() <= i < s.len() ==> #[trigger] kind_of(s[i]) == last_kind,
        ensures
            chars@ == s.take(chars@.len() as int),
            chars@.len() < s.len(),
            forall|i: int| chars@.len() <= i < s.len() ==> #[trigger] kind_of(s[i]) == last_kind,
            chars@.len() > 0 ==> kind_of(chars@.last()) != last_kind,
        decreases chars.len(),
    {
        let c = chars[chars.len() - 1];
        if classify(c) == last_kind {
            chars.pop();
        } else {
            break;
        }
    }
    string_from_chars(&chars)
}

} // verus!
