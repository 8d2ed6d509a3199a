//! ANSI SGR styling of terminal text, written exactly as the `owo-colors`
//! styles write it: a foreground colour (`yellow()` and its kin) wraps the
//! text in its colour sequence and the default-foreground reset; a
//! foreground and a background together (`black().on_yellow()`) use one
//! combined sequence and a full reset; bold wraps in `ESC [1m` and a full
//! reset. The chat lines of the client are styled by `crossterm` instead.

use vstd::prelude::*;

use crossterm::style::Stylize;

use crate::text::{chars_of, push_char, push_str};

verus! {

/// The escape sequence `ESC [ code m`.
pub open spec fn sgr(code: Seq<char>) -> Seq<char> {
    seq!['\x1b', '['] + code + seq!['m']
}

/// `text` in the foreground colour `code`, then the default foreground.
pub open spec fn fg_spec(code: Seq<char>, text: Seq<char>) -> Seq<char> {
    sgr(code) + text + sgr(seq!['3', '9'])
}

/// `text` in bold, then a reset of all attributes.
pub open spec fn bold_spec(text: Seq<char>) -> Seq<char> {
    sgr(seq!['1']) + text + sgr(seq!['0'])
}

/// Appends `ESC [ code m`.
fn push_sgr(out: &mut String, code: &str)
    ensures
        final(out)@ == old(out)@ + sgr(code@),
{
    push_char(out, '\x1b');
    push_char(out, '[');
    push_str(out, code);
    push_char(out, 'm');
    assert(final(out)@ =~= old(out)@ + sgr(code@));
}

/// Appends the two-character reset `ESC [ a b m`.
fn push_reset2(out: &mut String, a: char, b: char)
    ensures
        final(out)@ == old(out)@ + sgr(seq![a, b]),
{
    push_char(out, '\x1b');
    push_char(out, '[');
    push_char(out, a);
    push_char(out, b);
    push_char(out, 'm');
    assert(final(out)@ =~= old(out)@ + sgr(seq![a, b]));
}

/// `text` in the foreground colour with SGR code `code` (`30` black, `31`
/// red, `33` yellow, `37` white).
pub fn fg(code: &str, text: &str) -> (r: String)
    ensures
        r@ == fg_spec(code@, text@),
{
    let mut out = String::new();
    push_sgr(&mut out, code);
    push_str(&mut out, text);
    push_reset2(&mut out, '3', '9');
    assert(out@ =~= fg_spec(code@, text@));
    out
}

/// `text` in bold.
pub fn bold(text: &str) -> (r: String)
    ensures
        r@ == bold_spec(text@),
{
    let mut out = String::new();
    push_char(&mut out, '\x1b');
    push_char(&mut out, '[');
    push_char(&mut out, '1');
    push_char(&mut out, 'm');
    push_str(&mut out, text);
    push_char(&mut out, '\x1b');
    push_char(&mut out, '[');
    push_char(&mut out, '0');
    push_char(&mut out, 'm');
    assert(out@ =~= bold_spec(text@));
    out
}

/// `text` in foreground `fg_code` on background `bg_code`, set by one
/// sequence `ESC [ fg ; bg m`, then a reset of all attributes.
pub open spec fn combo_spec(fg_code: Seq<char>, bg_code: Seq<char>, text: Seq<char>) -> Seq<char> {
    sgr(fg_code + seq![';'] + bg_code) + text + sgr(seq!['0'])
}

/// `text` in a foreground colour on a background colour.
pub fn combo(fg_code: &str, bg_code: &str, text: &str) -> (r: String)
    ensures
        r@ == combo_spec(fg_code@, bg_code@, text@),
{
    let mut out = String::new();
    push_char(&mut out, '\x1b');
    push_char(&mut out, '[');
    push_str(&mut out, fg_code);
    push_char(&mut out, ';');
    push_str(&mut out, bg_code);
    push_char(&mut out, 'm');
    push_str(&mut out, text);
    push_char(&mut out, '\x1b');
    push_char(&mut out, '[');
    push_char(&mut out, '0');
    push_char(&mut out, 'm');
    assert(out@ =~= combo_spec(fg_code@, bg_code@, text@));
    out
}

/// A badge: `text` in bold, in foreground `fg_code` on background `bg_code`.
pub open spec fn badge_spec(fg_code: Seq<char>, bg_code: Seq<char>, text: Seq<char>) -> Seq<char> {
    bold_spec(combo_spec(fg_code, bg_code, text))
}

/// Styles `text` as a badge: foreground on background, then bold.
pub fn badge(fg_code: &str, bg_code: &str, text: &str) -> (r: String)
    ensures
        r@ == badge_spec(fg_code@, bg_code@, text@),
{
    let c = combo(fg_code, bg_code, text);
    bold(c.as_str())
}

/// `text` in bold yellow, the highlight used for names, ids and keys.
pub open spec fn highlight_spec(text: Seq<char>) -> Seq<char> {
    bold_spec(fg_spec(seq!['3', '3'], text))
}

/// Highlights `text`: yellow, then bold.
pub fn highlight(text: &str) -> (r: String)
    ensures
        r@ == highlight_spec(text@),
{
    proof {
        reveal_strlit("33");
    }
    let f = fg("33", text);
    bold(f.as_str())
}

/// `text` in yellow and bold as `crossterm` writes it: the foreground
/// sequence (`ESC [38;5;11m`, or `ESC [m` when colours are switched off),
/// `ESC [1m`, the text, and a full reset.
pub open spec fn styled_highlight(colored: bool, text: Seq<char>) -> Seq<char> {
    let colour = if colored { seq!['3', '8', ';', '5', ';', '1', '1'] } else { Seq::<char>::empty() };
    sgr(colour) + sgr(seq!['1']) + text + sgr(seq!['0'])
}

/// `r` is what `crossterm`'s yellow bold styling of `text` gives: with
/// colours, without them, or nothing at all on a console that only takes
/// Windows API calls.
pub open spec fn is_styled_highlight(r: Seq<char>, text: Seq<char>) -> bool {
    ||| r == styled_highlight(true, text)
    ||| r == styled_highlight(false, text)
    ||| r.len() == 0
}

/// Calls `crossterm`'s `Stylize::yellow` and `Stylize::bold` on `text` and
/// formats the styled content. Claimed: the text is one of the forms of
/// `is_styled_highlight`. Which one depends on the environment (`NO_COLOR`)
/// and the console, and is not claimed.
#[verifier::external_body]
pub(crate) fn stylize_highlight(text: &str) -> (r: String)
    ensures
        is_styled_highlight(r@, text@),
{
    text.yellow().bold().to_string()
}

/// `r` is how a highlighted `text` is shown: `crossterm`'s yellow bold
/// styling of it, with colours or without them.
pub open spec fn is_shown_highlight(r: Seq<char>, text: Seq<char>) -> bool {
    ||| r == styled_highlight(true, text)
    ||| r == styled_highlight(false, text)
}

/// `crossterm`'s yellow bold styling of `text` as it is written with colours
/// switched off: `ESC [m`, `ESC [1m`, the text, and a full reset.
fn colourless_highlight(text: &str) -> (r: String)
    ensures
        r@ == styled_highlight(false, text@),
{
    let mut out = String::new();
    push_char(&mut out, '\x1b');
    push_char(&mut out, '[');
    push_char(&mut out, 'm');
    push_char(&mut out, '\x1b');
    push_char(&mut out, '[');
    push_char(&mut out, '1');
    push_char(&mut out, 'm');
    push_str(&mut out, text);
    push_char(&mut out, '\x1b');
    push_char(&mut out, '[');
    push_char(&mut out, '0');
    push_char(&mut out, 'm');
    assert(out@ =~= styled_highlight(false, text@));
    out
}

/// Highlights `text` with `crossterm`'s yellow bold styling. On a console
/// where that styling writes nothing at all, the colourless form is written
/// instead, so the text is never lost.
pub fn highlight_shown(text: &str) -> (r: String)
    ensures
        is_shown_highlight(r@, text@),
{
    let styled = stylize_highlight(text);
    if chars_of(styled.as_str()).len() == 0 {
        colourless_highlight(text)
    } else {
        styled
    }
}

} // verus!
