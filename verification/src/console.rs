//! The terminal front end's decisions: what a key press does to the input
//! line, and what a submitted line asks for.

use vstd::prelude::*;

use crate::text::{is_trimmed, pop_char, push_char, starts_with, str_eq, trim};
use crate::util::{ctrl_w_delete, is_ctrl_w_result};

verus! {

/// The key of a key press, as far as the front end tells keys apart.
#[derive(PartialEq, Eq, Structural, Clone, Copy, Debug)]
pub enum KeyCode {
    Char(char),
    Backspace,
    Enter,
    Other,
}

/// A key press: the key, and whether Control was held.
#[derive(PartialEq, Eq, Structural, Clone, Copy, Debug)]
pub struct KeyPress {
    pub code: KeyCode,
    pub control: bool,
}

/// What the front end does after a key press.
#[derive(PartialEq, Eq, Structural, Clone, Copy, Debug)]
pub enum KeyOutcome {
    /// Ctrl-C: print `^C` and leave.
    Quit,
    /// The input line changed: draw it again.
    Redraw,
    /// Enter: submit the input line.
    Submit,
    /// Nothing to do.
    Ignore,
}

/// The effect of a key press on the input line, and what follows.
pub open spec fn key_spec(key: KeyPress, input: Seq<char>, after: Seq<char>) -> (bool, KeyOutcome) {
    match key.code {
        KeyCode::Char(c) => {
            if c == 'c' && key.control {
                (after == input, KeyOutcome::Quit)
            } else if c == 'w' && key.control {
                (is_ctrl_w_result(input, after), KeyOutcome::Redraw)
            } else {
                (after == input.push(c), KeyOutcome::Redraw)
            }
        },
        KeyCode::Backspace => (after == (if input.len() > 0 { input.drop_last() } else { input }), KeyOutcome::Redraw),
        KeyCode::Enter => (after == input, KeyOutcome::Submit),
        KeyCode::Other => (after == input, KeyOutcome::Ignore),
    }
}

/// Applies a key press to the input line: Ctrl-C quits, Ctrl-W deletes the
/// last word, another character is typed, Backspace deletes the last
/// character, Enter submits.
pub fn handle_key_event(key: KeyPress, input: &mut String) -> (r: KeyOutcome)
    ensures
        key_spec(key, old(input)@, final(input)@).0,
        r == key_spec(key, old(input)@, final(input)@).1,
{
    match key.code {
        KeyCode::Char(c) => {
            if c == 'c' && key.control {
                KeyOutcome::Quit
            } else if c == 'w' && key.control {
                *input = ctrl_w_delete(input.as_str());
                KeyOutcome::Redraw
            } else {
                push_char(input, c);
                KeyOutcome::Redraw
            }
        },
        KeyCode::Backspace => {
            pop_char(input);
            KeyOutcome::Redraw
        },
        KeyCode::Enter => KeyOutcome::Submit,
        KeyCode::Other => KeyOutcome::Ignore,
    }
}

/// A character key pressed without Control types exactly that character at
/// the end of the input line, whatever the character, and the line is drawn
/// again.
pub proof fn lemma_plain_key_types_its_character(c: char, input: Seq<char>, after: Seq<char>)
    requires
        key_spec(KeyPress { code: KeyCode::Char(c), control: false }, input, after).0,
    ensures
        after == input.push(c),
        key_spec(KeyPress { code: KeyCode::Char(c), control: false }, input, after).1 == KeyOutcome::Redraw,
{
}

/// Only Ctrl-C and Ctrl-W change the input line otherwise than by typing:
/// a key press that leaves the line unchanged or shortens it is a control
/// key, Backspace, Enter or another key, never a plain character.
pub proof fn lemma_plain_key_lengthens_line(c: char, input: Seq<char>, after: Seq<char>)
    requires
        key_spec(KeyPress { code: KeyCode::Char(c), control: false }, input, after).0,
    ensures
        after.len() == input.len() + 1,
        after.take(input.len() as int) == input,
        after.last() == c,
{
    assert(after.take(input.len() as int) =~= input);
}

/// Whether a submitted line asks to leave: it is `exit` between whitespace.
pub fn is_exit_command(input: &str) -> (r: bool)
    ensures
        r <==> (exists|t: Seq<char>| is_trimmed(input@, t) && t == "exit"@),
{
    let t = trim(input);
    let r = str_eq(t, "exit");
    proof {
        if !r {
            assert forall|u: Seq<char>| is_trimmed(input@, u) implies u != "exit"@ by {
                lemma_trimmed_unique(input@, u, t@);
            }
        }
    }
    r
}

/// A string has one trimmed form.
pub proof fn lemma_trimmed_unique(s: Seq<char>, a: Seq<char>, b: Seq<char>)
    requires
        is_trimmed(s, a),
        is_trimmed(s, b),
    ensures
        a == b,
{
    let (i1, j1) = choose|i: int, j: int|
        #![trigger s.subrange(i, j)]
        {
            &&& 0 <= i <= j <= s.len()
            &&& a == s.subrange(i, j)
            &&& forall|k: int| 0 <= k < i ==> crate::text::unicode_whitespace(#[trigger] s[k])
            &&& forall|k: int| j <= k < s.len() ==> crate::text::unicode_whitespace(#[trigger] s[k])
            &&& i < j ==> !crate::text::unicode_whitespace(s[i]) && !crate::text::unicode_whitespace(s[j - 1])
        };
    let (i2, j2) = choose|i: int, j: int|
        #![trigger s.subrange(i, j)]
        {
            &&& 0 <= i <= j <= s.len()
            &&& b == s.subrange(i, j)
            &&& forall|k: int| 0 <= k < i ==> crate::text::unicode_whitespace(#[trigger] s[k])
            &&& forall|k: int| j <= k < s.len() ==> crate::text::unicode_whitespace(#[trigger] s[k])
            &&& i < j ==> !crate::text::unicode_whitespace(s[i]) && !crate::text::unicode_whitespace(s[j - 1])
        };
    if i1 < j1 && i2 < j2 {
        if i1 < i2 {
            assert(crate::text::unicode_whitespace(s[i1]));
        }
        if i2 < i1 {
            assert(crate::text::unicode_whitespace(s[i2]));
        }
        if j1 < j2 {
            assert(crate::text::unicode_whitespace(s[j2 - 1]));
        }
        if j2 < j1 {
            assert(crate::text::unicode_whitespace(s[j1 - 1]));
        }
    } else if i1 < j1 {
        // b is empty: every character is whitespace
        if i2 <= i1 {
            assert(crate::text::unicode_whitespace(s[i1]));
        } else {
            assert(crate::text::unicode_whitespace(s[i1]));
        }
    } else if i2 < j2 {
        assert(crate::text::unicode_whitespace(s[i2]));
    }
}

/// What a submitted line asks for.
#[derive(PartialEq, Eq, Structural, Clone, Copy, Debug)]
pub enum Command {
    /// Start hosting a server.
    Host,
    /// Connect to the server.
    Connect,
    /// A line that starts with `/` but names no command that applies.
    Unrecognized,
    /// A chat message to send.
    Chat,
    /// A chat message, but no connection to send it on.
    NotConnected,
}

/// What a submitted line asks for, given whether this program already hosts
/// a server and is already connected: `/host` while not hosting, `/connect`
/// while not connected, another line starting with `/` is unrecognized, and
/// anything else is a chat message.
pub open spec fn route_spec(input: Seq<char>, hosting: bool, connected: bool) -> Command {
    if input.take(5) == "/host"@ && input.len() >= 5 && !hosting {
        Command::Host
    } else if input.take(8) == "/connect"@ && input.len() >= 8 && !connected {
        Command::Connect
    } else if input.len() >= 1 && input[0] == '/' {
        Command::Unrecognized
    } else if connected {
        Command::Chat
    } else {
        Command::NotConnected
    }
}

/// Whether this program hosts a server matters only to `/host`: any other
/// line is routed the same way while hosting and while not.
pub proof fn lemma_route_ignores_hosting(input: Seq<char>, connected: bool)
    requires
        !(input.len() >= 5 && input.take(5) == "/host"@),
    ensures
        route_spec(input, true, connected) == route_spec(input, false, connected),
{
}

/// `/connect` connects whenever there is no connection yet, whether or not
/// this program hosts the server.
pub proof fn lemma_connect_while_unconnected(input: Seq<char>, hosting: bool)
    requires
        input.len() >= 8,
        input.take(8) == "/connect"@,
    ensures
        route_spec(input, hosting, false) == Command::Connect,
{
    reveal_strlit("/host");
    reveal_strlit("/connect");
    assert(input.take(8)[1] == 'c');
    assert(input[1] == 'c');
    assert(input.take(5)[1] == 'c');
    assert("/host"@[1] == 'h');
}

/// Decides what a submitted line asks for.
pub fn route_command(input: &str, hosting: bool, connected: bool) -> (r: Command)
    ensures
        r == route_spec(input@, hosting, connected),
{
    proof {
        reveal_strlit("/host");
        reveal_strlit("/connect");
        reveal_strlit("/");
    }
    if starts_with(input, "/host") && !hosting {
        return Command::Host;
    }
    if starts_with(input, "/connect") && !connected {
        return Command::Connect;
    }
    if starts_with(input, "/") {
        assert(input@.take(1)[0] == input@[0]);
        return Command::Unrecognized;
    }
    proof {
        if input@.len() >= 1 && input@[0] == '/' {
            assert(input@.take(1) =~= "/"@);
        }
    }
    if connected {
        Command::Chat
    } else {
        Command::NotConnected
    }
}

} // verus!
