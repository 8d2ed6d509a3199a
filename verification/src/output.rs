//! What the terminal shows: labels, printable items, and the screen
//! operations that draw one printed item above the input line.

use vstd::prelude::*;

use crate::ansi::{badge, badge_spec, fg, fg_spec};
use crate::message::Message;
use crate::text::{
    ansi_width_spec, display_width, push_char, push_str, text_lines, text_lines_spec,
};

verus! {

/// The label shown in front of a printed line.
#[derive(PartialEq, Eq, Structural, Clone, Copy, Debug)]
pub enum Label {
    Unlabeled,
    Error,
    Warn,
    Info,
    Debug,
    Input,
}

/// The styled badge of a label: its name between spaces, bold, in a
/// foreground colour on a background colour; nothing for `Unlabeled`.
pub open spec fn label_ansi(label: Label) -> Seq<char> {
    match label {
        Label::Warn => badge_spec("30"@, "43"@, " WARN "@),
        Label::Debug => badge_spec("30"@, "100"@, " DEBUG "@),
        Label::Input => badge_spec("30"@, "104"@, " INPUT "@),
        Label::Unlabeled => Seq::empty(),
        Label::Info => badge_spec("37"@, "42"@, " INFO "@),
        Label::Error => badge_spec("30"@, "41"@, " ERROR "@),
    }
}

impl Label {
    /// The styled badge of this label.
    pub fn get_ansi(&self) -> (r: String)
        ensures
            r@ == label_ansi(*self),
    {
        match self {
            Label::Warn => badge("30", "43", " WARN "),
            Label::Debug => badge("30", "100", " DEBUG "),
            Label::Input => badge("30", "104", " INPUT "),
            Label::Unlabeled => String::new(),
            Label::Info => badge("37", "42", " INFO "),
            Label::Error => badge("30", "41", " ERROR "),
        }
    }
}

/// Something to print, with its label.
pub enum Printable {
    String { s: String, label: Label },
    Message { msg: Message, label: Label },
}

impl Printable {
    /// The label of this item.
    pub open spec fn spec_label(self) -> Label {
        match self {
            Printable::String { label, .. } => label,
            Printable::Message { label, .. } => label,
        }
    }

    /// The same item under another label.
    pub fn with_label(self, label: Label) -> (r: Printable)
        ensures
            r.spec_label() == label,
            match (self, r) {
                (Printable::String { s: a, .. }, Printable::String { s: b, .. }) => a == b,
                (Printable::Message { msg: a, .. }, Printable::Message { msg: b, .. }) => a == b,
                _ => false,
            },
    {
        match self {
            Printable::String { s, label: _ } => Printable::String { s, label },
            Printable::Message { msg, label: _ } => Printable::Message { msg, label },
        }
    }
}

impl<'a> From<&'a str> for Printable {
    fn from(value: &'a str) -> (r: Self)
        ensures
            r matches Printable::String { s, label } && s@ == value@ && label == Label::Unlabeled,
    {
        Printable::String { s: value.to_owned(), label: Label::Unlabeled }
    }
}

impl<'a> vstd::std_specs::convert::FromSpecImpl<&'a str> for Printable {
    open spec fn obeys_from_spec() -> bool {
        false
    }

    open spec fn from_spec(v: &'a str) -> Self {
        arbitrary()
    }
}

impl From<String> for Printable {
    fn from(value: String) -> (r: Self) {
        Printable::String { s: value, label: Label::Unlabeled }
    }
}

impl vstd::std_specs::convert::FromSpecImpl<String> for Printable {
    open spec fn obeys_from_spec() -> bool {
        true
    }

    open spec fn from_spec(v: String) -> Self {
        Printable::String { s: v, label: Label::Unlabeled }
    }
}

impl From<Message> for Printable {
    fn from(value: Message) -> (r: Self) {
        Printable::Message { msg: value, label: Label::Unlabeled }
    }
}

impl vstd::std_specs::convert::FromSpecImpl<Message> for Printable {
    open spec fn obeys_from_spec() -> bool {
        true
    }

    open spec fn from_spec(v: Message) -> Self {
        Printable::Message { msg: v, label: Label::Unlabeled }
    }
}

/// One step of drawing: optionally clear the current terminal line, then
/// write `text`.
pub struct ScreenOp {
    pub clear: bool,
    pub text: String,
}

impl View for ScreenOp {
    type V = (bool, Seq<char>);

    open spec fn view(&self) -> (bool, Seq<char>) {
        (self.clear, self.text@)
    }
}

/// The views of a list of screen operations.
pub open spec fn ops_view(ops: Seq<ScreenOp>) -> Seq<(bool, Seq<char>)> {
    ops.map_values(|op: ScreenOp| op@)
}

/// The timestamp badge: the clock text between spaces, bold black on yellow.
pub open spec fn stamp_spec(now: Seq<char>) -> Seq<char> {
    badge_spec("30"@, "43"@, seq![' '] + now + seq![' '])
}

/// `n` spaces.
pub open spec fn spaces(n: nat) -> Seq<char> {
    Seq::new(n, |j: int| ' ')
}

/// The continuation lines of a multi-line text: each cleared, indented by
/// `width` spaces and a separating space.
pub open spec fn continuation_ops(width: nat, lines: Seq<Seq<char>>) -> Seq<(bool, Seq<char>)> {
    Seq::new(
        if lines.len() > 0 { (lines.len() - 1) as nat } else { 0nat },
        |i: int| (true, spaces(width) + seq![' '] + lines[i + 1] + seq!['\n']),
    )
}

/// How one printed item is drawn above the input line: nothing for a debug
/// item when debug output is off; otherwise the timestamp badge, then the
/// text (its first line after the label badge, the others indented to line
/// up under it), then the input prompt with what has been typed so far.
pub open spec fn render_spec(s: Seq<char>, label: Label, input: Seq<char>, debug: bool, now: Seq<char>) -> Seq<(bool, Seq<char>)> {
    if label == Label::Debug && !debug {
        Seq::empty()
    } else {
        let stamp = stamp_spec(now);
        let head = seq![(true, seq![' '] + stamp + seq![' '])];
        let prompt = seq![(false, label_ansi(Label::Input) + seq![' '] + input)];
        if s.len() == 0 {
            head + prompt
        } else {
            let label_str = label_ansi(label);
            let width = ansi_width_spec(stamp) + 2 + ansi_width_spec(label_str);
            let lines = text_lines_spec(s);
            let first = if lines.len() > 0 {
                seq![(false, label_str + seq![' '] + lines[0] + seq!['\n'])]
            } else {
                Seq::empty()
            };
            head + first + continuation_ops(width, lines) + prompt
        }
    }
}

/// Only debug items are ever hidden: an item under any other label is drawn
/// whatever the debug setting, in the same way either way; it starts with
/// the cleared timestamp badge, ends with the input prompt, and its text's
/// first line comes right after the timestamp, behind the label badge.
pub proof fn lemma_render_shows_non_debug(s: Seq<char>, label: Label, input: Seq<char>, debug: bool, now: Seq<char>)
    requires
        label != Label::Debug,
    ensures
        render_spec(s, label, input, debug, now) == render_spec(s, label, input, !debug, now),
        ({
            let ops = render_spec(s, label, input, debug, now);
            &&& ops.len() >= 2
            &&& ops[0] == (true, seq![' '] + stamp_spec(now) + seq![' '])
            &&& ops.last() == (false, label_ansi(Label::Input) + seq![' '] + input)
            &&& (s.len() > 0 && text_lines_spec(s).len() > 0) ==> ops[1] == (
                false,
                label_ansi(label) + seq![' '] + text_lines_spec(s)[0] + seq!['\n'],
            )
        }),
{
}

/// With debug output on, a debug item is drawn as an item under any other
/// label is: nothing hides it.
pub proof fn lemma_render_shows_debug_when_enabled(s: Seq<char>, input: Seq<char>, now: Seq<char>)
    ensures
        ({
            let ops = render_spec(s, Label::Debug, input, true, now);
            &&& ops.len() >= 2
            &&& ops[0] == (true, seq![' '] + stamp_spec(now) + seq![' '])
            &&& ops.last() == (false, label_ansi(Label::Input) + seq![' '] + input)
        }),
{
}

/// Every label badge is short.
pub proof fn lemma_label_ansi_len(label: Label)
    ensures
        label_ansi(label).len() <= 40,
{
    reveal_strlit("30");
    reveal_strlit("37");
    reveal_strlit("41");
    reveal_strlit("42");
    reveal_strlit("43");
    reveal_strlit("100");
    reveal_strlit("104");
    reveal_strlit(" WARN ");
    reveal_strlit(" DEBUG ");
    reveal_strlit(" INPUT ");
    reveal_strlit(" INFO ");
    reveal_strlit(" ERROR ");
}

/// A string of `n` spaces.
fn spaces_string(n: usize) -> (r: String)
    ensures
        r@ == spaces(n as nat),
{
    let mut out = String::new();
    let mut i: usize = 0;
    while i < n
        invariant
            i <= n,
            out@ == spaces(i as nat),
        decreases n - i,
    {
        push_char(&mut out, ' ');
        i = i + 1;
        assert(out@ =~= spaces(i as nat));
    }
    out
}

/// Concatenates `a`, a space, `b`, and a newline when `newline`.
fn join_space(a: &str, b: &str, newline: bool) -> (r: String)
    ensures
        r@ == a@ + seq![' '] + b@ + (if newline { seq!['\n'] } else { Seq::empty() }),
{
    let mut out = String::new();
    push_str(&mut out, a);
    push_char(&mut out, ' ');
    push_str(&mut out, b);
    if newline {
        push_char(&mut out, '\n');
    }
    assert(out@ =~= a@ + seq![' '] + b@ + (if newline { seq!['\n'] } else { Seq::empty() }));
    out
}

/// The screen operations that print `s` under `label` above the input line,
/// with `now` as the clock text.
pub fn render(s: &str, label: Label, input: &str, debug: bool, now: &str) -> (r: Vec<ScreenOp>)
    requires
        now@.len() <= usize::MAX / 8,
    ensures
        ops_view(r@) == render_spec(s@, label, input@, debug, now@),
{
    let mut ops: Vec<ScreenOp> = Vec::new();
    if label == Label::Debug && !debug {
        assert(ops_view(ops@) =~= render_spec(s@, label, input@, debug, now@));
        return ops;
    }
    let mut framed = String::new();
    push_char(&mut framed, ' ');
    push_str(&mut framed, now);
    push_char(&mut framed, ' ');
    assert(framed@ =~= seq![' '] + now@ + seq![' ']);
    proof {
        reveal_strlit("30");
        reveal_strlit("43");
    }
    let stamp = badge("30", "43", framed.as_str());
    let mut width = display_width(stamp.as_str());
    let mut head = String::new();
    push_char(&mut head, ' ');
    push_str(&mut head, stamp.as_str());
    push_char(&mut head, ' ');
    assert(head@ =~= seq![' '] + stamp@ + seq![' ']);
    ops.push(ScreenOp { clear: true, text: head });
    width = width + 2;
    let ghost lines_spec = text_lines_spec(s@);
    if !s.is_empty() {
        let label_str = label.get_ansi();
        proof {
            lemma_label_ansi_len(label);
        }
        width = width + display_width(label_str.as_str());
        let lines = text_lines(s);
        if lines.len() > 0 {
            let first = join_space(label_str.as_str(), lines[0].as_str(), true);
            ops.push(ScreenOp { clear: false, text: first });
        }
        let filler = spaces_string(width);
        let ghost first_ops = if lines_spec.len() > 0 {
            seq![(false, label_ansi(label) + seq![' '] + lines_spec[0] + seq!['\n'])]
        } else {
            Seq::empty()
        };
        assert(ops_view(ops@) =~= seq![(true, seq![' '] + stamp_spec(now@) + seq![' '])] + first_ops);
        assert(width == ansi_width_spec(stamp_spec(now@)) + 2 + ansi_width_spec(label_ansi(label)));
        let n = lines.len();
        let mut i: usize = 1;
        let ghost before = ops_view(ops@);
        while i < n
            invariant
                n == lines@.len(),
                n == lines_spec.len(),
                forall|k: int| 0 <= k < n ==> #[trigger] lines@[k]@ == lines_spec[k],
                filler@ == spaces(width as nat),
                1 <= i <= n || (n == 0 && i == 1),
                ops_view(ops@) == before + continuation_ops(width as nat, lines_spec).take(
                    if i >= 1 { (i - 1) as int } else { 0 },
                ),
                continuation_ops(width as nat, lines_spec).len() == if n > 0 { (n - 1) as nat } else { 0nat },
            decreases n - i,
        {
            let ghost prev = ops@;
            let line = join_space(filler.as_str(), lines[i].as_str(), true);
            ops.push(ScreenOp { clear: true, text: line });
            proof {
                let c = continuation_ops(width as nat, lines_spec);
                assert(ops@.last()@ == c[(i - 1) as int]);
                assert(c.take(i as int) =~= c.take((i - 1) as int).push(c[(i - 1) as int]));
                assert(ops_view(ops@) =~= ops_view(prev).push(ops@.last()@));
            }
            i = i + 1;
        }
        proof {
            let c = continuation_ops(width as nat, lines_spec);
            assert(c.take(c.len() as int) =~= c);
            assert(ops_view(ops@) =~= seq![(true, seq![' '] + stamp_spec(now@) + seq![' '])] + first_ops + c);
        }
    }
    let input_label = Label::Input.get_ansi();
    let prompt = join_space(input_label.as_str(), input, false);
    ops.push(ScreenOp { clear: false, text: prompt });
    assert(ops_view(ops@) =~= render_spec(s@, label, input@, debug, now@));
    ops
}

/// The text shown for a protocol message: joins and id assignments are
/// shown, with the id in yellow; other messages are not shown.
pub open spec fn message_text_spec(msg: Message) -> Option<Seq<char>> {
    match msg {
        Message::AnnounceJoin { id, .. } => Some(fg_spec("33"@, id@) + " has joined the chat"@),
        Message::AssignId { id } => Some("You have been assigned the ID: "@ + fg_spec("33"@, id@)),
        _ => None,
    }
}

/// The text shown for a protocol message, if it is shown.
pub fn message_text(msg: &Message) -> (r: Option<String>)
    ensures
        match r {
            Some(t) => message_text_spec(*msg) == Some(t@),
            None => message_text_spec(*msg) is None,
        },
{
    match msg {
        Message::AnnounceJoin { id, .. } => {
            let mut out = fg("33", id.as_str());
            push_str(&mut out, " has joined the chat");
            Some(out)
        },
        Message::AssignId { id } => {
            let mut out = String::new();
            push_str(&mut out, "You have been assigned the ID: ");
            let colored = fg("33", id.as_str());
            push_str(&mut out, colored.as_str());
            Some(out)
        },
        _ => None,
    }
}

/// How a printable item is drawn: its text, or for a protocol message the
/// text shown for it (nothing when it is not shown).
pub open spec fn render_printable_spec(p: Printable, input: Seq<char>, debug: bool, now: Seq<char>) -> Seq<(bool, Seq<char>)> {
    match p {
        Printable::String { s, label } => render_spec(s@, label, input, debug, now),
        Printable::Message { msg, label } => match message_text_spec(msg) {
            Some(t) => render_spec(t, label, input, debug, now),
            None => Seq::empty(),
        },
    }
}

/// The screen operations that print one item above the input line.
pub fn render_printable(p: &Printable, input: &str, debug: bool, now: &str) -> (r: Vec<ScreenOp>)
    requires
        now@.len() <= usize::MAX / 8,
    ensures
        ops_view(r@) == render_printable_spec(*p, input@, debug, now@),
{
    match p {
        Printable::String { s, label } => render(s.as_str(), *label, input, debug, now),
        Printable::Message { msg, label } => match message_text(msg) {
            Some(t) => render(t.as_str(), *label, input, debug, now),
            None => {
                let ops: Vec<ScreenOp> = Vec::new();
                assert(ops_view(ops@) =~= Seq::<(bool, Seq<char>)>::empty());
                ops
            },
        },
    }
}

} // verus!
