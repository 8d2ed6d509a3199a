//! How the server relays what participants send: authentication of a
//! newcomer, the announcements that follow it, and the broadcast of every
//! message to the other participants.

use vstd::prelude::*;

use crate::ansi::{fg, fg_spec, highlight, highlight_spec};
use crate::message::{Message, MessageView};
use crate::output::Label;
use crate::participant::Participant;
use crate::text::{push_str, str_eq};

verus! {

/// Something the server must do after handling a message.
pub enum ServerEffect {
    /// Send `message` to the participant at position `to`; when
    /// `report_failure`, print an error if it cannot be written.
    Send { to: usize, message: Message, report_failure: bool },
    /// Print a line under a label.
    Print { label: Label, text: String },
}

/// The model of a server effect.
pub enum ServerEffectView {
    Send { to: int, message: MessageView, report_failure: bool },
    Print { label: Label, text: Seq<char> },
}

impl View for ServerEffect {
    type V = ServerEffectView;

    open spec fn view(&self) -> ServerEffectView {
        match self {
            ServerEffect::Send { to, message, report_failure } => ServerEffectView::Send {
                to: *to as int,
                message: message@,
                report_failure: *report_failure,
            },
            ServerEffect::Print { label, text } => ServerEffectView::Print { label: *label, text: text@ },
        }
    }
}

/// The models of a list of effects.
pub open spec fn server_effects_view(effects: Seq<ServerEffect>) -> Seq<ServerEffectView> {
    effects.map_values(|e: ServerEffect| e@)
}

/// The models of the participants.
pub open spec fn roster_view(ps: Seq<Participant>) -> Seq<(Seq<char>, Option<Seq<char>>)> {
    ps.map_values(|p: Participant| p@)
}

/// The participants paired with their positions.
pub open spec fn enumerate(ps: Seq<(Seq<char>, Option<Seq<char>>)>) -> Seq<(int, (Seq<char>, Option<Seq<char>>))> {
    Seq::new(ps.len(), |j: int| (j, ps[j]))
}

/// Whether a roster entry has a username.
pub open spec fn has_username() -> spec_fn((Seq<char>, Option<Seq<char>>)) -> bool {
    |p: (Seq<char>, Option<Seq<char>>)| p.1 is Some
}

/// The announcement of a roster entry's username to the participant at `to`.
pub open spec fn username_to(to: int) -> spec_fn((Seq<char>, Option<Seq<char>>)) -> ServerEffectView {
    |p: (Seq<char>, Option<Seq<char>>)| ServerEffectView::Send {
        to,
        message: MessageView::AnnounceUsername { id: p.0, username: p.1->0 },
        report_failure: false,
    }
}

/// Whether a numbered roster entry has an id other than `sender`.
pub open spec fn not_from(sender: Seq<char>) -> spec_fn((int, (Seq<char>, Option<Seq<char>>))) -> bool {
    |e: (int, (Seq<char>, Option<Seq<char>>))| e.1.0 != sender
}

/// The relay of `message` to a numbered roster entry.
pub open spec fn relay_to(message: MessageView) -> spec_fn((int, (Seq<char>, Option<Seq<char>>))) -> ServerEffectView {
    |e: (int, (Seq<char>, Option<Seq<char>>))| ServerEffectView::Send { to: e.0, message, report_failure: true }
}

/// The announcement, to the participant at `to`, of every participant that
/// has a username, in roster order.
pub open spec fn usernames_spec(ps: Seq<(Seq<char>, Option<Seq<char>>)>, to: int) -> Seq<ServerEffectView> {
    ps.filter(has_username()).map_values(username_to(to))
}

/// The announcement to every participant that `id` joined as `username`.
pub open spec fn joins_spec(n: nat, id: Seq<char>, username: Seq<char>) -> Seq<ServerEffectView> {
    Seq::new(
        n,
        |j: int| ServerEffectView::Send {
            to: j,
            message: MessageView::AnnounceJoin { id, username },
            report_failure: false,
        },
    )
}

/// The relay of `message` to every participant except those with the
/// sender's id.
pub open spec fn broadcast_spec(ps: Seq<(Seq<char>, Option<Seq<char>>)>, sender: Seq<char>, message: MessageView) -> Seq<ServerEffectView> {
    enumerate(ps).filter(not_from(sender)).map_values(relay_to(message))
}

/// Announces every participant with a username to the participant at `to`.
fn announce_usernames(ps: &Vec<Participant>, to: usize) -> (r: Vec<ServerEffect>)
    ensures
        server_effects_view(r@) == usernames_spec(roster_view(ps@), to as int),
{
    let mut out: Vec<ServerEffect> = Vec::new();
    let n = ps.len();
    let mut i: usize = 0;
    let ghost rv = roster_view(ps@);
    let ghost pred = has_username();
    let ghost f = username_to(to as int);
    while i < n
        invariant
            n == ps@.len(),
            rv == roster_view(ps@),
            i <= n,
            pred == has_username(),
            f == username_to(to as int),
            server_effects_view(out@) == rv.take(i as int).filter(pred).map_values(f),
        decreases n - i,
    {
        proof {
            reveal(Seq::filter);
            assert(rv.take(i + 1).drop_last() =~= rv.take(i as int));
            assert(rv[i as int] == ps@[i as int]@);
        }
        let ghost prev = out@;
        match ps[i].username() {
            Some(u) => {
                let m = Message::AnnounceUsername { id: ps[i].id().to_owned(), username: u.to_owned() };
                out.push(ServerEffect::Send { to, message: m, report_failure: false });
                proof {
                    assert(server_effects_view(out@) =~= server_effects_view(prev).push(out@.last()@));
                    reveal(Seq::filter);
                    assert(rv.take(i + 1).drop_last() =~= rv.take(i as int));
                    assert(rv.take(i + 1).last() == rv[i as int]);
                    assert(pred(rv[i as int]));
                    assert(rv.take(i + 1).filter(pred) =~= rv.take(i as int).filter(pred).push(rv[i as int]));
                }
            },
            None => {
                proof {
                    reveal(Seq::filter);
                    assert(rv.take(i + 1).drop_last() =~= rv.take(i as int));
                    assert(rv.take(i + 1).last() == rv[i as int]);
                    assert(!pred(rv[i as int]));
                    assert(rv.take(i + 1).filter(pred) =~= rv.take(i as int).filter(pred));
                }
            },
        }
        i = i + 1;
    }
    proof {
        assert(rv.take(n as int) =~= rv);
    }
    out
}

/// Announces to every participant that `id` joined as `username`.
fn announce_join(n: usize, id: &str, username: &str) -> (r: Vec<ServerEffect>)
    ensures
        server_effects_view(r@) == joins_spec(n as nat, id@, username@),
{
    let mut out: Vec<ServerEffect> = Vec::new();
    let mut i: usize = 0;
    while i < n
        invariant
            i <= n,
            server_effects_view(out@) == joins_spec(i as nat, id@, username@),
        decreases n - i,
    {
        let m = Message::AnnounceJoin { id: id.to_owned(), username: username.to_owned() };
        let ghost prev = out@;
        out.push(ServerEffect::Send { to: i, message: m, report_failure: false });
        proof {
            assert(server_effects_view(out@) =~= server_effects_view(prev).push(out@.last()@));
            assert(joins_spec((i + 1) as nat, id@, username@) =~= joins_spec(i as nat, id@, username@).push(out@.last()@));
        }
        i = i + 1;
    }
    out
}

/// Relays `message` to every participant except those with the sender's id.
fn broadcast(ps: &Vec<Participant>, sender: &str, message: &Message) -> (r: Vec<ServerEffect>)
    ensures
        server_effects_view(r@) == broadcast_spec(roster_view(ps@), sender@, message@),
{
    let mut out: Vec<ServerEffect> = Vec::new();
    let n = ps.len();
    let mut i: usize = 0;
    let ghost rv = roster_view(ps@);
    let ghost en = enumerate(rv);
    let ghost pred = not_from(sender@);
    let ghost f = relay_to(message@);
    while i < n
        invariant
            n == ps@.len(),
            rv == roster_view(ps@),
            en == enumerate(rv),
            i <= n,
            pred == not_from(sender@),
            f == relay_to(message@),
            server_effects_view(out@) == en.take(i as int).filter(pred).map_values(f),
        decreases n - i,
    {
        proof {
            reveal(Seq::filter);
            assert(en.take(i + 1).drop_last() =~= en.take(i as int));
            assert(en[i as int] == (i as int, ps@[i as int]@));
        }
        let ghost prev = out@;
        if !str_eq(ps[i].id(), sender) {
            let m = message.clone();
            out.push(ServerEffect::Send { to: i, message: m, report_failure: true });
            proof {
                assert(server_effects_view(out@) =~= server_effects_view(prev).push(out@.last()@));
                reveal(Seq::filter);
                assert(en.take(i + 1).drop_last() =~= en.take(i as int));
                assert(en.take(i + 1).last() == en[i as int]);
                assert(pred(en[i as int]));
                assert(en.take(i + 1).filter(pred) =~= en.take(i as int).filter(pred).push(en[i as int]));
            }
        } else {
            proof {
                reveal(Seq::filter);
                assert(en.take(i + 1).drop_last() =~= en.take(i as int));
                assert(en.take(i + 1).last() == en[i as int]);
                assert(!pred(en[i as int]));
                assert(en.take(i + 1).filter(pred) =~= en.take(i as int).filter(pred));
            }
        }
        i = i + 1;
    }
    proof {
        assert(en.take(n as int) =~= en);
    }
    out
}

/// The position of the first participant with id `id`, if any.
pub open spec fn first_with_id(ps: Seq<(Seq<char>, Option<Seq<char>>)>, id: Seq<char>) -> Option<int> {
    if exists|i: int| is_first_with_id(ps, id, i) {
        Some(choose|i: int| is_first_with_id(ps, id, i))
    } else {
        None
    }
}

/// Position `i` holds the first participant with id `id`.
pub open spec fn is_first_with_id(ps: Seq<(Seq<char>, Option<Seq<char>>)>, id: Seq<char>, i: int) -> bool {
    &&& 0 <= i < ps.len()
    &&& ps[i].0 == id
    &&& forall|j: int| 0 <= j < i ==> #[trigger] ps[j].0 != id
}

/// The roster after the participant with id `id` (the first one, if any)
/// has taken the username `username`.
pub open spec fn with_username(ps: Seq<(Seq<char>, Option<Seq<char>>)>, id: Seq<char>, username: Seq<char>) -> Seq<(Seq<char>, Option<Seq<char>>)> {
    match first_with_id(ps, id) {
        Some(k) => ps.update(k, (id, Some(username))),
        None => ps,
    }
}

/// The line that reports a failed authentication, in red.
pub open spec fn auth_failed_text() -> Seq<char> {
    fg_spec("31"@, "Authentication for a client failed."@)
}

/// The line that reports a successful authentication.
pub open spec fn authorized_text(username: Seq<char>) -> Seq<char> {
    "User "@ + highlight_spec(username) + " has been authorized."@
}

/// How the server handles `message` from the participant with id `id`;
/// `authenticated` is, for an `Authenticate` message, the username its token
/// proved, or `None` when the token was refused.
///
/// A refused authentication is reported and goes no further. An accepted one
/// records the username, tells the newcomer every known username (its own
/// included), tells everyone (the newcomer included) that it joined, and is
/// reported. Then, in every case but a refusal, the message is relayed to
/// every other participant.
pub open spec fn handle_participant_spec(
    ps: Seq<(Seq<char>, Option<Seq<char>>)>,
    id: Seq<char>,
    message: MessageView,
    authenticated: Option<Seq<char>>,
) -> (Seq<(Seq<char>, Option<Seq<char>>)>, Seq<ServerEffectView>) {
    if message is Authenticate {
        match authenticated {
            None => (ps, seq![ServerEffectView::Print { label: Label::Error, text: auth_failed_text() }]),
            Some(u) => {
                let new_ps = with_username(ps, id, u);
                let told = match first_with_id(new_ps, id) {
                    Some(k) => usernames_spec(new_ps, k),
                    None => Seq::empty(),
                };
                (
                    new_ps,
                    told + joins_spec(ps.len(), id, u) + seq![ServerEffectView::Print { label: Label::Info, text: authorized_text(u) }]
                        + broadcast_spec(new_ps, id, message),
                )
            },
        }
    } else {
        (ps, broadcast_spec(ps, id, message))
    }
}

/// Finds the first participant with id `id`.
fn find_participant(ps: &Vec<Participant>, id: &str) -> (r: Option<usize>)
    ensures
        match r {
            Some(k) => first_with_id(roster_view(ps@), id@) == Some(k as int) && k < ps@.len(),
            None => first_with_id(roster_view(ps@), id@) is None,
        },
{
    let n = ps.len();
    let mut i: usize = 0;
    let ghost rv = roster_view(ps@);
    while i < n
        invariant
            n == ps@.len(),
            rv == roster_view(ps@),
            i <= n,
            forall|j: int| 0 <= j < i ==> #[trigger] rv[j].0 != id@,
        decreases n - i,
    {
        assert(rv[i as int] == ps@[i as int]@);
        if str_eq(ps[i].id(), id) {
            proof {
                let w = i as int;
                assert(is_first_with_id(rv, id@, w));
                let c = choose|c: int| is_first_with_id(rv, id@, c);
                if c > w {
                    assert(rv[w].0 != id@);
                } else if c < w {
                    assert(rv[c].0 != id@);
                }
            }
            return Some(i);
        }
        i = i + 1;
    }
    None
}

/// Records `username` for the participant with id `id`, and announces it.
fn record_authentication(participants: &mut Vec<Participant>, id: &str, username: String) -> (r: Vec<ServerEffect>)
    ensures
        roster_view(final(participants)@) == with_username(roster_view(old(participants)@), id@, username@),
        server_effects_view(r@) == (match first_with_id(roster_view(final(participants)@), id@) {
            Some(k) => usernames_spec(roster_view(final(participants)@), k),
            None => Seq::empty(),
        }) + joins_spec(old(participants)@.len(), id@, username@)
            + seq![ServerEffectView::Print { label: Label::Info, text: authorized_text(username@) }],
{
    let ghost old_rv = roster_view(participants@);
    match find_participant(participants, id) {
        Some(k) => {
            proof {
                assert(old_rv[k as int].0 == id@);
                assert(old_rv[k as int] == participants@[k as int]@);
            }
            participants[k].set_username(username.clone());
            proof {
                let rv = roster_view(participants@);
                assert(rv =~= old_rv.update(k as int, (id@, Some(username@))));
            }
        },
        None => {
            assert(roster_view(participants@) == old_rv);
        },
    }
    let mut told = match find_participant(participants, id) {
        Some(k) => announce_usernames(participants, k),
        None => {
            let v: Vec<ServerEffect> = Vec::new();
            assert(server_effects_view(v@) =~= Seq::<ServerEffectView>::empty());
            v
        },
    };
    let mut joins = announce_join(participants.len(), id, username.as_str());
    let shown = highlight(username.as_str());
    let mut text = String::new();
    push_str(&mut text, "User ");
    push_str(&mut text, shown.as_str());
    push_str(&mut text, " has been authorized.");
    let ghost told_v = server_effects_view(told@);
    let ghost joins_v = server_effects_view(joins@);
    let mut effects: Vec<ServerEffect> = Vec::new();
    effects.append(&mut told);
    effects.append(&mut joins);
    effects.push(ServerEffect::Print { label: Label::Info, text });
    assert(server_effects_view(effects@) =~= told_v + joins_v + seq![ServerEffectView::Print { label: Label::Info, text: authorized_text(username@) }]);
    effects
}

/// Handles `message` from the participant with id `id`; `authenticated` is,
/// for an `Authenticate` message, the username its token proved, or `None`
/// when the token was refused (it is not read for other messages).
pub fn handle_participant_msg(
    participants: &mut Vec<Participant>,
    id: &str,
    message: Message,
    authenticated: Option<String>,
) -> (r: Vec<ServerEffect>)
    ensures
        ({
            let (ps, effects) = handle_participant_spec(
                roster_view(old(participants)@),
                id@,
                message@,
                match authenticated {
                    Some(u) => Some(u@),
                    None => None,
                },
            );
            roster_view(final(participants)@) == ps && server_effects_view(r@) == effects
        }),
{
    if let Message::Authenticate { .. } = &message {
        let username = match authenticated {
            Some(u) => u,
            None => {
                let mut effects: Vec<ServerEffect> = Vec::new();
                let text = fg("31", "Authentication for a client failed.");
                effects.push(ServerEffect::Print { label: Label::Error, text });
                assert(server_effects_view(effects@) =~= seq![ServerEffectView::Print { label: Label::Error, text: auth_failed_text() }]);
                return effects;
            },
        };
        let mut effects = record_authentication(participants, id, username);
        let ghost head = server_effects_view(effects@);
        let mut relayed = broadcast(participants, id, &message);
        let ghost relayed_v = server_effects_view(relayed@);
        effects.append(&mut relayed);
        assert(server_effects_view(effects@) =~= head + relayed_v);
        effects
    } else {
        broadcast(participants, id, &message)
    }
}

/// Every element a filter keeps is an element of the filtered sequence.
proof fn lemma_filter_members<A>(s: Seq<A>, pred: spec_fn(A) -> bool)
    ensures
        forall|i: int| 0 <= i < s.filter(pred).len() ==> s.contains(#[trigger] s.filter(pred)[i]),
    decreases s.len(),
{
    reveal(Seq::filter);
    if s.len() > 0 {
        lemma_filter_members(s.drop_last(), pred);
        let out = s.filter(pred);
        let sub = s.drop_last().filter(pred);
        assert forall|i: int| 0 <= i < out.len() implies s.contains(#[trigger] out[i]) by {
            if i < sub.len() {
                assert(out[i] == sub[i]);
                assert(s.drop_last().contains(sub[i]));
                let j = choose|j: int| 0 <= j < s.drop_last().len() && s.drop_last()[j] == sub[i];
                assert(s[j] == out[i]);
            } else {
                assert(out[i] == s.last());
                assert(s[s.len() - 1] == out[i]);
            }
        }
    }
}

/// A relayed message never goes back to a participant with the sender's id,
/// and always goes to a participant that exists.
pub proof fn lemma_broadcast_skips_sender(
    ps: Seq<(Seq<char>, Option<Seq<char>>)>,
    sender: Seq<char>,
    message: MessageView,
)
    ensures
        forall|k: int|
            0 <= k < broadcast_spec(ps, sender, message).len() ==> (#[trigger] broadcast_spec(ps, sender, message)[k] matches ServerEffectView::Send { to, message: m, report_failure }
                && 0 <= to < ps.len() && ps[to].0 != sender && m == message && report_failure),
{
    let en = enumerate(ps);
    let pred = not_from(sender);
    let f = relay_to(message);
    let filtered = en.filter(pred);
    lemma_filter_members(en, pred);
    assert forall|k: int| 0 <= k < broadcast_spec(ps, sender, message).len() implies (#[trigger] broadcast_spec(ps, sender, message)[k] matches ServerEffectView::Send { to, message: m, report_failure }
        && 0 <= to < ps.len() && ps[to].0 != sender && m == message && report_failure) by {
        assert(broadcast_spec(ps, sender, message) == filtered.map_values(f));
        let e = filtered[k];
        en.lemma_filter_pred(pred, k);
        assert(en.contains(e));
        let j = choose|j: int| 0 <= j < en.len() && en[j] == e;
        assert(e == (j, ps[j]));
    }
}

/// A refused authentication changes nothing and relays nothing: it is only
/// reported.
pub proof fn lemma_refused_authentication(
    ps: Seq<(Seq<char>, Option<Seq<char>>)>,
    id: Seq<char>,
    message: MessageView,
)
    requires
        message is Authenticate,
    ensures
        handle_participant_spec(ps, id, message, None).0 == ps,
        handle_participant_spec(ps, id, message, None).1 == seq![ServerEffectView::Print { label: Label::Error, text: auth_failed_text() }],
{
}

/// After an accepted authentication, the participant with the newcomer's id
/// (when there is one) carries the proven username, and no other entry changes.
pub proof fn lemma_accepted_authentication(
    ps: Seq<(Seq<char>, Option<Seq<char>>)>,
    id: Seq<char>,
    message: MessageView,
    username: Seq<char>,
)
    requires
        message is Authenticate,
    ensures
        ({
            let new_ps = handle_participant_spec(ps, id, message, Some(username)).0;
            &&& new_ps.len() == ps.len()
            &&& forall|j: int| 0 <= j < ps.len() ==> (#[trigger] new_ps[j]).0 == ps[j].0
            &&& (exists|j: int| 0 <= j < ps.len() && ps[j].0 == id) ==> exists|j: int|
                0 <= j < new_ps.len() && #[trigger] new_ps[j] == (id, Some(username))
        }),
{
    let new_ps = handle_participant_spec(ps, id, message, Some(username)).0;
    if exists|j: int| 0 <= j < ps.len() && ps[j].0 == id {
        lemma_first_exists(ps, id);
        let k = first_with_id(ps, id)->0;
        assert(new_ps[k] == (id, Some(username)));
    }
}

/// When some participant has the id, there is a first one.
proof fn lemma_first_exists(ps: Seq<(Seq<char>, Option<Seq<char>>)>, id: Seq<char>)
    requires
        exists|j: int| 0 <= j < ps.len() && ps[j].0 == id,
    ensures
        first_with_id(ps, id) matches Some(k) && is_first_with_id(ps, id, k),
    decreases ps.len(),
{
    if ps.last().0 == id && !(exists|j: int| 0 <= j < ps.len() - 1 && ps[j].0 == id) {
        assert(is_first_with_id(ps, id, ps.len() - 1));
    } else {
        let p = ps.drop_last();
        let w = choose|j: int| 0 <= j < ps.len() && ps[j].0 == id;
        if w == ps.len() - 1 {
            let w2 = choose|j: int| 0 <= j < ps.len() - 1 && ps[j].0 == id;
            assert(p[w2].0 == id);
        } else {
            assert(p[w].0 == id);
        }
        lemma_first_exists(p, id);
        let k = first_with_id(p, id)->0;
        assert forall|j: int| 0 <= j < k implies #[trigger] ps[j].0 != id by {
            assert(ps[j] == p[j]);
        }
        assert(ps[k] == p[k]);
        assert(is_first_with_id(ps, id, k));
    }
}

} // verus!
