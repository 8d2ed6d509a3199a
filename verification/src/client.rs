//! The client side of the chat: the state it keeps about each peer, and how
//! it reacts to what the server relays.
//!
//! For every peer the client keeps an ephemeral X25519 secret and its public
//! key, whether that public key has been sent to the peer, and the AES key
//! once the exchange is complete. The secret is consumed by the one exchange
//! that derives the AES key.

use vstd::prelude::*;

use crate::ansi::{highlight_shown, is_shown_highlight, styled_highlight};
use crate::crypto::{
    base64_encode, base64_encode_spec, decrypt_message_checked, derive_aes_key, key_pair, x25519_spec, SecretKey,
    encrypt_message, get_public_key_from_bytes, new_keypair, nonce_length_mismatch,
    public_key_text, spec_aes_key, spec_decrypt_message, spec_public_key_from_text,
    aes256gcm_seal_spec, AES_GCM_MAX_PLAINTEXT, base64_encoded_len,
};
use crate::message::Message;
use crate::output::Label;
use crate::text::{push_char, push_str, str_eq};
use vstd::utf8::encode_utf8;

verus! {

/// What the client knows about one peer.
pub struct PeerStatus {
    has_sent_public_key: bool,
    my_secret: Option<SecretKey>,
    my_scalar: Ghost<Seq<u8>>,
    my_public_key: [u8; 32],
    aes_key: Option<[u8; 32]>,
}

/// The model of a peer's status: our secret for the peer while it is held,
/// the secret our public key belongs to (which stays known after the
/// secret is consumed), our public key, and the AES key once derived.
pub struct PeerView {
    pub has_sent_public_key: bool,
    pub secret: Option<Seq<u8>>,
    pub scalar: Seq<u8>,
    pub public_key: Seq<u8>,
    pub aes_key: Option<Seq<u8>>,
}

impl View for PeerStatus {
    type V = PeerView;

    closed spec fn view(&self) -> PeerView {
        PeerView {
            has_sent_public_key: self.has_sent_public_key,
            secret: match self.my_secret {
                Some(k) => Some(k@),
                None => None,
            },
            scalar: self.my_scalar@,
            public_key: self.my_public_key@,
            aes_key: match self.aes_key {
                Some(k) => Some(k@),
                None => None,
            },
        }
    }
}

/// A peer's status is consistent: it still holds its secret exactly until
/// the AES key has been derived, that secret is the one our public key
/// belongs to, and keys have 32 bytes.
pub open spec fn peer_wf(p: PeerView) -> bool {
    &&& p.secret is Some <==> p.aes_key is None
    &&& p.secret matches Some(k) ==> k == p.scalar
    &&& key_pair(p.scalar, p.public_key)
    &&& p.public_key.len() == 32
    &&& p.aes_key matches Some(k) ==> k.len() == 32
}

/// The status of a peer met for the first time.
pub open spec fn fresh_peer(p: PeerView) -> bool {
    &&& !p.has_sent_public_key
    &&& p.secret == Some(p.scalar)
    &&& key_pair(p.scalar, p.public_key)
    &&& p.public_key.len() == 32
    &&& p.aes_key is None
}

impl PeerStatus {
    /// Whether our public key has reached this peer.
    pub fn has_sent_public_key(&self) -> (r: bool)
        ensures
            r == self@.has_sent_public_key,
    {
        self.has_sent_public_key
    }

    /// Our public key for this peer.
    pub fn my_public_key(&self) -> (r: [u8; 32])
        ensures
            r@ == self@.public_key,
    {
        self.my_public_key
    }

    /// The AES key shared with this peer, once derived.
    pub fn aes_key(&self) -> (r: Option<[u8; 32]>)
        ensures
            crate::crypto::opt_key_view(r) == self@.aes_key,
    {
        self.aes_key
    }
}

/// One entry of the peer table.
struct PeerEntry {
    id: String,
    status: PeerStatus,
}

/// The client's state: its id once the server has assigned one, and the
/// peers it has met, in the order it met them.
pub struct ClientData {
    id: Option<String>,
    peers: Vec<PeerEntry>,
}

/// The model of the client's state.
pub struct ClientView {
    pub id: Option<Seq<char>>,
    pub peers: Seq<(Seq<char>, PeerView)>,
}

impl View for ClientData {
    type V = ClientView;

    closed spec fn view(&self) -> ClientView {
        ClientView {
            id: match self.id {
                Some(s) => Some(s@),
                None => None,
            },
            peers: self.peers@.map_values(|e: PeerEntry| (e.id@, e.status@)),
        }
    }
}

/// Whether the peer table has an entry for `id`.
pub open spec fn has_peer(peers: Seq<(Seq<char>, PeerView)>, id: Seq<char>) -> bool {
    exists|i: int| 0 <= i < peers.len() && #[trigger] peers[i].0 == id
}

/// The position of `id` in the peer table, `-1` when absent.
pub open spec fn peer_index(peers: Seq<(Seq<char>, PeerView)>, id: Seq<char>) -> int {
    if has_peer(peers, id) {
        choose|i: int| 0 <= i < peers.len() && #[trigger] peers[i].0 == id
    } else {
        -1
    }
}

/// No id occurs twice in the peer table.
pub open spec fn ids_distinct(peers: Seq<(Seq<char>, PeerView)>) -> bool {
    forall|i: int, j: int| 0 <= i < j < peers.len() ==> #[trigger] peers[i].0 != #[trigger] peers[j].0
}

impl ClientView {
    /// The state is consistent: ids are distinct and every status is.
    pub open spec fn wf(self) -> bool {
        &&& ids_distinct(self.peers)
        &&& forall|i: int| 0 <= i < self.peers.len() ==> peer_wf(#[trigger] self.peers[i].1)
    }
}

/// Whether `mid` is `old` after looking up the status of `peer_id`: the same
/// state when the peer is known, otherwise the peer appended with a fresh
/// status.
pub open spec fn with_peer(old: ClientView, peer_id: Seq<char>, mid: ClientView) -> bool {
    &&& mid.id == old.id
    &&& if has_peer(old.peers, peer_id) {
        mid.peers == old.peers
    } else {
        &&& mid.peers.len() == old.peers.len() + 1
        &&& mid.peers.drop_last() == old.peers
        &&& mid.peers.last().0 == peer_id
        &&& fresh_peer(mid.peers.last().1)
    }
}

/// In a table of distinct ids, an entry with the id is at `peer_index`.
pub proof fn lemma_peer_index(peers: Seq<(Seq<char>, PeerView)>, id: Seq<char>, i: int)
    requires
        ids_distinct(peers),
        0 <= i < peers.len(),
        peers[i].0 == id,
    ensures
        has_peer(peers, id),
        peer_index(peers, id) == i,
{
    assert(has_peer(peers, id));
    let j = peer_index(peers, id);
    if j != i {
        if j < i {
            assert(peers[j].0 != peers[i].0);
        } else {
            assert(peers[i].0 != peers[j].0);
        }
    }
}

impl ClientData {
    /// A client that has no id yet and has met no peer.
    pub fn new() -> (r: Self)
        ensures
            r@.id is None,
            r@.peers.len() == 0,
            r@.wf(),
    {
        let r = ClientData { id: None, peers: Vec::new() };
        assert(r@.peers =~= Seq::<(Seq<char>, PeerView)>::empty());
        r
    }

    /// The id the server assigned to this client.
    pub fn id(&self) -> (r: Option<&String>)
        ensures
            match r {
                Some(s) => self@.id == Some(s@),
                None => self@.id is None,
            },
    {
        match &self.id {
            Some(s) => Some(s),
            None => None,
        }
    }

    /// The number of peers met so far.
    pub fn peer_count(&self) -> (r: usize)
        ensures
            r == self@.peers.len(),
    {
        self.peers.len()
    }

    /// The id and status of the `i`-th peer met.
    pub fn peer(&self, i: usize) -> (r: (&String, &PeerStatus))
        requires
            i < self@.peers.len(),
        ensures
            r.0@ == self@.peers[i as int].0,
            r.1@ == self@.peers[i as int].1,
    {
        (&self.peers[i].id, &self.peers[i].status)
    }

    /// The position of `peer_id` in the peer table, if it is there.
    fn find_peer(&self, peer_id: &str) -> (r: Option<usize>)
        requires
            self@.wf(),
        ensures
            match r {
                Some(i) => i < self@.peers.len() && self@.peers[i as int].0 == peer_id@
                    && has_peer(self@.peers, peer_id@) && peer_index(self@.peers, peer_id@) == i,
                None => !has_peer(self@.peers, peer_id@),
            },
    {
        let n = self.peers.len();
        let mut i: usize = 0;
        while i < n
            invariant
                n == self.peers@.len(),
                i <= n,
                self@.wf(),
                forall|j: int| 0 <= j < i ==> #[trigger] self@.peers[j].0 != peer_id@,
            decreases n - i,
        {
            assert(self@.peers[i as int].0 == self.peers@[i as int].id@);
            if str_eq(self.peers[i].id.as_str(), peer_id) {
                proof {
                    lemma_peer_index(self@.peers, peer_id@, i as int);
                }
                return Some(i);
            }
            i = i + 1;
        }
        None
    }

    /// The position of the status of `peer_id`, creating the status (a fresh
    /// ephemeral secret and its public key, nothing sent, no AES key) when the
    /// peer is met for the first time.
    pub fn get_status(&mut self, peer_id: &str) -> (r: usize)
        requires
            old(self)@.wf(),
        ensures
            final(self)@.wf(),
            with_peer(old(self)@, peer_id@, final(self)@),
            r < final(self)@.peers.len(),
            final(self)@.peers[r as int].0 == peer_id@,
            r == peer_index(final(self)@.peers, peer_id@),
    {
        match self.find_peer(peer_id) {
            Some(i) => i,
            None => {
                let (secret, public_key) = new_keypair();
                let ghost scalar = secret@;
                let status = PeerStatus {
                    has_sent_public_key: false,
                    my_secret: Some(secret),
                    my_scalar: Ghost(scalar),
                    my_public_key: public_key,
                    aes_key: None,
                };
                let ghost old_peers = self@.peers;
                self.peers.push(PeerEntry { id: peer_id.to_owned(), status });
                let i = self.peers.len() - 1;
                proof {
                    assert(self@.peers =~= old_peers.push((peer_id@, status@)));
                    assert(self@.peers.drop_last() =~= old_peers);
                    lemma_peer_index(self@.peers, peer_id@, i as int);
                }
                i
            },
        }
    }
}

/// Something the client must do after handling a message.
pub enum ClientEffect {
    /// Send a `KeyExchange` message carrying our public key to a peer; once
    /// it has been written, or the writing failed, report it with
    /// `record_key_exchange_write`.
    SendKeyExchange { sender_id: String, recipient_id: String, public_key: String },
    /// Print a line under a label.
    Print { label: Label, text: String },
}

/// The model of a client effect.
pub enum EffectView {
    SendKeyExchange { sender_id: Seq<char>, recipient_id: Seq<char>, public_key: Seq<char> },
    Print { label: Label, text: Seq<char> },
}

impl View for ClientEffect {
    type V = EffectView;

    open spec fn view(&self) -> EffectView {
        match self {
            ClientEffect::SendKeyExchange { sender_id, recipient_id, public_key } => EffectView::SendKeyExchange {
                sender_id: sender_id@,
                recipient_id: recipient_id@,
                public_key: public_key@,
            },
            ClientEffect::Print { label, text } => EffectView::Print { label: *label, text: text@ },
        }
    }
}

/// The models of a list of effects.
pub open spec fn effects_view(effects: Seq<ClientEffect>) -> Seq<EffectView> {
    effects.map_values(|e: ClientEffect| e@)
}

/// `t` is the debug line that shows the derived AES key `k`: the words
/// `Derived AES key: ` and the key's base64 text, highlighted.
pub open spec fn is_derived_key_line(t: Seq<char>, k: Seq<u8>) -> bool {
    exists|h: Seq<char>| #[trigger] is_shown_highlight(h, base64_encode_spec(k)) && t == "Derived AES key: "@ + h
}

/// What a key exchange does once `mid` holds a status for `peer_id` and the
/// client's own id is `my_id`. When the peer's public key came with the
/// message and our secret is still held, the secret is consumed and the AES
/// key derived (and shown as a debug line); in any case, unless our public
/// key has already been sent to the peer, a `KeyExchange` carrying it is
/// sent. Nothing else changes.
pub open spec fn key_exchange_step(
    mid: ClientView,
    my_id: Seq<char>,
    peer_id: Seq<char>,
    peer_public_key: Option<Seq<u8>>,
    new: ClientView,
    effects: Seq<EffectView>,
) -> bool {
    let i = peer_index(mid.peers, peer_id);
    let p = mid.peers[i].1;
    let q = new.peers[i].1;
    let derive = peer_public_key is Some && p.secret is Some;
    let send = !p.has_sent_public_key;
    &&& new.id == mid.id
    &&& new.peers.len() == mid.peers.len()
    &&& forall|j: int| 0 <= j < mid.peers.len() && j != i ==> #[trigger] new.peers[j] == mid.peers[j]
    &&& new.peers[i].0 == peer_id
    &&& if derive {
        &&& q.has_sent_public_key == p.has_sent_public_key
        &&& q.public_key == p.public_key
        &&& q.scalar == p.scalar
        &&& q.secret is None
        &&& q.aes_key == Some(spec_aes_key(x25519_spec(p.scalar, peer_public_key->0)))
        &&& spec_aes_key(x25519_spec(p.scalar, peer_public_key->0)).len() == 32
    } else {
        q == p
    }
    &&& effects.len() == (if derive { 1int } else { 0int }) + (if send { 1int } else { 0int })
    &&& derive ==> (effects[0] matches EffectView::Print { label: Label::Debug, text }
        && is_derived_key_line(text, q.aes_key->0))
    &&& send ==> effects.last() == EffectView::SendKeyExchange {
        sender_id: my_id,
        recipient_id: peer_id,
        public_key: base64_encode_spec(p.public_key),
    }
}

/// What a key exchange with `peer_id` does to the client state `old`:
/// nothing before the server has assigned an id; otherwise the peer's status
/// is looked up (created on first contact) and `key_exchange_step` applies.
pub open spec fn key_exchange_rel(
    old: ClientView,
    peer_id: Seq<char>,
    peer_public_key: Option<Seq<u8>>,
    new: ClientView,
    effects: Seq<EffectView>,
) -> bool {
    match old.id {
        None => new == old && effects.len() == 0,
        Some(my_id) => exists|mid: ClientView|
            #[trigger] with_peer(old, peer_id, mid) && mid.wf()
                && key_exchange_step(mid, my_id, peer_id, peer_public_key, new, effects),
    }
}

/// What `decrypt_message_checked` gives.
pub open spec fn spec_decrypt_checked(key: Seq<u8>, nonce: Seq<char>, ciphertext: Seq<char>) -> Option<Seq<char>> {
    if nonce_length_mismatch(nonce, ciphertext) {
        None
    } else {
        spec_decrypt_message(key, nonce, ciphertext)
    }
}

/// `t` is the line that shows a received chat message: the sender's id and
/// a colon highlighted, a space, the text.
pub open spec fn is_received_line(t: Seq<char>, sender: Seq<char>, plaintext: Seq<char>) -> bool {
    exists|h: Seq<char>| #[trigger] is_shown_highlight(h, sender + seq![':']) && t == h + seq![' '] + plaintext
}

/// What receiving an encrypted message from `sender` does: the sender's
/// status is looked up (created on first contact); when an AES key is shared
/// with the sender and the message decrypts under it, the plaintext is shown.
pub open spec fn receive_rel(
    old: ClientView,
    sender: Seq<char>,
    ciphertext: Seq<char>,
    nonce: Seq<char>,
    new: ClientView,
    effects: Seq<EffectView>,
) -> bool {
    &&& with_peer(old, sender, new)
    &&& match new.peers[peer_index(new.peers, sender)].1.aes_key {
        None => effects.len() == 0,
        Some(k) => match spec_decrypt_checked(k, nonce, ciphertext) {
            None => effects.len() == 0,
            Some(pt) => effects.len() == 1 && (effects[0] matches EffectView::Print { label: Label::Info, text }
                && is_received_line(text, sender, pt)),
        },
    }
}

/// A received chat message is shown with its sender: the one line it makes
/// holds the sender's id and a colon, and after them a space and the
/// decrypted text, which ends the line.
pub proof fn lemma_received_line_names_sender(
    old: ClientView,
    sender: Seq<char>,
    ciphertext: Seq<char>,
    nonce: Seq<char>,
    new: ClientView,
    effects: Seq<EffectView>,
)
    requires
        receive_rel(old, sender, ciphertext, nonce, new, effects),
        effects.len() > 0,
    ensures
        effects.len() == 1,
        effects[0] matches EffectView::Print { label: Label::Info, text } && (
        new.peers[peer_index(new.peers, sender)].1.aes_key matches Some(k)
            && spec_decrypt_checked(k, nonce, ciphertext) matches Some(pt) && {
            &&& text.len() >= pt.len() + 1
            &&& text.subrange(text.len() - pt.len() - 1, text.len() as int) == seq![' '] + pt
            &&& exists|i: int|
                0 <= i && i + sender.len() + 1 <= text.len() - pt.len() - 1
                    && #[trigger] text.subrange(i, i + sender.len() + 1) == sender + seq![':']
        }),
{
    let k = new.peers[peer_index(new.peers, sender)].1.aes_key->0;
    let pt = spec_decrypt_checked(k, nonce, ciphertext)->0;
    let text = effects[0]->Print_text;
    let w = sender + seq![':'];
    let h = choose|h: Seq<char>| #[trigger] is_shown_highlight(h, w) && text == h + seq![' '] + pt;
    let c = h == styled_highlight(true, w);
    let colour = if c { seq!['3', '8', ';', '5', ';', '1', '1'] } else { Seq::<char>::empty() };
    let pre = crate::ansi::sgr(colour) + crate::ansi::sgr(seq!['1']);
    assert(h == pre + w + crate::ansi::sgr(seq!['0']));
    let i = pre.len() as int;
    assert(text.subrange(i, i + sender.len() + 1) =~= w);
    assert(i + sender.len() + 1 <= text.len() - pt.len() - 1);
    assert(text.subrange(text.len() - pt.len() - 1, text.len() as int) =~= seq![' '] + pt);
}

/// How the client reacts to a message the server relays: an id assignment
/// records the id; a join announcement starts a key exchange with the new
/// peer; a key exchange addressed to us, carrying a valid public key,
/// completes ours; an encrypted message addressed to us is decrypted and
/// shown. Anything else, and anything addressed to another client, changes
/// nothing.
pub open spec fn handle_read_rel(old: ClientView, msg: Message, new: ClientView, effects: Seq<EffectView>) -> bool {
    match msg {
        Message::AssignId { id } => new.id == Some(id@) && new.peers == old.peers && effects.len() == 0,
        Message::AnnounceJoin { id, .. } => key_exchange_rel(old, id@, None, new, effects),
        Message::KeyExchange { sender_id, recipient_id, public_key } => {
            if old.id == Some(recipient_id@) {
                match spec_public_key_from_text(encode_utf8(public_key@)) {
                    Some(pk) => key_exchange_rel(old, sender_id@, Some(pk), new, effects),
                    None => new == old && effects.len() == 0,
                }
            } else {
                new == old && effects.len() == 0
            }
        },
        Message::Encrypted { sender_id, recipient_id, ciphertext, nonce } => {
            if old.id == Some(recipient_id@) {
                receive_rel(old, sender_id@, ciphertext@, nonce@, new, effects)
            } else {
                new == old && effects.len() == 0
            }
        },
        _ => new == old && effects.len() == 0,
    }
}

/// `with_peer` keeps the state consistent.
proof fn lemma_with_peer_wf(old: ClientView, peer_id: Seq<char>, mid: ClientView)
    requires
        old.wf(),
        with_peer(old, peer_id, mid),
        mid.peers[peer_index(mid.peers, peer_id)].0 == peer_id,
        0 <= peer_index(mid.peers, peer_id) < mid.peers.len(),
    ensures
        mid.wf(),
{
    if !has_peer(old.peers, peer_id) {
        assert forall|i: int, j: int| 0 <= i < j < mid.peers.len() implies #[trigger] mid.peers[i].0 != #[trigger] mid.peers[j].0 by {
            if j == mid.peers.len() - 1 {
                assert(old.peers[i] == mid.peers[i]);
                if old.peers[i].0 == peer_id {
                    assert(has_peer(old.peers, peer_id));
                }
            } else {
                assert(old.peers[i] == mid.peers[i]);
                assert(old.peers[j] == mid.peers[j]);
            }
        }
        assert forall|i: int| 0 <= i < mid.peers.len() implies peer_wf(#[trigger] mid.peers[i].1) by {
            if i < mid.peers.len() - 1 {
                assert(old.peers[i] == mid.peers[i]);
            }
        }
    }
}

impl ClientData {
    /// The model of the `i`-th entry of the peer table.
    proof fn lemma_entry_view(&self, i: int)
        requires
            0 <= i < self.peers@.len(),
        ensures
            self@.peers[i] == (self.peers@[i].id@, self.peers@[i].status@),
            self@.peers.len() == self.peers@.len(),
    {
    }

    /// Runs a key exchange with `peer_id`; `peer_public_key` is the peer's
    /// public key when its `KeyExchange` message brought it.
    pub fn do_key_exchange(&mut self, peer_id: &str, peer_public_key: Option<[u8; 32]>) -> (r: Vec<ClientEffect>)
        requires
            old(self)@.wf(),
        ensures
            final(self)@.wf(),
            key_exchange_rel(old(self)@, peer_id@, crate::crypto::opt_key_view(peer_public_key), final(self)@, effects_view(r@)),
    {
        let mut effects: Vec<ClientEffect> = Vec::new();
        let my_id = match &self.id {
            Some(s) => s.clone(),
            None => {
                assert(effects_view(effects@) =~= Seq::<EffectView>::empty());
                return effects;
            },
        };
        let ghost old_view = self@;
        let i = self.get_status(peer_id);
        let ghost mid = self@;
        proof {
            lemma_with_peer_wf(old_view, peer_id@, mid);
            self.lemma_entry_view(i as int);
        }
        let ghost p = mid.peers[i as int].1;
        match peer_public_key {
            Some(ppk) => {
                let taken = self.peers[i].status.my_secret.take();
                match taken {
                    Some(secret) => {
                        let aes_key = derive_aes_key(secret, &ppk);
                        let key_text = base64_encode(&aes_key);
                        let shown = highlight_shown(key_text.as_str());
                        let mut text = String::new();
                        push_str(&mut text, "Derived AES key: ");
                        push_str(&mut text, shown.as_str());
                        assert(is_derived_key_line(text@, aes_key@));
                        effects.push(ClientEffect::Print { label: Label::Debug, text });
                        self.peers[i].status.aes_key = Some(aes_key);
                    },
                    None => {},
                }
            },
            None => {},
        }
        proof {
            self.lemma_entry_view(i as int);
        }
        if !self.peers[i].status.has_sent_public_key {
            let public_key = public_key_text(&self.peers[i].status.my_public_key);
            effects.push(ClientEffect::SendKeyExchange {
                sender_id: my_id,
                recipient_id: peer_id.to_owned(),
                public_key,
            });
        }
        proof {
            let new = self@;
            assert forall|j: int| 0 <= j < mid.peers.len() && j != i implies #[trigger] new.peers[j] == mid.peers[j] by {
                self.lemma_entry_view(j);
            }
            self.lemma_entry_view(i as int);
            let q = new.peers[i as int].1;
            let derive = crate::crypto::opt_key_view(peer_public_key) is Some && p.secret is Some;
            assert(new.id == mid.id);
            assert(new.peers.len() == mid.peers.len());
            assert(new.peers[i as int].0 == peer_id@);
            if derive {
                assert(q.has_sent_public_key == p.has_sent_public_key);
                assert(q.public_key == p.public_key);
                assert(q.scalar == p.scalar);
                assert(q.secret is None);
            } else {
                assert(q == p);
            }
            assert(key_exchange_step(mid, my_id@, peer_id@, crate::crypto::opt_key_view(peer_public_key), new, effects_view(effects@)));
            assert(with_peer(old_view, peer_id@, mid) && mid.wf());
        }
        effects
    }
}

impl ClientData {
    /// Receives an encrypted message from `peer_id`: shows its plaintext when
    /// an AES key is shared with the peer and the message decrypts.
    pub fn recv_encrypted(&mut self, peer_id: &str, ciphertext: &str, nonce: &str) -> (r: Vec<ClientEffect>)
        requires
            old(self)@.wf(),
        ensures
            final(self)@.wf(),
            receive_rel(old(self)@, peer_id@, ciphertext@, nonce@, final(self)@, effects_view(r@)),
    {
        let ghost old_view = self@;
        let i = self.get_status(peer_id);
        proof {
            self.lemma_entry_view(i as int);
        }
        let mut effects: Vec<ClientEffect> = Vec::new();
        match self.peers[i].status.aes_key {
            Some(aes_key) => {
                match decrypt_message_checked(&aes_key, nonce, ciphertext) {
                    Some(plaintext) => {
                        let mut who = String::new();
                        push_str(&mut who, peer_id);
                        push_char(&mut who, ':');
                        let shown = highlight_shown(who.as_str());
                        let mut text = String::new();
                        push_str(&mut text, shown.as_str());
                        push_char(&mut text, ' ');
                        push_str(&mut text, plaintext.as_str());
                        assert(who@ =~= peer_id@ + seq![':']);
                        assert(text@ =~= shown@ + seq![' '] + plaintext@);
                        assert(is_received_line(text@, peer_id@, plaintext@));
                        effects.push(ClientEffect::Print { label: Label::Info, text });
                        assert(effects_view(effects@).len() == 1);
                        assert(effects_view(effects@)[0] == EffectView::Print { label: Label::Info, text: text@ });
                    },
                    None => {
                        assert(effects_view(effects@) =~= Seq::<EffectView>::empty());
                    },
                }
            },
            None => {
                assert(effects_view(effects@) =~= Seq::<EffectView>::empty());
            },
        }
        effects
    }

    /// Handles one message relayed by the server.
    pub fn handle_read(&mut self, msg: Message) -> (r: Vec<ClientEffect>)
        requires
            old(self)@.wf(),
        ensures
            final(self)@.wf(),
            handle_read_rel(old(self)@, msg, final(self)@, effects_view(r@)),
    {
        let none: Vec<ClientEffect> = Vec::new();
        assert(effects_view(none@) =~= Seq::<EffectView>::empty());
        match msg {
            Message::AssignId { id } => {
                let ghost before = self@;
                self.id = Some(id);
                assert(self@.peers == before.peers);
                none
            },
            Message::AnnounceJoin { id, .. } => self.do_key_exchange(id.as_str(), None),
            Message::KeyExchange { sender_id, recipient_id, public_key } => {
                let mine = match &self.id {
                    Some(my_id) => *my_id == recipient_id,
                    None => false,
                };
                if !mine {
                    return none;
                }
                match get_public_key_from_bytes(public_key.as_str().as_bytes()) {
                    Some(pk) => self.do_key_exchange(sender_id.as_str(), Some(pk)),
                    None => none,
                }
            },
            Message::Encrypted { sender_id, recipient_id, ciphertext, nonce } => {
                let mine = match &self.id {
                    Some(my_id) => *my_id == recipient_id,
                    None => false,
                };
                if !mine {
                    return none;
                }
                self.recv_encrypted(sender_id.as_str(), ciphertext.as_str(), nonce.as_str())
            },
            _ => none,
        }
    }

    /// Records whether the `KeyExchange` carrying our public key was written
    /// to `peer_id`: once it was, the key counts as sent and is not offered
    /// again; when the writing failed, nothing changes and the next key
    /// exchange with the peer offers it again.
    pub fn record_key_exchange_write(&mut self, peer_id: &str, written: bool)
        requires
            old(self)@.wf(),
        ensures
            final(self)@.wf(),
            sent_recorded(old(self)@, peer_id@, written, final(self)@),
    {
        if !written {
            return;
        }
        let ghost old_view = self@;
        match self.find_peer(peer_id) {
            Some(i) => {
                proof {
                    self.lemma_entry_view(i as int);
                }
                self.peers[i].status.has_sent_public_key = true;
                proof {
                    self.lemma_entry_view(i as int);
                    let p = old_view.peers[i as int].1;
                    assert(self@.peers =~= old_view.peers.update(
                        i as int,
                        (peer_id@, PeerView { has_sent_public_key: true, ..p }),
                    ));
                    assert forall|j: int| 0 <= j < self@.peers.len() implies peer_wf(#[trigger] self@.peers[j].1) by {
                        if j != i {
                            assert(self@.peers[j] == old_view.peers[j]);
                        }
                    }
                    assert(ids_distinct(self@.peers)) by {
                        assert forall|a: int, b: int| 0 <= a < b < self@.peers.len() implies #[trigger] self@.peers[a].0 != #[trigger] self@.peers[b].0 by {
                            assert(self@.peers[a].0 == old_view.peers[a].0);
                            assert(self@.peers[b].0 == old_view.peers[b].0);
                        }
                    }
                }
            },
            None => {},
        }
    }
}

/// `new` is `old` after recording whether our public key was written to
/// `peer_id`: when it was, and the peer is known, its status says that the
/// key has been sent; nothing else changes.
pub open spec fn sent_recorded(old: ClientView, peer_id: Seq<char>, written: bool, new: ClientView) -> bool {
    &&& new.id == old.id
    &&& if written && has_peer(old.peers, peer_id) {
        let i = peer_index(old.peers, peer_id);
        new.peers == old.peers.update(i, (peer_id, PeerView { has_sent_public_key: true, ..old.peers[i].1 }))
    } else {
        new.peers == old.peers
    }
}

/// A plaintext that one encryption can take: short enough for AES-GCM, and
/// for the base64 text of its ciphertext to have a length that fits in `usize`.
pub open spec fn plaintext_fits(plaintext: Seq<char>) -> bool {
    &&& encode_utf8(plaintext).len() <= AES_GCM_MAX_PLAINTEXT
    &&& base64_encoded_len(encode_utf8(plaintext).len() + 16) <= usize::MAX
}

/// Whether `plaintext` is short enough to be encrypted.
pub fn can_encrypt(plaintext: &str) -> (r: bool)
    ensures
        r == plaintext_fits(plaintext@),
{
    let n = plaintext.as_bytes().len();
    if n as u64 > AES_GCM_MAX_PLAINTEXT {
        return false;
    }
    let m: u128 = n as u128 + 16;
    let tail: u128 = if m % 3 > 0 { 4 } else { 0 };
    let encoded: u128 = (m / 3) * 4 + tail;
    encoded <= usize::MAX as u128
}

/// The two base64 texts are an encryption of `plaintext` under `key`: a
/// 12-byte nonce and the AES-GCM sealing of the plaintext's UTF-8 bytes with
/// it; decrypting them with `key` gives the plaintext back.
pub open spec fn encrypted_for(key: Seq<u8>, plaintext: Seq<char>, nonce_text: Seq<char>, ct_text: Seq<char>) -> bool {
    &&& exists|nonce: Seq<u8>|
        #![trigger base64_encode_spec(nonce)]
        {
            &&& nonce.len() == 12
            &&& nonce_text == base64_encode_spec(nonce)
            &&& ct_text == base64_encode_spec(aes256gcm_seal_spec(key, nonce, encode_utf8(plaintext)))
        }
    &&& spec_decrypt_message(key, nonce_text, ct_text) == Some(plaintext)
}

/// `msg` is the encrypted chat message from `sender` to `recipient` that
/// carries `plaintext` under `key`.
pub open spec fn is_encrypted_message(msg: Message, sender: Seq<char>, recipient: Seq<char>, key: Seq<u8>, plaintext: Seq<char>) -> bool {
    msg matches Message::Encrypted { sender_id, recipient_id, ciphertext, nonce }
        && sender_id@ == sender && recipient_id@ == recipient
        && encrypted_for(key, plaintext, nonce@, ciphertext@)
}

/// The peers with which an AES key is shared, in the order they were met.
pub open spec fn keyed_peers(peers: Seq<(Seq<char>, PeerView)>) -> Seq<(Seq<char>, PeerView)> {
    peers.filter(|e: (Seq<char>, PeerView)| e.1.aes_key is Some)
}

impl ClientData {
    /// Encrypts `plaintext` for `peer_id`, when the client has an id and an
    /// AES key is shared with the peer (whose status is created on first
    /// contact).
    pub fn send_encrypted(&mut self, peer_id: &str, plaintext: &str) -> (r: Option<Message>)
        requires
            old(self)@.wf(),
            plaintext_fits(plaintext@),
        ensures
            final(self)@.wf(),
            old(self)@.id is None ==> final(self)@ == old(self)@ && r is None,
            old(self)@.id matches Some(my_id) ==> {
                &&& with_peer(old(self)@, peer_id@, final(self)@)
                &&& match final(self)@.peers[peer_index(final(self)@.peers, peer_id@)].1.aes_key {
                    None => r is None,
                    Some(k) => r matches Some(m) && is_encrypted_message(m, my_id, peer_id@, k, plaintext@),
                }
            },
    {
        let my_id = match &self.id {
            Some(s) => s.clone(),
            None => return None,
        };
        let ghost old_view = self@;
        let i = self.get_status(peer_id);
        proof {
            self.lemma_entry_view(i as int);
        }
        match self.peers[i].status.aes_key {
            Some(aes_key) => {
                let (nonce, ciphertext) = encrypt_message(&aes_key, plaintext);
                Some(Message::Encrypted {
                    sender_id: my_id,
                    recipient_id: peer_id.to_owned(),
                    ciphertext,
                    nonce,
                })
            },
            None => None,
        }
    }

    /// Encrypts `plaintext` for every peer with which an AES key is shared,
    /// in the order the peers were met. Nothing before the server has
    /// assigned an id. The state does not change.
    pub fn messages_for_peers(&mut self, plaintext: &str) -> (r: Vec<Message>)
        requires
            old(self)@.wf(),
            plaintext_fits(plaintext@),
        ensures
            final(self)@ == old(self)@,
            old(self)@.id is None ==> r@.len() == 0,
            old(self)@.id matches Some(my_id) ==> {
                let keyed = keyed_peers(old(self)@.peers);
                &&& r@.len() == keyed.len()
                &&& forall|j: int| 0 <= j < keyed.len() ==> is_encrypted_message(
                    #[trigger] r@[j],
                    my_id,
                    keyed[j].0,
                    keyed[j].1.aes_key->0,
                    plaintext@,
                )
            },
    {
        let mut out: Vec<Message> = Vec::new();
        if self.id.is_none() {
            return out;
        }
        let ghost start = self@;
        let ghost my_id = start.id->0;
        let n = self.peers.len();
        let mut i: usize = 0;
        while i < n
            invariant
                self@ == start,
                start.wf(),
                start.id == Some(my_id),
                plaintext_fits(plaintext@),
                n == self.peers@.len(),
                n == start.peers.len(),
                i <= n,
                out@.len() == keyed_peers(start.peers.take(i as int)).len(),
                forall|j: int| 0 <= j < out@.len() ==> is_encrypted_message(
                    #[trigger] out@[j],
                    my_id,
                    keyed_peers(start.peers.take(i as int))[j].0,
                    keyed_peers(start.peers.take(i as int))[j].1.aes_key->0,
                    plaintext@,
                ),
            decreases n - i,
        {
            proof {
                self.lemma_entry_view(i as int);
                lemma_peer_index(start.peers, start.peers[i as int].0, i as int);
                reveal(Seq::filter);
                assert(start.peers.take(i + 1).drop_last() =~= start.peers.take(i as int));
            }
            let peer_id = self.peers[i].id.clone();
            let sent = self.send_encrypted(peer_id.as_str(), plaintext);
            match sent {
                Some(m) => {
                    out.push(m);
                },
                None => {},
            }
            i = i + 1;
        }
        proof {
            assert(start.peers.take(n as int) =~= start.peers);
        }
        out
    }
}

/// `new` extends `old`: every peer of `old` keeps its place, id, public key
/// (and the secret it belongs to), sending record, and an AES key once derived stays the same.
pub open spec fn extends(old: ClientView, new: ClientView) -> bool {
    &&& old.peers.len() <= new.peers.len()
    &&& forall|i: int|
        #![trigger new.peers[i]]
        0 <= i < old.peers.len() ==> {
            &&& new.peers[i].0 == old.peers[i].0
            &&& new.peers[i].1.public_key == old.peers[i].1.public_key
            &&& new.peers[i].1.scalar == old.peers[i].1.scalar
            &&& new.peers[i].1.has_sent_public_key == old.peers[i].1.has_sent_public_key
            &&& (old.peers[i].1.aes_key is Some ==> new.peers[i].1.aes_key == old.peers[i].1.aes_key)
        }
}

proof fn lemma_with_peer_extends(old: ClientView, peer_id: Seq<char>, mid: ClientView)
    requires
        with_peer(old, peer_id, mid),
    ensures
        extends(old, mid),
{
    if !has_peer(old.peers, peer_id) {
        assert forall|i: int| 0 <= i < old.peers.len() implies #[trigger] mid.peers[i] == old.peers[i] by {
            assert(mid.peers.drop_last()[i] == mid.peers[i]);
        }
    }
}

/// Handling a message never forgets or reorders a peer, never changes our
/// public key for a peer or the record of having sent it, and never changes
/// an AES key once it has been derived.
pub proof fn lemma_handle_read_extends(old: ClientView, msg: Message, new: ClientView, effects: Seq<EffectView>)
    requires
        old.wf(),
        handle_read_rel(old, msg, new, effects),
    ensures
        extends(old, new),
{
    match msg {
        Message::AnnounceJoin { id, .. } => {
            lemma_key_exchange_extends(old, id@, None, new, effects);
        },
        Message::KeyExchange { sender_id, recipient_id, public_key } => {
            if old.id == Some(recipient_id@) {
                match spec_public_key_from_text(encode_utf8(public_key@)) {
                    Some(pk) => lemma_key_exchange_extends(old, sender_id@, Some(pk), new, effects),
                    None => {},
                }
            }
        },
        Message::Encrypted { sender_id, recipient_id, .. } => {
            if old.id == Some(recipient_id@) {
                lemma_with_peer_extends(old, sender_id@, new);
            }
        },
        _ => {},
    }
}

/// A key exchange extends the state.
pub proof fn lemma_key_exchange_extends(
    old: ClientView,
    peer_id: Seq<char>,
    peer_public_key: Option<Seq<u8>>,
    new: ClientView,
    effects: Seq<EffectView>,
)
    requires
        old.wf(),
        key_exchange_rel(old, peer_id, peer_public_key, new, effects),
    ensures
        extends(old, new),
{
    if let Some(my_id) = old.id {
        let mid = choose|mid: ClientView|
            #[trigger] with_peer(old, peer_id, mid) && mid.wf()
                && key_exchange_step(mid, my_id, peer_id, peer_public_key, new, effects);
        lemma_with_peer_extends(old, peer_id, mid);
        let i = peer_index(mid.peers, peer_id);
        assert(has_peer(mid.peers, peer_id)) by {
            if has_peer(old.peers, peer_id) {
            } else {
                assert(mid.peers[mid.peers.len() - 1].0 == peer_id);
            }
        }
        assert forall|j: int| 0 <= j < old.peers.len() implies {
            &&& #[trigger] new.peers[j].0 == old.peers[j].0
            &&& new.peers[j].1.public_key == old.peers[j].1.public_key
            &&& new.peers[j].1.scalar == old.peers[j].1.scalar
            &&& new.peers[j].1.has_sent_public_key == old.peers[j].1.has_sent_public_key
            &&& (old.peers[j].1.aes_key is Some ==> new.peers[j].1.aes_key == old.peers[j].1.aes_key)
        } by {
            assert(mid.peers[j].0 == old.peers[j].0);
            if j != i {
                assert(new.peers[j] == mid.peers[j]);
            } else {
                assert(peer_wf(mid.peers[j].1));
            }
        }
    }
}

/// Messages addressed to another client change nothing and cause nothing.
pub proof fn lemma_foreign_messages_ignored(old: ClientView, msg: Message, new: ClientView, effects: Seq<EffectView>)
    requires
        handle_read_rel(old, msg, new, effects),
        match msg {
            Message::KeyExchange { recipient_id, .. } => old.id != Some(recipient_id@),
            Message::Encrypted { recipient_id, .. } => old.id != Some(recipient_id@),
            _ => false,
        },
    ensures
        new == old,
        effects.len() == 0,
{
}

/// Our public key is offered to a peer only while it has not been sent: a
/// key exchange with a peer to which it was sent causes no `KeyExchange`.
pub proof fn lemma_public_key_sent_once(
    old: ClientView,
    peer_id: Seq<char>,
    peer_public_key: Option<Seq<u8>>,
    new: ClientView,
    effects: Seq<EffectView>,
)
    requires
        old.wf(),
        key_exchange_rel(old, peer_id, peer_public_key, new, effects),
        has_peer(old.peers, peer_id),
        old.peers[peer_index(old.peers, peer_id)].1.has_sent_public_key,
    ensures
        forall|k: int| 0 <= k < effects.len() ==> !(#[trigger] effects[k] is SendKeyExchange),
{
    if let Some(my_id) = old.id {
        let mid = choose|mid: ClientView|
            #[trigger] with_peer(old, peer_id, mid) && mid.wf()
                && key_exchange_step(mid, my_id, peer_id, peer_public_key, new, effects);
        assert(mid.peers == old.peers);
    }
}

/// `effects` offer our public key to `peer_id`: one of them is a
/// `KeyExchange` addressed to it.
pub open spec fn offers_key_to(effects: Seq<EffectView>, peer_id: Seq<char>) -> bool {
    exists|k: int|
        0 <= k < effects.len() && (#[trigger] effects[k] matches EffectView::SendKeyExchange { recipient_id, .. }
            && recipient_id == peer_id)
}

/// Our public key has been sent to `peer_id`, as the state `s` records it.
pub open spec fn key_sent_to(s: ClientView, peer_id: Seq<char>) -> bool {
    has_peer(s.peers, peer_id) && s.peers[peer_index(s.peers, peer_id)].1.has_sent_public_key
}

/// A key exchange offers our public key to no peer to which it was sent.
pub proof fn lemma_key_exchange_offers_only_unsent(
    old: ClientView,
    peer_id: Seq<char>,
    peer_public_key: Option<Seq<u8>>,
    new: ClientView,
    effects: Seq<EffectView>,
    other: Seq<char>,
)
    requires
        old.wf(),
        key_exchange_rel(old, peer_id, peer_public_key, new, effects),
        key_sent_to(old, other),
    ensures
        !offers_key_to(effects, other),
{
    if other == peer_id {
        lemma_public_key_sent_once(old, peer_id, peer_public_key, new, effects);
    } else if let Some(my_id) = old.id {
        let mid = choose|mid: ClientView|
            #[trigger] with_peer(old, peer_id, mid) && mid.wf()
                && key_exchange_step(mid, my_id, peer_id, peer_public_key, new, effects);
        assert forall|k: int| 0 <= k < effects.len() && #[trigger] effects[k] is SendKeyExchange implies
            effects[k] == effects.last() by {
            let p = mid.peers[peer_index(mid.peers, peer_id)].1;
            if peer_public_key is Some && p.secret is Some {
                assert(effects[0] is Print);
            }
        }
    }
}

/// Handling a message offers our public key to no peer to which it was sent.
pub proof fn lemma_read_offers_only_unsent(
    old: ClientView,
    msg: Message,
    new: ClientView,
    effects: Seq<EffectView>,
    other: Seq<char>,
)
    requires
        old.wf(),
        handle_read_rel(old, msg, new, effects),
        key_sent_to(old, other),
    ensures
        !offers_key_to(effects, other),
{
    match msg {
        Message::AnnounceJoin { id, .. } => {
            lemma_key_exchange_offers_only_unsent(old, id@, None, new, effects, other);
        },
        Message::KeyExchange { sender_id, recipient_id, public_key } => {
            if old.id == Some(recipient_id@) {
                match spec_public_key_from_text(encode_utf8(public_key@)) {
                    Some(pk) => lemma_key_exchange_offers_only_unsent(old, sender_id@, Some(pk), new, effects, other),
                    None => {},
                }
            }
        },
        Message::Encrypted { .. } => {
            if effects.len() == 1 {
                assert(effects[0] is Print);
            }
        },
        _ => {},
    }
}

/// One step in the life of a client: handling a relayed message, which
/// produced `effects`, or recording whether the key exchange for `peer_id`
/// was written.
pub enum ClientStep {
    Read { msg: Message, effects: Seq<EffectView> },
    Record { peer_id: Seq<char>, written: bool },
}

/// What a step does to the client state.
pub open spec fn step_rel(old: ClientView, step: ClientStep, new: ClientView) -> bool {
    match step {
        ClientStep::Read { msg, effects } => handle_read_rel(old, msg, new, effects),
        ClientStep::Record { peer_id, written } => sent_recorded(old, peer_id, written, new),
    }
}

/// `states` are the consistent states a client passes through as it takes
/// `steps`, one after the other.
pub open spec fn is_run(states: Seq<ClientView>, steps: Seq<ClientStep>) -> bool {
    &&& states.len() == steps.len() + 1
    &&& forall|i: int| 0 <= i < states.len() ==> (#[trigger] states[i]).wf()
    &&& forall|i: int| 0 <= i < steps.len() ==> step_rel(states[i], #[trigger] steps[i], states[i + 1])
}

/// Once our public key is recorded as sent to a peer, it stays recorded.
proof fn lemma_key_sent_kept(old: ClientView, step: ClientStep, new: ClientView, peer_id: Seq<char>)
    requires
        old.wf(),
        new.wf(),
        step_rel(old, step, new),
        key_sent_to(old, peer_id),
    ensures
        key_sent_to(new, peer_id),
{
    let i = peer_index(old.peers, peer_id);
    match step {
        ClientStep::Read { msg, effects } => {
            lemma_handle_read_extends(old, msg, new, effects);
            assert(new.peers[i].0 == old.peers[i].0);
        },
        ClientStep::Record { peer_id: q, written } => {},
    }
    assert(new.peers[i].0 == peer_id);
    lemma_peer_index(new.peers, peer_id, i);
}

/// Along a run, a record of our key as sent made at step `i` still holds
/// at every later state `m`.
proof fn lemma_key_sent_persists(states: Seq<ClientView>, steps: Seq<ClientStep>, i: int, m: int, peer_id: Seq<char>)
    requires
        is_run(states, steps),
        0 <= i < m < states.len(),
        key_sent_to(states[i + 1], peer_id),
    ensures
        key_sent_to(states[m], peer_id),
    decreases m - i,
{
    if m > i + 1 {
        lemma_key_sent_persists(states, steps, i, m - 1, peer_id);
        lemma_key_sent_kept(states[m - 1], steps[m - 1], states[m], peer_id);
    }
}

/// Our public key reaches a peer at most once: after a step that records
/// the `KeyExchange` to a known peer as written, no later step offers our
/// public key to that peer again.
pub proof fn lemma_key_offered_once(states: Seq<ClientView>, steps: Seq<ClientStep>, i: int, j: int, peer_id: Seq<char>)
    requires
        is_run(states, steps),
        0 <= i < j < steps.len(),
        steps[i] == (ClientStep::Record { peer_id, written: true }),
        has_peer(states[i].peers, peer_id),
    ensures
        steps[j] matches ClientStep::Read { effects, .. } ==> !offers_key_to(effects, peer_id),
{
    let s = states[i];
    let t = states[i + 1];
    let k = peer_index(s.peers, peer_id);
    assert(step_rel(s, steps[i], t));
    assert(t.peers[k].0 == peer_id);
    lemma_peer_index(t.peers, peer_id, k);
    lemma_key_sent_persists(states, steps, i, j, peer_id);
    if let ClientStep::Read { msg, effects } = steps[j] {
        assert(step_rel(states[j], steps[j], states[j + 1]));
        lemma_read_offers_only_unsent(states[j], msg, states[j + 1], effects, peer_id);
    }
}

/// A key exchange that brings the peer's public key leaves an AES key shared
/// with the peer, once the client has an id. When our secret for the peer
/// was still held (always so on first contact), that key is derived from
/// X25519 of our secret and the peer's public key; otherwise the key of an
/// earlier exchange is kept.
pub proof fn lemma_key_exchange_completes(
    old: ClientView,
    peer_id: Seq<char>,
    peer_public_key: Seq<u8>,
    new: ClientView,
    effects: Seq<EffectView>,
)
    requires
        old.wf(),
        old.id is Some,
        key_exchange_rel(old, peer_id, Some(peer_public_key), new, effects),
    ensures
        has_peer(new.peers, peer_id),
        new.peers[peer_index(new.peers, peer_id)].1.aes_key is Some,
        (!has_peer(old.peers, peer_id) || old.peers[peer_index(old.peers, peer_id)].1.secret is Some) ==> {
            let q = new.peers[peer_index(new.peers, peer_id)].1;
            q.aes_key == Some(spec_aes_key(x25519_spec(q.scalar, peer_public_key)))
        },
{
    let my_id = old.id->0;
    let mid = choose|mid: ClientView|
        #[trigger] with_peer(old, peer_id, mid) && mid.wf()
            && key_exchange_step(mid, my_id, peer_id, Some(peer_public_key), new, effects);
    let i = peer_index(mid.peers, peer_id);
    assert(has_peer(mid.peers, peer_id)) by {
        if !has_peer(old.peers, peer_id) {
            assert(mid.peers[mid.peers.len() - 1].0 == peer_id);
        }
    }
    assert(0 <= i < mid.peers.len() && mid.peers[i].0 == peer_id);
    lemma_key_exchange_step_wf(old, mid, my_id, peer_id, Some(peer_public_key), new, effects);
    lemma_peer_index(new.peers, peer_id, i);
    assert(peer_wf(mid.peers[i].1));
    if has_peer(old.peers, peer_id) {
        assert(mid.peers == old.peers);
    }
}

/// Two clients that each derived their AES key for the other from the
/// public key the other holds for them hold the same AES key.
pub proof fn lemma_clients_share_key(a: ClientView, b_id: Seq<char>, b: ClientView, a_id: Seq<char>)
    requires
        a.wf(),
        b.wf(),
        has_peer(a.peers, b_id),
        has_peer(b.peers, a_id),
        ({
            let pa = a.peers[peer_index(a.peers, b_id)].1;
            let pb = b.peers[peer_index(b.peers, a_id)].1;
            &&& pa.aes_key == Some(spec_aes_key(x25519_spec(pa.scalar, pb.public_key)))
            &&& pb.aes_key == Some(spec_aes_key(x25519_spec(pb.scalar, pa.public_key)))
        }),
    ensures
        a.peers[peer_index(a.peers, b_id)].1.aes_key == b.peers[peer_index(b.peers, a_id)].1.aes_key,
{
    let pa = a.peers[peer_index(a.peers, b_id)].1;
    let pb = b.peers[peer_index(b.peers, a_id)].1;
    assert(peer_wf(pa));
    assert(peer_wf(pb));
    crate::crypto::lemma_aes_key_agreement(pa.scalar, pa.public_key, pb.scalar, pb.public_key);
}

/// A key exchange step keeps the state consistent.
proof fn lemma_key_exchange_step_wf(
    old: ClientView,
    mid: ClientView,
    my_id: Seq<char>,
    peer_id: Seq<char>,
    peer_public_key: Option<Seq<u8>>,
    new: ClientView,
    effects: Seq<EffectView>,
)
    requires
        mid.wf(),
        has_peer(mid.peers, peer_id),
        key_exchange_step(mid, my_id, peer_id, peer_public_key, new, effects),
    ensures
        new.wf(),
{
    let i = peer_index(mid.peers, peer_id);
    assert forall|a: int, b: int| 0 <= a < b < new.peers.len() implies #[trigger] new.peers[a].0 != #[trigger] new.peers[b].0 by {
        assert(new.peers[a].0 == mid.peers[a].0);
        assert(new.peers[b].0 == mid.peers[b].0);
    }
    assert forall|j: int| 0 <= j < new.peers.len() implies peer_wf(#[trigger] new.peers[j].1) by {
        if j != i {
            assert(new.peers[j] == mid.peers[j]);
        }
    }
}

} // verus!
