use base64::Engine;
use crossterm::style::Stylize;
use securechat::ansi::highlight;
use securechat::client::{ClientData, ClientEffect};
use securechat::message::Message;
use securechat::output::Label;
use securechat::participant::Participant;
use securechat::server::{handle_participant_msg, ServerEffect};

fn assign(c: &mut ClientData, id: &str) {
    let e = c.handle_read(Message::AssignId { id: id.to_string() });
    assert!(e.is_empty());
}

/// Delivers the key exchange in `e` (if any) to `to`, confirming it at `from`.
fn deliver(from: &mut ClientData, to: &mut ClientData, effects: Vec<ClientEffect>) -> Vec<ClientEffect> {
    let mut out = Vec::new();
    for e in effects {
        if let ClientEffect::SendKeyExchange { sender_id, recipient_id, public_key } = e {
            from.record_key_exchange_write(&recipient_id, true);
            out.extend(to.handle_read(Message::KeyExchange { sender_id, recipient_id, public_key }));
        }
    }
    out
}

#[test]
fn two_clients_agree_on_a_key_and_chat() {
    let mut a = ClientData::new();
    let mut b = ClientData::new();
    assign(&mut a, "A");
    assign(&mut b, "B");
    assert_eq!(a.id().map(|s| s.as_str()), Some("A"));

    // A learns that B joined and offers its public key.
    let e1 = a.handle_read(Message::AnnounceJoin { id: "B".into(), username: "bob".into() });
    assert_eq!(e1.len(), 1);
    assert!(matches!(&e1[0], ClientEffect::SendKeyExchange { sender_id, recipient_id, .. } if sender_id == "A" && recipient_id == "B"));
    assert_eq!(a.peer_count(), 1);
    assert!(a.peer(0).1.aes_key().is_none());

    // B derives its key and answers with its own public key.
    let e2 = deliver(&mut a, &mut b, e1);
    assert_eq!(e2.len(), 2);
    assert!(matches!(&e2[0], ClientEffect::Print { label: Label::Debug, .. }));
    assert!(matches!(&e2[1], ClientEffect::SendKeyExchange { .. }));
    let kb = b.peer(0).1.aes_key().unwrap();

    // A derives the same key; it already sent its public key, so nothing more is sent.
    let e3 = deliver(&mut b, &mut a, e2);
    assert_eq!(e3.len(), 1);
    assert!(matches!(&e3[0], ClientEffect::Print { label: Label::Debug, .. }));
    let ka = a.peer(0).1.aes_key().unwrap();
    assert_eq!(ka, kb);
    assert!(a.peer(0).1.has_sent_public_key());
    assert!(b.peer(0).1.has_sent_public_key());

    // A chats; B reads it.
    let msgs = a.messages_for_peers("hello bob");
    assert_eq!(msgs.len(), 1);
    let shown = b.handle_read(msgs[0].clone());
    assert_eq!(shown.len(), 1);
    match &shown[0] {
        ClientEffect::Print { label, text } => {
            assert_eq!(*label, Label::Info);
            assert_eq!(text, &format!("{} hello bob", "A:".yellow().bold()));
        }
        _ => panic!("expected a printed line"),
    }
}

#[test]
fn derived_key_is_kept_on_repeated_exchange() {
    let mut a = ClientData::new();
    let mut b = ClientData::new();
    assign(&mut a, "A");
    assign(&mut b, "B");
    let e1 = a.handle_read(Message::AnnounceJoin { id: "B".into(), username: "bob".into() });
    let e2 = deliver(&mut a, &mut b, e1);
    let e3 = deliver(&mut b, &mut a, e2);
    assert_eq!(e3.len(), 1);
    let key = b.peer(0).1.aes_key().unwrap();
    let pk = b.peer(0).1.my_public_key();
    // The same key exchange again changes nothing and sends nothing.
    let again = b.handle_read(Message::KeyExchange {
        sender_id: "A".into(),
        recipient_id: "B".into(),
        public_key: securechat::crypto::public_key_text(&a.peer(0).1.my_public_key()),
    });
    assert!(again.is_empty());
    assert_eq!(b.peer(0).1.aes_key().unwrap(), key);
    assert_eq!(b.peer(0).1.my_public_key(), pk);
}

#[test]
fn messages_for_other_clients_are_ignored() {
    let mut a = ClientData::new();
    assign(&mut a, "A");
    let e = a.handle_read(Message::KeyExchange { sender_id: "X".into(), recipient_id: "C".into(), public_key: "AAAA".into() });
    assert!(e.is_empty());
    let e = a.handle_read(Message::Encrypted {
        sender_id: "X".into(),
        recipient_id: "C".into(),
        ciphertext: "AAAA".into(),
        nonce: "AAAA".into(),
    });
    assert!(e.is_empty());
    assert_eq!(a.peer_count(), 0);
}

#[test]
fn nothing_happens_before_an_id_is_assigned() {
    let mut a = ClientData::new();
    let e = a.handle_read(Message::AnnounceJoin { id: "B".into(), username: "bob".into() });
    assert!(e.is_empty());
    assert_eq!(a.peer_count(), 0);
    assert!(a.messages_for_peers("hi").is_empty());
}

#[test]
fn bad_public_key_is_ignored() {
    let mut a = ClientData::new();
    assign(&mut a, "A");
    let e = a.handle_read(Message::KeyExchange { sender_id: "B".into(), recipient_id: "A".into(), public_key: "short".into() });
    assert!(e.is_empty());
    assert_eq!(a.peer_count(), 0);
}

#[test]
fn encrypted_message_from_unknown_peer_creates_status_but_shows_nothing() {
    let mut a = ClientData::new();
    assign(&mut a, "A");
    let e = a.handle_read(Message::Encrypted {
        sender_id: "Z".into(),
        recipient_id: "A".into(),
        ciphertext: "AAAA".into(),
        nonce: "AAAA".into(),
    });
    assert!(e.is_empty());
    assert_eq!(a.peer_count(), 1);
    assert_eq!(a.peer(0).0, "Z");
    assert!(a.peer(0).1.aes_key().is_none());
}

fn roster() -> Vec<Participant> {
    let mut p1 = Participant::new("p1".into());
    p1.set_username("alice".into());
    vec![p1, Participant::new("p2".into()), Participant::new("p3".into())]
}

#[test]
fn participant_accessors() {
    let mut p = Participant::new("id9".into());
    assert_eq!(p.id(), "id9");
    assert_eq!(p.username(), None);
    p.set_username("zed".into());
    assert_eq!(p.username(), Some("zed"));
}

#[test]
fn messages_are_relayed_to_everyone_but_the_sender() {
    let mut ps = roster();
    let m = Message::AnnounceJoin { id: "p2".into(), username: "x".into() };
    let effects = handle_participant_msg(&mut ps, "p2", m.clone(), None);
    assert_eq!(effects.len(), 2);
    match (&effects[0], &effects[1]) {
        (
            ServerEffect::Send { to: 0, message: m0, report_failure: true },
            ServerEffect::Send { to: 2, message: m2, report_failure: true },
        ) => {
            assert_eq!(m0, &m);
            assert_eq!(m2, &m);
        }
        _ => panic!("unexpected effects"),
    }
}

#[test]
fn accepted_authentication_announces_the_newcomer() {
    let mut ps = roster();
    let m = Message::Authenticate { access_token: "tok".into() };
    let effects = handle_participant_msg(&mut ps, "p2", m.clone(), Some("bob".into()));
    assert_eq!(ps[1].username(), Some("bob"));
    // p2 is told alice's and its own username, everyone is told p2 joined,
    // a line is printed, and the message goes to p1 and p3.
    assert_eq!(effects.len(), 2 + 3 + 1 + 2);
    assert!(matches!(&effects[0], ServerEffect::Send { to: 1, message: Message::AnnounceUsername { id, username }, report_failure: false } if id == "p1" && username == "alice"));
    assert!(matches!(&effects[1], ServerEffect::Send { to: 1, message: Message::AnnounceUsername { id, username }, report_failure: false } if id == "p2" && username == "bob"));
    for (k, e) in effects[2..5].iter().enumerate() {
        assert!(matches!(e, ServerEffect::Send { to, message: Message::AnnounceJoin { id, username }, report_failure: false } if *to == k && id == "p2" && username == "bob"));
    }
    match &effects[5] {
        ServerEffect::Print { label, text } => {
            assert_eq!(*label, Label::Info);
            assert_eq!(text, &format!("User {} has been authorized.", highlight("bob")));
        }
        _ => panic!("expected a printed line"),
    }
    assert!(matches!(&effects[6], ServerEffect::Send { to: 0, report_failure: true, .. }));
    assert!(matches!(&effects[7], ServerEffect::Send { to: 2, report_failure: true, .. }));
}

#[test]
fn refused_authentication_is_only_reported() {
    let mut ps = roster();
    let m = Message::Authenticate { access_token: "tok".into() };
    let effects = handle_participant_msg(&mut ps, "p2", m, None);
    assert_eq!(ps[1].username(), None);
    assert_eq!(effects.len(), 1);
    match &effects[0] {
        ServerEffect::Print { label, text } => {
            assert_eq!(*label, Label::Error);
            assert_eq!(text, &securechat::ansi::fg("31", "Authentication for a client failed."));
        }
        _ => panic!("expected a printed line"),
    }
}

#[test]
fn unwritten_key_exchange_is_offered_again() {
    let mut a = ClientData::new();
    assign(&mut a, "A");
    let e1 = a.handle_read(Message::AnnounceJoin { id: "B".into(), username: "bob".into() });
    assert_eq!(e1.len(), 1);
    assert!(matches!(&e1[0], ClientEffect::SendKeyExchange { .. }));
    a.record_key_exchange_write("B", false);
    assert!(!a.peer(0).1.has_sent_public_key());
    let e2 = a.handle_read(Message::AnnounceJoin { id: "B".into(), username: "bob".into() });
    assert_eq!(e2.len(), 1);
    assert!(matches!(&e2[0], ClientEffect::SendKeyExchange { .. }));
    a.record_key_exchange_write("B", true);
    assert!(a.peer(0).1.has_sent_public_key());
    let e3 = a.handle_read(Message::AnnounceJoin { id: "B".into(), username: "bob".into() });
    assert!(e3.is_empty());
}

#[test]
fn derived_key_line_shows_the_key() {
    let mut a = ClientData::new();
    let mut b = ClientData::new();
    assign(&mut a, "A");
    assign(&mut b, "B");
    let e1 = a.handle_read(Message::AnnounceJoin { id: "B".into(), username: "bob".into() });
    let e2 = deliver(&mut a, &mut b, e1);
    let key = b.peer(0).1.aes_key().unwrap();
    let key_text = base64::engine::general_purpose::STANDARD.encode(key);
    match &e2[0] {
        ClientEffect::Print { label, text } => {
            assert_eq!(*label, Label::Debug);
            assert_eq!(text, &format!("Derived AES key: {}", key_text.as_str().yellow().bold()));
        }
        _ => panic!("expected a printed line"),
    }
}
