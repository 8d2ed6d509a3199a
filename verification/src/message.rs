//! The messages that clients and the server exchange, one JSON object per line.

use vstd::prelude::*;

verus! {

/// A protocol message.
#[derive(Debug, PartialEq, Eq)]
pub enum Message {
    /// A client presents its OpenID Connect access token to the server.
    Authenticate { access_token: String },
    /// Announcement that a user has connected to the chat room.
    AnnounceJoin { id: String, username: String },
    /// Tells a newly joined client the username of a participant already present.
    AnnounceUsername { id: String, username: String },
    /// A text message encrypted with the established shared AES key.
    Encrypted {
        sender_id: String,
        recipient_id: String,
        /// AES-GCM ciphertext encoded as base64.
        ciphertext: String,
        /// Nonce used for AES encryption, encoded as base64.
        nonce: String,
    },
    /// A message sent from server to client, informing the client of their ID.
    AssignId { id: String },
    /// Initiates a Diffie-Hellman key exchange.
    KeyExchange {
        sender_id: String,
        recipient_id: String,
        /// Sender's ephemeral DH public key, encoded as base64.
        public_key: String,
    },
}

/// The model of a message: its strings as character sequences.
pub enum MessageView {
    Authenticate { access_token: Seq<char> },
    AnnounceJoin { id: Seq<char>, username: Seq<char> },
    AnnounceUsername { id: Seq<char>, username: Seq<char> },
    Encrypted { sender_id: Seq<char>, recipient_id: Seq<char>, ciphertext: Seq<char>, nonce: Seq<char> },
    AssignId { id: Seq<char> },
    KeyExchange { sender_id: Seq<char>, recipient_id: Seq<char>, public_key: Seq<char> },
}

impl View for Message {
    type V = MessageView;

    open spec fn view(&self) -> MessageView {
        match self {
            Message::Authenticate { access_token } => MessageView::Authenticate { access_token: access_token@ },
            Message::AnnounceJoin { id, username } => MessageView::AnnounceJoin { id: id@, username: username@ },
            Message::AnnounceUsername { id, username } => MessageView::AnnounceUsername { id: id@, username: username@ },
            Message::Encrypted { sender_id, recipient_id, ciphertext, nonce } => MessageView::Encrypted {
                sender_id: sender_id@,
                recipient_id: recipient_id@,
                ciphertext: ciphertext@,
                nonce: nonce@,
            },
            Message::AssignId { id } => MessageView::AssignId { id: id@ },
            Message::KeyExchange { sender_id, recipient_id, public_key } => MessageView::KeyExchange {
                sender_id: sender_id@,
                recipient_id: recipient_id@,
                public_key: public_key@,
            },
        }
    }
}

impl Clone for Message {
    fn clone(&self) -> (r: Self)
        ensures
            r == *self,
    {
        match self {
            Message::Authenticate { access_token } => Message::Authenticate { access_token: access_token.clone() },
            Message::AnnounceJoin { id, username } => Message::AnnounceJoin { id: id.clone(), username: username.clone() },
            Message::AnnounceUsername { id, username } => Message::AnnounceUsername { id: id.clone(), username: username.clone() },
            Message::Encrypted { sender_id, recipient_id, ciphertext, nonce } => Message::Encrypted {
                sender_id: sender_id.clone(),
                recipient_id: recipient_id.clone(),
                ciphertext: ciphertext.clone(),
                nonce: nonce.clone(),
            },
            Message::AssignId { id } => Message::AssignId { id: id.clone() },
            Message::KeyExchange { sender_id, recipient_id, public_key } => Message::KeyExchange {
                sender_id: sender_id.clone(),
                recipient_id: recipient_id.clone(),
                public_key: public_key.clone(),
            },
        }
    }
}

} // verus!
