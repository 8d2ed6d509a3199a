//! Core logic of an end-to-end encrypted terminal chat: key agreement and
//! message encryption, the client and server protocol state machines, token
//! checks, command routing and terminal rendering.

pub mod ansi;
pub mod client;
pub mod console;
pub mod crypto;
pub mod jwt;
pub mod message;
pub mod openid;
pub mod output;
pub mod participant;
pub mod server;
pub mod text;
pub mod util;
