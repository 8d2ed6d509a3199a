//! What the server knows about one connected participant.

use vstd::prelude::*;

verus! {

/// A participant of the chat room: the id the server assigned to its
/// connection, and its username once it has authenticated.
pub struct Participant {
    id: String,
    username: Option<String>,
}

impl View for Participant {
    type V = (Seq<char>, Option<Seq<char>>);

    closed spec fn view(&self) -> (Seq<char>, Option<Seq<char>>) {
        (
            self.id@,
            match self.username {
                Some(u) => Some(u@),
                None => None,
            },
        )
    }
}

impl Participant {
    /// A participant that has not authenticated yet.
    pub fn new(id: String) -> (r: Self)
        ensures
            r@ == (id@, None::<Seq<char>>),
    {
        Participant { id, username: None }
    }

    /// The id of the participant's connection.
    pub fn id(&self) -> (r: &str)
        ensures
            r@ == self@.0,
    {
        self.id.as_str()
    }

    /// The participant's username, once it has authenticated.
    pub fn username(&self) -> (r: Option<&str>)
        ensures
            match r {
                Some(u) => self@.1 == Some(u@),
                None => self@.1 is None,
            },
    {
        match &self.username {
            Some(u) => Some(u.as_str()),
            None => None,
        }
    }

    /// Records the participant's username.
    pub fn set_username(&mut self, username: String)
        ensures
            final(self)@ == (old(self)@.0, Some(username@)),
    {
        self.username = Some(username);
    }
}

} // verus!
