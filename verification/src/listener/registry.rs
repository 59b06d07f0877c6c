//! The sessions that responses can be sent to.

use crate::bootstrap::events::{ResponseEnvelope, SessionId};
use std::collections::HashMap;
use vstd::prelude::*;

verus! {

broadcast use vstd::std_specs::hash::group_hash_axioms;

/// A registered session.
#[derive(Debug)]
pub struct SessionEntry {
    /// Client, once it is bound.
    pub system_id: Option<String>,
    /// Listener.
    pub listener: String,
}

/// What became of a response.
#[derive(Debug, Clone, Copy, PartialEq, Eq, Structural)]
pub enum Delivery {
    /// The channel of the session took it.
    Taken,
    /// The channel is full.
    Full,
    /// The channel is closed.
    Closed,
}

/// The registered sessions.
#[derive(Debug)]
pub struct SessionRegistry {
    sessions: HashMap<u64, SessionEntry>,
}

impl SessionRegistry {
    /// The sessions by number.
    pub closed spec fn sessions(&self) -> Map<u64, SessionEntry> {
        self.sessions@
    }

    /// A registry without sessions.
    pub fn new() -> (r: Self)
        ensures
            r.sessions() == Map::<u64, SessionEntry>::empty(),
    {
        SessionRegistry { sessions: HashMap::new() }
    }

    /// Registers a session.
    pub fn register(&mut self, session_id: SessionId, listener: String)
        ensures
            final(self).sessions() == old(self).sessions().insert(
                session_id.value(),
                (SessionEntry { system_id: None, listener }),
            ),
    {
        self.sessions.insert(session_id.as_u64(), SessionEntry { system_id: None, listener });
    }

    /// Sets the client of a session, if it is registered.
    pub fn set_system_id(&mut self, session_id: SessionId, system_id: String)
        ensures
            final(self).sessions() == if old(self).sessions().dom().contains(session_id.value()) {
                old(self).sessions().insert(
                    session_id.value(),
                    SessionEntry {
                        system_id: Some(system_id),
                        ..old(self).sessions()[session_id.value()]
                    },
                )
            } else {
                old(self).sessions()
            },
    {
        let id: u64 = session_id.as_u64();
        match self.sessions.remove(&id) {
            Some(entry) => {
                let updated = SessionEntry { system_id: Some(system_id), ..entry };
                self.sessions.insert(id, updated);
                assert(self.sessions@ =~= old(self).sessions@.insert(id, updated));
            },
            None => {
                assert(self.sessions@ =~= old(self).sessions@);
            },
        }
    }

    /// Takes a session out; the answer says whether it was there.
    pub fn unregister(&mut self, session_id: SessionId) -> (removed: bool)
        ensures
            final(self).sessions() == old(self).sessions().remove(session_id.value()),
            removed == old(self).sessions().dom().contains(session_id.value()),
    {
        let id: u64 = session_id.as_u64();
        self.sessions.remove(&id).is_some()
    }

    /// Whether a response can be handed to the channel of its session.
    pub fn route(&self, response: &ResponseEnvelope) -> (known: bool)
        ensures
            known == self.sessions().dom().contains(response.session_id.value()),
    {
        self.contains(response.session_id)
    }

    /// Whether a response was sent, given what the channel of its session made
    /// of it; a response to an unknown session was not.
    pub fn sent(&self, response: &ResponseEnvelope, delivery: Delivery) -> (b: bool)
        ensures
            b == (self.sessions().dom().contains(response.session_id.value()) && delivery
                == Delivery::Taken),
    {
        self.contains(response.session_id) && delivery == Delivery::Taken
    }

    /// The number of registered sessions.
    pub fn count(&self) -> (n: usize)
        ensures
            n == self.sessions().len(),
    {
        self.sessions.len()
    }

    /// Whether a session is registered.
    pub fn contains(&self, session_id: SessionId) -> (b: bool)
        ensures
            b == self.sessions().dom().contains(session_id.value()),
    {
        let id: u64 = session_id.as_u64();
        self.sessions.contains_key(&id)
    }
}

/// A session that was registered and not taken out again receives responses;
/// one that was taken out does not.
pub proof fn registered_until_unregistered(
    sessions: Map<u64, SessionEntry>,
    id: u64,
    other: u64,
    entry: SessionEntry,
)
    requires
        id != other,
    ensures
        sessions.insert(id, entry).dom().contains(id),
        sessions.insert(id, entry).remove(other).dom().contains(id),
        !sessions.insert(id, entry).remove(id).dom().contains(id),
{
}

} // verus!
