//! Sessions: server-held records that an identity has been authenticated,
//! each under a random token that the client holds.

use std::collections::HashMap;
use vstd::prelude::*;
use crate::directory::{Identity, UserDirectory};
use crate::entropy::{draw_identifier, EntropyError};

verus! {

broadcast use vstd::std_specs::hash::group_hash_axioms;

/// The opaque value that stands for a session with the client.
#[derive(Clone, Copy, Debug, PartialEq, Eq, Structural)]
pub struct SessionToken {
    pub value: u128,
}

/// What the server keeps of a session: the identifier of the identity it is
/// bound to, and when it was created, as the caller's clock gave it.
#[derive(Clone, Copy, Debug, PartialEq, Eq, Structural)]
pub struct Session {
    pub identity: u64,
    pub created_at: u64,
}

/// Why no session was created.
#[derive(Clone, Copy, Debug, PartialEq, Eq, Structural)]
pub enum SessionError {
    /// No random token could be drawn.
    EntropyUnavailable,
    /// The drawn token already stands for a session, which is left alone.
    TokenInUse,
}

/// The identifier of the identity that a token stands for: the token's
/// session must exist, and its identity must still be in the directory.
pub open spec fn session_identity(
    sessions: Map<u128, Session>,
    directory: Map<u64, Seq<u8>>,
    token: u128,
) -> Option<u64> {
    if sessions.contains_key(token) && directory.contains_key(sessions[token].identity) {
        Some(sessions[token].identity)
    } else {
        None
    }
}

/// What becomes of an attempt to open a session under a drawn token: the
/// token, unless the draw failed or the token is in use.
pub open spec fn opened(sessions: Map<u128, Session>, drawn: Result<u128, EntropyError>) -> Result<
    SessionToken,
    SessionError,
> {
    match drawn {
        Ok(value) => if sessions.contains_key(value) {
            Err(SessionError::TokenInUse)
        } else {
            Ok(SessionToken { value })
        },
        Err(_) => Err(SessionError::EntropyUnavailable),
    }
}

/// A session validates from the moment it is created, not before: a token
/// that is not yet in use stands for nobody, and once bound to an identity
/// of the directory it stands for that identity.
pub proof fn lemma_created_session_validates(
    sessions: Map<u128, Session>,
    directory: Map<u64, Seq<u8>>,
    token: u128,
    session: Session,
)
    requires
        !sessions.contains_key(token),
        directory.contains_key(session.identity),
    ensures
        session_identity(sessions, directory, token) is None,
        session_identity(sessions.insert(token, session), directory, token) == Some(
            session.identity,
        ),
{
}

/// A session whose identity the directory does not know counts as absent.
pub proof fn lemma_unknown_identity_is_no_session(
    sessions: Map<u128, Session>,
    directory: Map<u64, Seq<u8>>,
    token: u128,
)
    requires
        sessions.contains_key(token),
        !directory.contains_key(sessions[token].identity),
    ensures
        session_identity(sessions, directory, token) is None,
{
}

/// An invalidated token stands for nobody.
pub proof fn lemma_invalidated_session_is_gone(
    sessions: Map<u128, Session>,
    directory: Map<u64, Seq<u8>>,
    token: u128,
)
    ensures
        session_identity(sessions.remove(token), directory, token) is None,
{
}

/// Creating or invalidating one session leaves every other token as it was.
pub proof fn lemma_other_sessions_untouched(
    sessions: Map<u128, Session>,
    directory: Map<u64, Seq<u8>>,
    token: u128,
    session: Session,
    other: u128,
)
    requires
        other != token,
    ensures
        session_identity(sessions.insert(token, session), directory, other) == session_identity(
            sessions,
            directory,
            other,
        ),
        session_identity(sessions.remove(token), directory, other) == session_identity(
            sessions,
            directory,
            other,
        ),
{
}

/// The sessions of the process, by token. Nothing outlives the process.
pub struct SessionManager {
    sessions: HashMap<u128, Session>,
}

impl SessionManager {
    /// The store as a map from token value to session.
    pub closed spec fn view(&self) -> Map<u128, Session> {
        self.sessions@
    }

    /// A store without sessions.
    pub fn new() -> (manager: Self)
        ensures
            manager@ == Map::<u128, Session>::empty(),
    {
        SessionManager { sessions: HashMap::new() }
    }

    /// Binds a token to an identity, unless the token is already in use.
    ///
    /// Returns whether the session was stored; a token in use keeps the
    /// session it has.
    pub fn bind(&mut self, token: SessionToken, identity: u64, now: u64) -> (bound: bool)
        ensures
            bound == !old(self)@.contains_key(token.value),
            final(self)@ == if bound {
                old(self)@.insert(token.value, Session { identity, created_at: now })
            } else {
                old(self)@
            },
    {
        if self.sessions.contains_key(&token.value) {
            false
        } else {
            self.sessions.insert(token.value, Session { identity, created_at: now });
            true
        }
    }

    /// Creates a session under the token that a draw gave, if it gave one
    /// and the token is not in use.
    ///
    /// A failed draw is `EntropyUnavailable`, a token in use is `TokenInUse`;
    /// on either the store is as it was. Otherwise the store has gained
    /// exactly this session, and the token is returned.
    pub fn open_session(
        &mut self,
        drawn: Result<u128, EntropyError>,
        identity: u64,
        now: u64,
    ) -> (outcome: Result<SessionToken, SessionError>)
        ensures
            outcome == opened(old(self)@, drawn),
            final(self)@ == match outcome {
                Ok(token) => old(self)@.insert(token.value, Session { identity, created_at: now }),
                Err(_) => old(self)@,
            },
    {
        match drawn {
            Ok(value) => {
                let token = SessionToken { value };
                if self.bind(token, identity, now) {
                    Ok(token)
                } else {
                    Err(SessionError::TokenInUse)
                }
            },
            Err(_) => Err(SessionError::EntropyUnavailable),
        }
    }

    /// Creates a session for an authenticated identity under a newly drawn
    /// token, and returns the token for the client to hold.
    ///
    /// The token comes from the operating system's generator alone: neither
    /// the identity nor earlier tokens enter into it. On success the token
    /// was not in use before and the store has gained exactly this session;
    /// on either error the store is as it was.
    pub fn create_session(&mut self, identity: &Identity, now: u64) -> (outcome: Result<
        SessionToken,
        SessionError,
    >)
        ensures
            match outcome {
                Ok(token) => !old(self)@.contains_key(token.value) && final(self)@ == old(
                    self,
                )@.insert(token.value, Session { identity: identity.id, created_at: now }),
                Err(_) => final(self)@ == old(self)@,
            },
    {
        self.open_session(draw_identifier(), identity.id, now)
    }

    /// The identity that a token stands for, if its session exists and the
    /// directory still knows the identity; otherwise nothing.
    pub fn validate<'a>(&self, directory: &'a UserDirectory, token: SessionToken) -> (found:
        Option<Identity<'a>>)
        ensures
            match found {
                Some(identity) => session_identity(self@, directory@, token.value) == Some(
                    identity.id,
                ) && identity.verifier@ == directory@[identity.id],
                None => session_identity(self@, directory@, token.value) is None,
            },
    {
        match self.sessions.get(&token.value) {
            Some(session) => directory.lookup(session.identity),
            None => None,
        }
    }

    /// The record of a token's session, with the time of its creation, if
    /// the token has one. Whether its identity is still known is not asked.
    pub fn session(&self, token: SessionToken) -> (found: Option<Session>)
        ensures
            found == if self@.contains_key(token.value) {
                Some(self@[token.value])
            } else {
                None
            },
    {
        match self.sessions.get(&token.value) {
            Some(session) => Some(*session),
            None => None,
        }
    }

    /// Removes the session of a token; a token without session changes
    /// nothing.
    pub fn invalidate(&mut self, token: SessionToken)
        ensures
            final(self)@ == old(self)@.remove(token.value),
    {
        self.sessions.remove(&token.value);
    }
}

} // verus!
