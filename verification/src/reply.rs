//! What the two endpoints answer, as plain values for the HTTP layer to send.

use vstd::prelude::*;
use crate::guard::{GuardPolicy, LoginOutcome, Route};
use crate::session::SessionToken;

verus! {

/// The status of an answer that carries the action's page.
pub const STATUS_OK: u16 = 200;

/// The status of a redirect.
pub const STATUS_FOUND: u16 = 302;

/// The status of an authorization failure.
pub const STATUS_UNAUTHORIZED: u16 = 401;

/// The status of a fault on the server's side.
pub const STATUS_SERVER_ERROR: u16 = 500;

/// An answer without its body: the status, where a redirect leads, and the
/// session token to set as a cookie.
#[derive(Clone, Copy, Debug, PartialEq, Eq, Structural)]
pub struct Reply {
    pub status: u16,
    pub location: Option<Route>,
    pub session: Option<SessionToken>,
}

/// The answer to a login attempt: on success a redirect to the protected
/// route that sets the session cookie; on wrong credentials an
/// authorization failure without cookie; a server fault where no session
/// could be created.
pub open spec fn login_answer(outcome: LoginOutcome) -> Reply {
    match outcome {
        LoginOutcome::Authenticated { token, .. } => Reply {
            status: STATUS_FOUND,
            location: Some(Route::Protected),
            session: Some(token),
        },
        LoginOutcome::Denied => Reply { status: STATUS_UNAUTHORIZED, location: None, session: None },
        LoginOutcome::Unavailable { .. } => Reply {
            status: STATUS_SERVER_ERROR,
            location: None,
            session: None,
        },
    }
}

/// The answer to a request that the guard refused: an authorization failure,
/// or a redirect to the login endpoint. Neither sets a cookie.
pub open spec fn refusal_answer(policy: GuardPolicy) -> Reply {
    match policy {
        GuardPolicy::Unauthorized => Reply {
            status: STATUS_UNAUTHORIZED,
            location: None,
            session: None,
        },
        GuardPolicy::RedirectToLogin => Reply {
            status: STATUS_FOUND,
            location: Some(Route::Login),
            session: None,
        },
    }
}

/// Only a successful login sets a session cookie, and it sets the token of
/// the session that was created.
pub proof fn lemma_cookie_only_on_success(outcome: LoginOutcome)
    ensures
        login_answer(outcome).session is Some <==> outcome is Authenticated,
        outcome is Authenticated ==> login_answer(outcome).session == Some(outcome->token),
{
}

/// The answer to a login attempt.
pub fn login_reply(outcome: LoginOutcome) -> (reply: Reply)
    ensures
        reply == login_answer(outcome),
{
    match outcome {
        LoginOutcome::Authenticated { token, .. } => Reply {
            status: STATUS_FOUND,
            location: Some(Route::Protected),
            session: Some(token),
        },
        LoginOutcome::Denied => Reply { status: STATUS_UNAUTHORIZED, location: None, session: None },
        LoginOutcome::Unavailable { .. } => Reply {
            status: STATUS_SERVER_ERROR,
            location: None,
            session: None,
        },
    }
}

/// The answer to a request that the guard refused.
pub fn refusal_reply(policy: GuardPolicy) -> (reply: Reply)
    ensures
        reply == refusal_answer(policy),
{
    match policy {
        GuardPolicy::Unauthorized => Reply {
            status: STATUS_UNAUTHORIZED,
            location: None,
            session: None,
        },
        GuardPolicy::RedirectToLogin => Reply {
            status: STATUS_FOUND,
            location: Some(Route::Login),
            session: None,
        },
    }
}

} // verus!
