//! The guard in front of the protected action, and the login that opens it.

use vstd::prelude::*;
use crate::auth::{accepts, accepts_form, authenticate, Credentials};
use crate::cookie::{
    cookie_pair, cookie_token, is_cookie_name, lemma_written_cookie_reads_back,
    read_session_cookie,
};
use crate::directory::{Identity, UserDirectory};
use crate::entropy::{draw_identifier, EntropyError};
use crate::session::{
    lemma_created_session_validates, opened, session_identity, Session, SessionError,
    SessionManager, SessionToken,
};

verus! {

/// The two endpoints that the guard knows.
#[derive(Clone, Copy, Debug, PartialEq, Eq, Structural)]
pub enum Route {
    /// Where credentials are presented.
    Login,
    /// Where the protected action is asked for.
    Protected,
}

/// Where a client stands, as the server derives it anew for each request.
#[derive(Clone, Copy, Debug, PartialEq, Eq, Structural)]
pub enum FlowState {
    /// No valid session is presented.
    Anonymous,
    /// A login request is in flight.
    Authenticating,
    /// A valid session is presented.
    Authenticated,
}

/// What the guard does with a request that presents no valid session.
#[derive(Clone, Copy, Debug, PartialEq, Eq, Structural)]
pub enum GuardPolicy {
    /// Answer with an authorization failure.
    Unauthorized,
    /// Send the client to the login endpoint.
    RedirectToLogin,
}

/// What the guard decided about a request to the protected route.
#[derive(Clone, Copy, Debug, PartialEq, Eq)]
pub enum GuardDecision<'a> {
    /// The protected handler may run, for this identity.
    Proceed(Identity<'a>),
    /// The request ends here with an authorization failure.
    Unauthorized,
    /// The request ends here with a redirect to the login endpoint.
    RedirectToLogin,
}

/// How a login attempt ended.
#[derive(Clone, Copy, Debug, PartialEq, Eq, Structural)]
pub enum LoginOutcome {
    /// The credentials were right and a session stands under `token`.
    Authenticated { token: SessionToken, identity: u64 },
    /// The credentials were not right. Which part was wrong is not told.
    Denied,
    /// The credentials were right, but no session could be created.
    Unavailable { reason: SessionError },
}

/// What moves a client from one state to another.
#[derive(Clone, Copy, Debug, PartialEq, Eq, Structural)]
pub enum FlowEvent {
    /// The client sent a login request.
    LoginSubmitted,
    /// The login request in flight ended.
    LoginSettled { outcome: LoginOutcome },
    /// The client's session was invalidated, or was lost with the process.
    SessionEnded,
}

/// The state that a request is in, by the token it presents.
pub open spec fn client_state(
    sessions: Map<u128, Session>,
    directory: Map<u64, Seq<u8>>,
    presented: Option<u128>,
) -> FlowState {
    match presented {
        Some(token) => if session_identity(sessions, directory, token) is Some {
            FlowState::Authenticated
        } else {
            FlowState::Anonymous
        },
        None => FlowState::Anonymous,
    }
}

/// Which endpoints a state can reach: the login endpoint always, the
/// protected one only when authenticated.
pub open spec fn reachable(state: FlowState, route: Route) -> bool {
    route == Route::Login || state == FlowState::Authenticated
}

/// Where a login in flight ends: authenticated on success, anonymous again
/// otherwise.
pub open spec fn settled(outcome: LoginOutcome) -> FlowState {
    match outcome {
        LoginOutcome::Authenticated { .. } => FlowState::Authenticated,
        _ => FlowState::Anonymous,
    }
}

/// The state after an event: a login request takes an anonymous client to
/// authenticating, its end from there to authenticated or back, and the end
/// of the session takes an authenticated client back to anonymous. Any
/// other event leaves the state as it is.
pub open spec fn next_state(state: FlowState, event: FlowEvent) -> FlowState {
    match (state, event) {
        (FlowState::Anonymous, FlowEvent::LoginSubmitted) => FlowState::Authenticating,
        (FlowState::Authenticating, FlowEvent::LoginSettled { outcome }) => settled(outcome),
        (FlowState::Authenticated, FlowEvent::SessionEnded) => FlowState::Anonymous,
        _ => state,
    }
}

/// How a login ends once the credentials were found right, given the draw
/// of a token: with a session under the token, or without one where the
/// draw failed or the token is in use.
pub open spec fn login_settled(
    sessions: Map<u128, Session>,
    identity: u64,
    drawn: Result<u128, EntropyError>,
) -> LoginOutcome {
    match opened(sessions, drawn) {
        Ok(token) => LoginOutcome::Authenticated { token, identity },
        Err(reason) => LoginOutcome::Unavailable { reason },
    }
}

impl<'a> GuardDecision<'a> {
    /// Whether this is the refusal that a policy prescribes.
    pub open spec fn refuses_by(self, policy: GuardPolicy) -> bool {
        match policy {
            GuardPolicy::Unauthorized => self is Unauthorized,
            GuardPolicy::RedirectToLogin => self is RedirectToLogin,
        }
    }

    /// Whether the decision is made as the guard has to make it: the handler
    /// runs for the identity that the presented token stands for, and where
    /// it stands for nobody the policy's refusal is given.
    pub open spec fn decided(
        self,
        policy: GuardPolicy,
        sessions: Map<u128, Session>,
        directory: Map<u64, Seq<u8>>,
        presented: Option<u128>,
    ) -> bool {
        if client_state(sessions, directory, presented) == FlowState::Authenticated {
            self matches GuardDecision::Proceed(identity) && Some(identity.id) == session_identity(
                sessions,
                directory,
                presented->0,
            ) && identity.verifier@ == directory[identity.id]
        } else {
            self.refuses_by(policy)
        }
    }
}

/// The guard is no advice: before any session exists, no request gets to the
/// protected handler, whatever it presents.
pub proof fn lemma_no_login_no_entry(
    decision: GuardDecision,
    policy: GuardPolicy,
    directory: Map<u64, Seq<u8>>,
    presented: Option<u128>,
)
    requires
        decision.decided(policy, Map::empty(), directory, presented),
    ensures
        !(decision is Proceed),
        decision.refuses_by(policy),
        !reachable(client_state(Map::empty(), directory, presented), Route::Protected),
{
}

/// The handler runs exactly for the requests whose state reaches the
/// protected route; all others get the policy's refusal.
pub proof fn lemma_guard_follows_state(
    decision: GuardDecision,
    policy: GuardPolicy,
    sessions: Map<u128, Session>,
    directory: Map<u64, Seq<u8>>,
    presented: Option<u128>,
)
    requires
        decision.decided(policy, sessions, directory, presented),
    ensures
        decision is Proceed <==> reachable(
            client_state(sessions, directory, presented),
            Route::Protected,
        ),
        !(decision is Proceed) ==> decision.refuses_by(policy),
{
}

/// A request without token, or with a token that stands for nobody, is
/// anonymous.
pub proof fn lemma_unknown_token_is_anonymous(
    sessions: Map<u128, Session>,
    directory: Map<u64, Seq<u8>>,
    presented: Option<u128>,
)
    requires
        presented is None || !sessions.contains_key(presented->0),
    ensures
        client_state(sessions, directory, presented) == FlowState::Anonymous,
{
}

/// The token of a session that was just created for a known identity makes
/// its bearer authenticated, and had not done so before.
pub proof fn lemma_login_opens_guard(
    sessions: Map<u128, Session>,
    directory: Map<u64, Seq<u8>>,
    token: u128,
    session: Session,
)
    requires
        !sessions.contains_key(token),
        directory.contains_key(session.identity),
    ensures
        client_state(sessions, directory, Some(token)) == FlowState::Anonymous,
        client_state(sessions.insert(token, session), directory, Some(token))
            == FlowState::Authenticated,
{
    lemma_created_session_validates(sessions, directory, token, session);
}

/// No state but authenticating leads to authenticated, and that one only by
/// a login that ended with a session.
pub proof fn lemma_only_login_authenticates(state: FlowState, event: FlowEvent)
    requires
        state != FlowState::Authenticated,
        next_state(state, event) == FlowState::Authenticated,
    ensures
        state == FlowState::Authenticating,
        event matches FlowEvent::LoginSettled { outcome } && outcome is Authenticated,
{
}

/// The cookie that is written for the token of a session just created lets
/// its bearer through: read back from the request's header, it stands for
/// the identity that logged in.
pub proof fn lemma_issued_cookie_opens_guard(
    sessions: Map<u128, Session>,
    directory: Map<u64, Seq<u8>>,
    name: Seq<u8>,
    token: u128,
    session: Session,
)
    requires
        is_cookie_name(name),
        !sessions.contains_key(token),
        directory.contains_key(session.identity),
    ensures
        cookie_token(cookie_pair(name, token), name) == Some(token),
        client_state(
            sessions.insert(token, session),
            directory,
            cookie_token(cookie_pair(name, token), name),
        ) == FlowState::Authenticated,
        session_identity(sessions.insert(token, session), directory, token) == Some(
            session.identity,
        ),
{
    lemma_written_cookie_reads_back(name, token);
    lemma_created_session_validates(sessions, directory, token, session);
}

/// The guard of the protected route, with the policy it was mounted with.
#[derive(Clone, Copy, Debug, PartialEq, Eq, Structural)]
pub struct RouteGuard {
    pub policy: GuardPolicy,
}

impl RouteGuard {
    /// A guard with the given policy for requests without valid session.
    pub fn new(policy: GuardPolicy) -> (guard: Self)
        ensures
            guard.policy == policy,
    {
        RouteGuard { policy }
    }

    /// The refusal that the policy prescribes.
    pub fn refusal<'a>(&self) -> (decision: GuardDecision<'a>)
        ensures
            decision.refuses_by(self.policy),
    {
        match self.policy {
            GuardPolicy::Unauthorized => GuardDecision::Unauthorized,
            GuardPolicy::RedirectToLogin => GuardDecision::RedirectToLogin,
        }
    }

    /// Decides about a request by the session token it presents, if any.
    ///
    /// The handler may run exactly when the token's session exists and its
    /// identity is still in the directory.
    pub fn check<'a>(
        &self,
        sessions: &SessionManager,
        directory: &'a UserDirectory,
        presented: Option<SessionToken>,
    ) -> (decision: GuardDecision<'a>)
        ensures
            decision.decided(
                self.policy,
                sessions@,
                directory@,
                match presented {
                    Some(token) => Some(token.value),
                    None => None,
                },
            ),
    {
        match presented {
            Some(token) => match sessions.validate(directory, token) {
                Some(identity) => GuardDecision::Proceed(identity),
                None => self.refusal(),
            },
            None => self.refusal(),
        }
    }

    /// Decides about a request by its cookie header, if it has one: the
    /// session token is the value of the cookie named `cookie_name`.
    pub fn check_cookies<'a>(
        &self,
        sessions: &SessionManager,
        directory: &'a UserDirectory,
        header: Option<&[u8]>,
        cookie_name: &[u8],
    ) -> (decision: GuardDecision<'a>)
        ensures
            decision.decided(
                self.policy,
                sessions@,
                directory@,
                match header {
                    Some(cookies) => cookie_token(cookies@, cookie_name@),
                    None => None,
                },
            ),
    {
        let presented = match header {
            Some(cookies) => read_session_cookie(cookies, cookie_name),
            None => None,
        };
        self.check(sessions, directory, presented)
    }
}

/// The state of a request, derived from the token it presents.
pub fn state_of(
    sessions: &SessionManager,
    directory: &UserDirectory,
    presented: Option<SessionToken>,
) -> (state: FlowState)
    ensures
        state == client_state(
            sessions@,
            directory@,
            match presented {
                Some(token) => Some(token.value),
                None => None,
            },
        ),
{
    match presented {
        Some(token) => match sessions.validate(directory, token) {
            Some(_) => FlowState::Authenticated,
            None => FlowState::Anonymous,
        },
        None => FlowState::Anonymous,
    }
}

/// The state after an event.
pub fn advance(state: FlowState, event: FlowEvent) -> (next: FlowState)
    ensures
        next == next_state(state, event),
{
    match (state, event) {
        (FlowState::Anonymous, FlowEvent::LoginSubmitted) => FlowState::Authenticating,
        (FlowState::Authenticating, FlowEvent::LoginSettled { outcome }) => match outcome {
            LoginOutcome::Authenticated { .. } => FlowState::Authenticated,
            _ => FlowState::Anonymous,
        },
        (FlowState::Authenticated, FlowEvent::SessionEnded) => FlowState::Anonymous,
        _ => state,
    }
}

/// Ends a login whose credentials were found right, with the outcome of
/// drawing a token: the session is created, or the sessions stay as they
/// were.
pub fn settle_login(
    sessions: &mut SessionManager,
    identity: u64,
    drawn: Result<u128, EntropyError>,
    now: u64,
) -> (outcome: LoginOutcome)
    ensures
        outcome == login_settled(old(sessions)@, identity, drawn),
        final(sessions)@ == match outcome {
            LoginOutcome::Authenticated { token, .. } => old(sessions)@.insert(
                token.value,
                Session { identity, created_at: now },
            ),
            _ => old(sessions)@,
        },
{
    match sessions.open_session(drawn, identity, now) {
        Ok(token) => LoginOutcome::Authenticated { token, identity },
        Err(reason) => LoginOutcome::Unavailable { reason },
    }
}

/// Handles a login attempt: verifies the credentials and, if they are
/// right, creates a session.
///
/// Wrong credentials are denied and change nothing. Right ones give a
/// session for the claimed identity under a token that was not in use, or,
/// where none could be created, leave the sessions as they were. The
/// session is stored before this returns, so it stands whatever becomes of
/// the response.
pub fn login(
    directory: &UserDirectory,
    sessions: &mut SessionManager,
    credentials: &Credentials,
    now: u64,
) -> (outcome: LoginOutcome)
    ensures
        accepts(directory@, credentials.user_id, credentials.token@) <==> !(outcome is Denied),
        match outcome {
            LoginOutcome::Authenticated { token, identity } => identity == credentials.user_id
                && !old(sessions)@.contains_key(token.value) && final(sessions)@ == old(
                sessions,
            )@.insert(token.value, Session { identity, created_at: now }),
            _ => final(sessions)@ == old(sessions)@,
        },
        outcome is Authenticated ==> client_state(
            final(sessions)@,
            directory@,
            Some(outcome->token.value),
        ) == FlowState::Authenticated,
{
    match authenticate(directory, credentials) {
        Some(identity) => settle_login(sessions, identity.id, draw_identifier(), now),
        None => LoginOutcome::Denied,
    }
}

/// Handles a login attempt as the form presents it: the identifier field as
/// text, the token as it is.
///
/// An identifier field that is no decimal number is denied like any other
/// wrong credentials.
pub fn login_form(
    directory: &UserDirectory,
    sessions: &mut SessionManager,
    user_id: &[u8],
    token: &[u8],
    now: u64,
) -> (outcome: LoginOutcome)
    ensures
        accepts_form(directory@, user_id@, token@) <==> !(outcome is Denied),
        match outcome {
            LoginOutcome::Authenticated { token: issued, identity } => accepts(
                directory@,
                identity,
                token@,
            ) && !old(sessions)@.contains_key(issued.value) && final(sessions)@ == old(
                sessions,
            )@.insert(issued.value, Session { identity, created_at: now }),
            _ => final(sessions)@ == old(sessions)@,
        },
{
    match Credentials::from_form(user_id, token) {
        Some(credentials) => login(directory, sessions, &credentials, now),
        None => LoginOutcome::Denied,
    }
}

} // verus!
