//! The session agent: decides which backend call each request needs and the
//! state each event leads to. The calls themselves are made by the caller,
//! which reports back whether a call could be started and how it ended.
use vstd::prelude::*;

use crate::auth_state::AuthState;
use crate::model::UserInfo;
use crate::subscribers::Subscribers;

verus! {

/// Credentials for the login endpoint.
#[derive(Debug, Clone, PartialEq, Eq)]
pub struct UserLogin {
    pub username: String,
    pub password: String,
}

/// Registration data for the signup endpoint.
#[derive(Debug, Clone, PartialEq, Eq)]
pub struct UserSignup {
    pub username: String,
    pub password: String,
}

/// A request from a consumer to the session agent.
#[derive(Debug, Clone, PartialEq, Eq)]
pub enum Request {
    GetAuthStatus,
    Login(UserLogin),
    Signup(UserSignup),
    Logout,
}

/// The backend call that serves a request.
#[derive(Debug, Clone, PartialEq, Eq)]
pub enum Call {
    /// GET `/authentication/status`
    Probe,
    /// POST `/authentication/login` with the credentials
    Login(UserLogin),
    /// POST `/authentication/signup` with the registration data
    Signup(UserSignup),
    /// GET `/authentication/logout`
    Logout,
}

/// Which kind of call was started, without its body.
#[derive(PartialEq, Eq, Structural, Debug, Clone, Copy)]
pub enum CallKind {
    Probe,
    Login,
    Signup,
    Logout,
}

/// How a finished status probe ended.
#[derive(Debug, Clone, PartialEq, Eq)]
pub enum ProbeOutcome {
    /// The backend knows the session and returned its user.
    Known(UserInfo),
    /// The backend answered that there is no valid session.
    Rejected,
    /// No answer came back: the call failed in transport.
    TransportFailure(String),
}

/// The outcome of a finished backend call, as the session agent sees it.
#[derive(Debug, Clone, PartialEq, Eq)]
pub enum Msg {
    LoggedIn(UserInfo),
    LoggedOut,
    LoginError(String),
}

/// The call that serves `r`.
pub open spec fn call_for(r: Request) -> Call {
    match r {
        Request::GetAuthStatus => Call::Probe,
        Request::Login(l) => Call::Login(l),
        Request::Signup(s) => Call::Signup(s),
        Request::Logout => Call::Logout,
    }
}

/// The state while a call of kind `k` is in flight, or the error if it could
/// not be started.
pub open spec fn started_state(k: CallKind, started: Result<(), String>) -> AuthState {
    match started {
        Ok(()) => match k {
            CallKind::Probe => AuthState::Probing,
            CallKind::Login => AuthState::LoggingIn,
            CallKind::Signup => AuthState::LoggingIn,
            CallKind::Logout => AuthState::LoggingOut,
        },
        Err(e) => AuthState::Error(e),
    }
}

/// The state a finished call leads to.
pub open spec fn msg_state(m: Msg) -> AuthState {
    match m {
        Msg::LoggedIn(u) => AuthState::LoggedIn(u),
        Msg::LoggedOut => AuthState::Initial,
        Msg::LoginError(e) => AuthState::Error(e),
    }
}

/// The event a finished login or signup call gives.
pub open spec fn login_msg(r: Result<UserInfo, String>) -> Msg {
    match r {
        Ok(u) => Msg::LoggedIn(u),
        Err(e) => Msg::LoginError(e),
    }
}

/// The event a finished logout call gives.
pub open spec fn logout_msg(r: Result<(), String>) -> Msg {
    match r {
        Ok(()) => Msg::LoggedOut,
        Err(e) => Msg::LoginError(e),
    }
}

/// The event a finished status probe gives.
pub open spec fn probe_msg(r: ProbeOutcome) -> Msg {
    match r {
        ProbeOutcome::Known(u) => Msg::LoggedIn(u),
        ProbeOutcome::Rejected => Msg::LoggedOut,
        ProbeOutcome::TransportFailure(e) => Msg::LoginError(e),
    }
}

/// Each subscriber, oldest first, paired with a copy of `st`.
pub open spec fn sent_to_all(out: Seq<(u64, AuthState)>, subs: Seq<u64>, st: AuthState) -> bool {
    &&& out.len() == subs.len()
    &&& forall|k: int| 0 <= k < subs.len() ==> (#[trigger] out[k]).0 == subs[k] && out[k].1.same_as(st)
}

impl Call {
    /// The kind of this call.
    pub fn kind(&self) -> (r: CallKind)
        ensures
            r == match self {
                Call::Probe => CallKind::Probe,
                Call::Login(_) => CallKind::Login,
                Call::Signup(_) => CallKind::Signup,
                Call::Logout => CallKind::Logout,
            },
    {
        match self {
            Call::Probe => CallKind::Probe,
            Call::Login(_) => CallKind::Login,
            Call::Signup(_) => CallKind::Signup,
            Call::Logout => CallKind::Logout,
        }
    }
}

/// The event a finished login or signup call gives: the user on success, the
/// failure otherwise.
pub fn login_response(r: Result<UserInfo, String>) -> (m: Msg)
    ensures
        m == login_msg(r),
{
    match r {
        Ok(u) => Msg::LoggedIn(u),
        Err(e) => Msg::LoginError(e),
    }
}

/// The event a finished logout call gives: `r` is `Err` only for a transport
/// failure, which is an error; any answer of the backend means logged out.
pub fn logout_response(r: Result<(), String>) -> (m: Msg)
    ensures
        m == logout_msg(r),
{
    match r {
        Ok(()) => Msg::LoggedOut,
        Err(e) => Msg::LoginError(e),
    }
}

/// The event a finished status probe gives: the user if the backend knows the
/// session, logged out if it rejects it (no error), and the failure if no
/// answer came back.
pub fn probe_response(r: ProbeOutcome) -> (m: Msg)
    ensures
        m == probe_msg(r),
{
    match r {
        ProbeOutcome::Known(u) => Msg::LoggedIn(u),
        ProbeOutcome::Rejected => Msg::LoggedOut,
        ProbeOutcome::TransportFailure(e) => Msg::LoginError(e),
    }
}

/// The session agent: the last state it broadcast and its subscribers.
pub struct AuthAgent {
    subscribers: Subscribers,
    state: AuthState,
}

impl AuthAgent {
    pub closed spec fn wf(&self) -> bool {
        self.subscribers.wf()
    }

    /// The last state broadcast.
    pub closed spec fn state_view(&self) -> AuthState {
        self.state
    }

    /// The attached consumers, oldest first.
    pub closed spec fn subscribers_view(&self) -> Seq<u64> {
        self.subscribers@
    }

    /// A session agent in the `Initial` state with no subscribers.
    pub fn create() -> (r: AuthAgent)
        ensures
            r.wf(),
            r.state_view() == AuthState::Initial,
            r.subscribers_view() == Seq::<u64>::empty(),
    {
        AuthAgent { subscribers: Subscribers::new(), state: AuthState::Initial }
    }

    /// The last state broadcast.
    pub fn state(&self) -> (r: &AuthState)
        ensures
            *r == self.state_view(),
    {
        &self.state
    }

    /// Attaches consumer `id`.
    pub fn connected(&mut self, id: u64)
        requires
            old(self).wf(),
        ensures
            final(self).wf(),
            final(self).state_view() == old(self).state_view(),
            final(self).subscribers_view() == if old(self).subscribers_view().contains(id) {
                old(self).subscribers_view()
            } else {
                old(self).subscribers_view().push(id)
            },
    {
        self.subscribers.subscribe(id);
    }

    /// Detaches consumer `id`; a state broadcast later no longer reaches it.
    pub fn disconnected(&mut self, id: u64)
        requires
            old(self).wf(),
        ensures
            final(self).wf(),
            final(self).state_view() == old(self).state_view(),
            !final(self).subscribers_view().contains(id),
            old(self).subscribers_view().contains(id) ==> exists|i: int|
                0 <= i < old(self).subscribers_view().len() && old(self).subscribers_view()[i] == id
                    && final(self).subscribers_view() == old(self).subscribers_view().remove(i),
            !old(self).subscribers_view().contains(id) ==> final(self).subscribers_view()
                == old(self).subscribers_view(),
    {
        self.subscribers.unsubscribe(id);
    }

    /// The backend call that serves request `msg`. Every request is accepted,
    /// whatever the state and whatever is in flight.
    pub fn handle_input(&self, msg: Request) -> (r: Call)
        ensures
            r == call_for(msg),
    {
        match msg {
            Request::GetAuthStatus => Call::Probe,
            Request::Login(l) => Call::Login(l),
            Request::Signup(s) => Call::Signup(s),
            Request::Logout => Call::Logout,
        }
    }

    /// Moves to `st` and sends a copy of it to every subscriber.
    fn enter(&mut self, st: AuthState) -> (r: Vec<(u64, AuthState)>)
        requires
            old(self).wf(),
        ensures
            final(self).wf(),
            final(self).state_view() == st,
            final(self).subscribers_view() == old(self).subscribers_view(),
            sent_to_all(r@, final(self).subscribers_view(), st),
    {
        self.state = st;
        let subs = self.subscribers.recipients();
        let mut out: Vec<(u64, AuthState)> = Vec::new();
        let mut i: usize = 0;
        while i < subs.len()
            invariant
                i <= subs.len(),
                subs@ == self.subscribers@,
                self.state == st,
                out@.len() == i,
                forall|k: int| 0 <= k < i ==> (#[trigger] out@[k]).0 == subs@[k] && out@[k].1.same_as(st),
            decreases subs.len() - i,
        {
            out.push((subs[i], self.state.duplicate()));
            i = i + 1;
        }
        out
    }

    /// Records whether a call of kind `k` could be started, and broadcasts the
    /// resulting state: the matching in-flight state, or the error.
    pub fn call_started(&mut self, k: CallKind, started: Result<(), String>) -> (r: Vec<
        (u64, AuthState),
    >)
        requires
            old(self).wf(),
        ensures
            final(self).wf(),
            final(self).state_view() == started_state(k, started),
            final(self).subscribers_view() == old(self).subscribers_view(),
            sent_to_all(r@, final(self).subscribers_view(), started_state(k, started)),
    {
        let st = match started {
            Ok(()) => match k {
                CallKind::Probe => AuthState::Probing,
                CallKind::Login => AuthState::LoggingIn,
                CallKind::Signup => AuthState::LoggingIn,
                CallKind::Logout => AuthState::LoggingOut,
            },
            Err(e) => AuthState::Error(e),
        };
        self.enter(st)
    }

    /// Records the outcome of a finished call and broadcasts the new state.
    pub fn update(&mut self, msg: Msg) -> (r: Vec<(u64, AuthState)>)
        requires
            old(self).wf(),
        ensures
            final(self).wf(),
            final(self).state_view() == msg_state(msg),
            final(self).subscribers_view() == old(self).subscribers_view(),
            sent_to_all(r@, final(self).subscribers_view(), msg_state(msg)),
    {
        let st = match msg {
            Msg::LoggedIn(u) => AuthState::LoggedIn(u),
            Msg::LoggedOut => AuthState::Initial,
            Msg::LoginError(e) => AuthState::Error(e),
        };
        self.enter(st)
    }
}

/// Whatever the state: a login the backend accepts ends logged in as the
/// user it returns, one it rejects ends in an error, and a logout that is not
/// a transport failure then ends in `Initial`. Each request goes through its
/// in-flight state first.
pub proof fn lemma_login_logout(user: UserInfo, reason: String, creds: UserLogin)
    ensures
        call_for(Request::Login(creds)) == Call::Login(creds),
        started_state(CallKind::Login, Ok(())) == AuthState::LoggingIn,
        msg_state(login_msg(Ok(user))) == AuthState::LoggedIn(user),
        msg_state(login_msg(Err(reason))) is Error,
        call_for(Request::Logout) == Call::Logout,
        started_state(CallKind::Logout, Ok(())) == AuthState::LoggingOut,
        msg_state(logout_msg(Ok(()))) == AuthState::Initial,
{
}

/// A probe the backend answers ends logged in as its user, or in `Initial`
/// when it rejects the session; a probe or a logout that fails in transport
/// ends in an error with the failure as reason.
pub proof fn lemma_probe_and_transport(user: UserInfo, reason: String)
    ensures
        call_for(Request::GetAuthStatus) == Call::Probe,
        started_state(CallKind::Probe, Ok(())) == AuthState::Probing,
        msg_state(probe_msg(ProbeOutcome::Known(user))) == AuthState::LoggedIn(user),
        msg_state(probe_msg(ProbeOutcome::Rejected)) == AuthState::Initial,
        msg_state(probe_msg(ProbeOutcome::TransportFailure(reason))) == AuthState::Error(reason),
        msg_state(logout_msg(Err(reason))) == AuthState::Error(reason),
        started_state(CallKind::Login, Err(reason)) == AuthState::Error(reason),
{
}

} // verus!
