use sfi_client::auth::{
    login_response, logout_response, probe_response, AuthAgent, Call, CallKind, Msg, ProbeOutcome,
    Request,
    UserLogin, UserSignup,
};
use sfi_client::auth_state::AuthState;
use sfi_client::model::UserInfo;

fn user() -> UserInfo {
    UserInfo { uuid: 7, username: "a".to_string() }
}

fn creds(p: &str) -> UserLogin {
    UserLogin { username: "a".to_string(), password: p.to_string() }
}

#[test]
fn requests_map_to_backend_calls() {
    let agent = AuthAgent::create();
    assert_eq!(agent.handle_input(Request::GetAuthStatus), Call::Probe);
    assert_eq!(agent.handle_input(Request::Login(creds("x"))), Call::Login(creds("x")));
    let su = UserSignup { username: "b".to_string(), password: "y".to_string() };
    assert_eq!(agent.handle_input(Request::Signup(su.clone())), Call::Signup(su));
    assert_eq!(agent.handle_input(Request::Logout), Call::Logout);
}

#[test]
fn valid_login_then_logout() {
    let mut agent = AuthAgent::create();
    agent.connected(3);
    let out = agent.call_started(CallKind::Login, Ok(()));
    assert_eq!(out, vec![(3, AuthState::LoggingIn)]);
    let out = agent.update(login_response(Ok(user())));
    assert_eq!(out, vec![(3, AuthState::LoggedIn(user()))]);
    let out = agent.call_started(CallKind::Logout, Ok(()));
    assert_eq!(out, vec![(3, AuthState::LoggingOut)]);
    agent.update(logout_response(Ok(())));
    assert_eq!(agent.state(), &AuthState::Initial);
}

#[test]
fn invalid_login_then_logout() {
    let mut agent = AuthAgent::create();
    agent.update(login_response(Err("bad credentials".to_string())));
    assert_eq!(agent.state(), &AuthState::Error("bad credentials".to_string()));
    agent.call_started(CallKind::Logout, Ok(()));
    agent.update(logout_response(Ok(())));
    assert_eq!(agent.state(), &AuthState::Initial);
}

#[test]
fn logout_transport_failure_is_error() {
    assert_eq!(logout_response(Err("offline".to_string())), Msg::LoginError("offline".to_string()));
}

#[test]
fn rejected_probe_is_initial_not_error() {
    assert_eq!(probe_response(ProbeOutcome::Rejected), Msg::LoggedOut);
    assert_eq!(probe_response(ProbeOutcome::Known(user())), Msg::LoggedIn(user()));
    let mut agent = AuthAgent::create();
    agent.update(probe_response(ProbeOutcome::Rejected));
    assert_eq!(agent.state(), &AuthState::Initial);
}

#[test]
fn probe_transport_failure_is_error() {
    let m = probe_response(ProbeOutcome::TransportFailure("unreachable".to_string()));
    assert_eq!(m, Msg::LoginError("unreachable".to_string()));
    let mut agent = AuthAgent::create();
    agent.update(m);
    assert_eq!(agent.state(), &AuthState::Error("unreachable".to_string()));
}

#[test]
fn call_that_cannot_start_is_error() {
    let mut agent = AuthAgent::create();
    agent.connected(1);
    let out = agent.call_started(CallKind::Probe, Err("no fetch".to_string()));
    assert_eq!(out, vec![(1, AuthState::Error("no fetch".to_string()))]);
    let out = agent.call_started(CallKind::Probe, Ok(()));
    assert_eq!(out, vec![(1, AuthState::Probing)]);
    let out = agent.call_started(CallKind::Signup, Ok(()));
    assert_eq!(out, vec![(1, AuthState::LoggingIn)]);
}

#[test]
fn broadcast_in_subscription_order_and_not_to_departed() {
    let mut agent = AuthAgent::create();
    agent.connected(5);
    agent.connected(2);
    agent.connected(9);
    agent.connected(2);
    let out = agent.update(Msg::LoggedOut);
    let to: Vec<u64> = out.iter().map(|d| d.0).collect();
    assert_eq!(to, vec![5, 2, 9]);
    agent.disconnected(2);
    agent.disconnected(4);
    let out = agent.update(Msg::LoggedOut);
    let to: Vec<u64> = out.iter().map(|d| d.0).collect();
    assert_eq!(to, vec![5, 9]);
}
