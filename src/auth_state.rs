//! The value of the session state machine.
use vstd::prelude::*;

use crate::model::UserInfo;

verus! {

/// Where the session stands; `Error` holds the reason of the last failure.
#[derive(Debug, Clone, PartialEq, Eq)]
pub enum AuthState {
    Initial,
    Probing,
    LoggingIn,
    LoggedIn(UserInfo),
    LoggingOut,
    Error(String),
}

impl AuthState {
    /// The id of the logged-in user, if any.
    pub open spec fn user_id(&self) -> Option<u128> {
        match self {
            AuthState::LoggedIn(u) => Some(u.uuid),
            _ => None,
        }
    }

    /// The logged-in user's id, if any.
    pub fn logged_in_user(&self) -> (r: Option<u128>)
        ensures
            r == self.user_id(),
    {
        match self {
            AuthState::LoggedIn(u) => Some(u.uuid),
            _ => None,
        }
    }

    /// A copy of this state.
    pub fn duplicate(&self) -> (r: AuthState)
        ensures
            r.same_as(*self),
    {
        match self {
            AuthState::Initial => AuthState::Initial,
            AuthState::Probing => AuthState::Probing,
            AuthState::LoggingIn => AuthState::LoggingIn,
            AuthState::LoggedIn(u) => AuthState::LoggedIn(u.duplicate()),
            AuthState::LoggingOut => AuthState::LoggingOut,
            AuthState::Error(e) => AuthState::Error(e.clone()),
        }
    }

    /// Two states are the same when they have the same variant and the same
    /// contents.
    pub open spec fn same_as(&self, o: AuthState) -> bool {
        match (*self, o) {
            (AuthState::Initial, AuthState::Initial) => true,
            (AuthState::Probing, AuthState::Probing) => true,
            (AuthState::LoggingIn, AuthState::LoggingIn) => true,
            (AuthState::LoggedIn(a), AuthState::LoggedIn(b)) => a.uuid == b.uuid && a.username@
                == b.username@,
            (AuthState::LoggingOut, AuthState::LoggingOut) => true,
            (AuthState::Error(a), AuthState::Error(b)) => a@ == b@,
            _ => false,
        }
    }
}

} // verus!
