//! The device-code authorization state machine: request a device code once,
//! render its verification URL as a QR code, poll for the token on a fixed
//! cadence, fetch the profile on grant, and stop silently when the last
//! consumer disappears. The wire calls themselves happen outside; this
//! machine decides each next step.

use vstd::prelude::*;

use crate::codec::{qr_code_png, qr_png_of};
use crate::errors::OpError;

verus! {

/// The token-poll cadence, in milliseconds.
pub const TOKEN_POLL_MS: u64 = 6000;

/// The pixel size QR codes are rendered at.
pub const QR_CODE_SIZE: usize = 300;

/// Where the authorization stands.
pub enum AuthState {
    Unauthenticated,
    AwaitingDeviceCode,
    PollingForToken { device_code: String },
    Authenticated { name: String },
}

/// What the caller is to do next.
pub enum AuthAction {
    Idle,
    RequestDeviceCode,
    PollTokenAfter { device_code: String, delay_ms: u64 },
    FetchProfile { token: String },
    RefreshListing,
    Stop,
}

/// A cloud session: the authorization state and the QR payload rendered for
/// the user, while one is on screen.
pub struct CloudSession {
    pub state: AuthState,
    pub qr_png: Option<Vec<u8>>,
}

/// Opening the cloud panel: only an unauthenticated session with no request
/// underway asks for a device code; any other state is left alone.
pub open spec fn open_transition(s: AuthState) -> (AuthState, bool) {
    match s {
        AuthState::Unauthenticated => (AuthState::AwaitingDeviceCode, true),
        _ => (s, false),
    }
}

impl CloudSession {
    /// A fresh, unauthenticated session.
    pub fn new() -> (r: CloudSession)
        ensures
            r.state is Unauthenticated,
            r.qr_png is None,
    {
        CloudSession { state: AuthState::Unauthenticated, qr_png: None }
    }

    /// The cloud panel was opened: an unauthenticated session asks for a
    /// device code, exactly once — while the answer or the token is still
    /// pending, further opens do nothing.
    pub fn open_cloud_panel(&mut self) -> (r: AuthAction)
        ensures
            (final(self).state, r is RequestDeviceCode) == open_transition(old(self).state),
            final(self).qr_png == old(self).qr_png,
            !(old(self).state is Unauthenticated) ==> r is Idle,
            old(self).state is Unauthenticated ==> r is RequestDeviceCode,
    {
        match self.state {
            AuthState::Unauthenticated => {
                self.state = AuthState::AwaitingDeviceCode;
                AuthAction::RequestDeviceCode
            },
            _ => AuthAction::Idle,
        }
    }

    /// The device-code request answered: on success the verification URL is
    /// rendered as the QR payload and the token poll begins at once; on
    /// failure the session returns to the start. Answers in any other state
    /// are stale and ignored.
    pub fn on_device_code(&mut self, result: Option<(String, String)>) -> (r: AuthAction)
        ensures
            !(old(self).state is AwaitingDeviceCode) ==> *final(self) == *old(self) && r is Idle,
            old(self).state is AwaitingDeviceCode ==> match result {
                Some(cu) => {
                    &&& final(self).state matches AuthState::PollingForToken { device_code }
                        && device_code == cu.0
                    &&& (r matches AuthAction::PollTokenAfter { device_code, delay_ms }
                        && device_code == cu.0 && delay_ms == 0)
                    &&& (qr_png_of(cu.1@, QR_CODE_SIZE as int) is Some ==> (
                    final(self).qr_png matches Some(png) && png@ == qr_png_of(
                        cu.1@,
                        QR_CODE_SIZE as int,
                    ).unwrap()))
                    &&& (qr_png_of(cu.1@, QR_CODE_SIZE as int) is None ==> final(self).qr_png
                        is None)
                },
                None => final(self).state is Unauthenticated && final(self).qr_png == old(
                    self,
                ).qr_png && r is Idle,
            },
    {
        match self.state {
            AuthState::AwaitingDeviceCode => {},
            _ => {
                return AuthAction::Idle;
            },
        }
        match result {
            Some((device_code, url)) => {
                match qr_code_png(url.as_str(), QR_CODE_SIZE) {
                    Ok(png) => {
                        self.qr_png = Some(png);
                    },
                    Err(_) => {
                        self.qr_png = None;
                    },
                }
                self.state = AuthState::PollingForToken { device_code: device_code.clone() };
                AuthAction::PollTokenAfter { device_code, delay_ms: 0 }
            },
            None => {
                self.state = AuthState::Unauthenticated;
                AuthAction::Idle
            },
        }
    }

    /// One token poll answered: a grant moves on to the profile fetch, a
    /// pending answer polls again after the cadence, and when the last
    /// consumer is gone the poll stops silently and the session returns to
    /// the start. Answers in any other state are stale and ignored.
    pub fn on_token_poll(&mut self, token: Option<String>, consumer_alive: bool) -> (r: AuthAction)
        ensures
            !(old(self).state is PollingForToken) ==> *final(self) == *old(self) && r is Idle,
            old(self).state matches AuthState::PollingForToken { device_code } ==> {
                if !consumer_alive {
                    &&& final(self).state is Unauthenticated
                    &&& final(self).qr_png is None
                    &&& r is Stop
                } else {
                    match token {
                        Some(t) => final(self).state == old(self).state && final(self).qr_png
                            == old(self).qr_png && (r matches AuthAction::FetchProfile { token }
                            && token == t),
                        None => final(self).state == old(self).state && final(self).qr_png == old(
                            self,
                        ).qr_png && (r matches AuthAction::PollTokenAfter {
                            device_code: dc,
                            delay_ms,
                        } && dc@ == device_code@ && delay_ms == TOKEN_POLL_MS),
                    }
                }
            },
    {
        let device_code = match &self.state {
            AuthState::PollingForToken { device_code } => device_code.clone(),
            _ => {
                return AuthAction::Idle;
            },
        };
        if !consumer_alive {
            self.state = AuthState::Unauthenticated;
            self.qr_png = None;
            return AuthAction::Stop;
        }
        match token {
            Some(t) => AuthAction::FetchProfile { token: t },
            None => AuthAction::PollTokenAfter { device_code, delay_ms: TOKEN_POLL_MS },
        }
    }

    /// The profile fetch answered: success authenticates the session, drops
    /// the QR payload and triggers the listing refresh; failure surfaces and
    /// resets the session to require a fresh device code. Answers in any
    /// other state are stale and ignored.
    pub fn on_profile(&mut self, name: Option<String>) -> (r: Result<AuthAction, OpError>)
        ensures
            !(old(self).state is PollingForToken) ==> *final(self) == *old(self) && r
                == Ok::<AuthAction, OpError>(AuthAction::Idle),
            old(self).state is PollingForToken ==> match name {
                Some(n) => {
                    &&& final(self).state matches AuthState::Authenticated { name } && name == n
                    &&& final(self).qr_png is None
                    &&& r == Ok::<AuthAction, OpError>(AuthAction::RefreshListing)
                },
                None => final(self).state is Unauthenticated && final(self).qr_png is None && r
                    == Err::<AuthAction, OpError>(OpError::AuthFailed),
            },
    {
        match &self.state {
            AuthState::PollingForToken { .. } => {},
            _ => {
                return Ok(AuthAction::Idle);
            },
        }
        match name {
            Some(n) => {
                self.state = AuthState::Authenticated { name: n };
                self.qr_png = None;
                Ok(AuthAction::RefreshListing)
            },
            None => {
                self.state = AuthState::Unauthenticated;
                self.qr_png = None;
                Err(OpError::AuthFailed)
            },
        }
    }

    /// Whether the session holds a granted, profile-backed login.
    pub fn is_login(&self) -> (r: bool)
        ensures
            r == (self.state is Authenticated),
    {
        match &self.state {
            AuthState::Authenticated { .. } => true,
            _ => false,
        }
    }
}

/// Opening the cloud panel twice before the device-code request answers
/// issues exactly one request: the first open asks, the second finds the
/// session already waiting and asks nothing.
pub proof fn lemma_single_device_code_request(s: AuthState)
    requires
        s is Unauthenticated,
    ensures
        ({
            let (s1, req1) = open_transition(s);
            let (s2, req2) = open_transition(s1);
            req1 && !req2 && s2 == s1
        }),
{
}

} // verus!
