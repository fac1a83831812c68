//! The device-authorization state machine.
//!
//! A session owns a transient state tag for one partition; the cache store
//! stays the source of truth and is re-read before every decision. The
//! machine never talks to the network itself: [`SessionState::next`] decides
//! what provider call (if any) the caller must make, and the three
//! `complete_*` methods apply the provider's answer, updating the store and
//! the state tag.

use vstd::prelude::*;
use vstd::string::*;

use crate::config::Partition;
use crate::domain::client_name;
use crate::store::{
    has_valid_registration, has_valid_token, find_valid_registration, same_but_registrations,
    same_but_tokens, spec_put_registration, spec_put_token, store_unchanged, CacheStore,
    Registration, Token,
};

verus! {

/// The confirmation payload a user needs while the device flow is pending.
pub struct ConfirmationInfo {
    pub partition: String,
    pub user_code: String,
    pub device_code: String,
    pub confirmation_url: String,
    pub polling_interval: i32,
    pub expires_at: i64,
}

impl Clone for ConfirmationInfo {
    fn clone(&self) -> (r: Self)
        ensures
            r == *self,
    {
        ConfirmationInfo {
            partition: self.partition.clone(),
            user_code: self.user_code.clone(),
            device_code: self.device_code.clone(),
            confirmation_url: self.confirmation_url.clone(),
            polling_interval: self.polling_interval,
            expires_at: self.expires_at,
        }
    }
}

/// Placeholder payload for a session that only needs re-polling.
pub struct RefreshInfo {
}

/// Payload reported when a token is ready.
pub struct SuccessInfo {
    pub expires_at: i64,
}

/// The outcome a caller-facing driver reports for one authorization run.
pub enum DeviceAuthState {
    NeedsConfirmation(ConfirmationInfo),
    NeedsRefresh(RefreshInfo),
    Success(SuccessInfo),
    Pending,
}

/// The events a caller can feed the machine.
pub enum Event {
    RegisterDevice,
    StartDeviceAuthorization,
    ConfirmDeviceAuthorization(ConfirmationInfo),
}

impl Clone for Event {
    fn clone(&self) -> (r: Self)
        ensures
            r == *self,
    {
        match self {
            Event::RegisterDevice => Event::RegisterDevice,
            Event::StartDeviceAuthorization => Event::StartDeviceAuthorization,
            Event::ConfirmDeviceAuthorization(cc) => Event::ConfirmDeviceAuthorization(cc.clone()),
        }
    }
}

/// The machine's states.
pub enum State {
    /// Nothing has been checked yet.
    Start,
    /// A non-expired registration is available.
    Registered,
    /// A token was requested; the user still has to confirm.
    AwaitingConfirmation(ConfirmationInfo),
    /// A non-expired token is available.
    Ready,
    /// A registration or start-authorization call failed for good.
    Failed { message: String },
}

impl Clone for State {
    fn clone(&self) -> (r: Self)
        ensures
            r == *self,
    {
        match self {
            State::Start => State::Start,
            State::Registered => State::Registered,
            State::AwaitingConfirmation(cc) => State::AwaitingConfirmation(cc.clone()),
            State::Ready => State::Ready,
            State::Failed { message } => State::Failed { message: message.clone() },
        }
    }
}

/// A caller protocol violation: the event is not legal in the current state.
#[derive(PartialEq, Eq, Structural, Clone, Copy, Debug)]
pub enum SessionError {
    InvalidTransition,
}

/// What the caller must do after a `next` decision.
pub enum Action {
    /// No provider call is needed; this is the step's outcome.
    Settled(State),
    /// Call the provider's client-registration operation, then apply the
    /// answer with `complete_registration`.
    RegisterClient { client_name: String, client_type: String },
    /// Call the device-authorization start operation, then apply the answer
    /// with `complete_start_authorization`.
    StartAuthorization { client_id: String, client_secret: String, start_url: String },
    /// Call the token-exchange operation, then apply the answer with
    /// `complete_token_exchange`.
    CreateToken { client_id: String, client_secret: String, device_code: String, grant_type: String },
}

/// What the provider answered to a client-registration call.
pub enum RegisterOutcome {
    Success { client_id: String, client_secret: String, issued_at: i64, expires_at: i64 },
    Failure { message: String },
}

/// What the provider answered to a device-authorization start call.
pub enum StartAuthOutcome {
    Success {
        user_code: String,
        device_code: String,
        verification_uri_complete: String,
        expires_in: i32,
        interval: i32,
    },
    Failure { message: String },
}

/// What the provider answered to a token-exchange call.
pub enum TokenOutcome {
    Success { access_token: String, token_type: String, expires_in: i64 },
    /// The user has not confirmed yet; keep polling.
    Pending,
    /// The provider asked for a slower poll; keep polling.
    SlowDown,
    /// Any other provider or transport error; the poll can still succeed.
    Other { message: String },
}

/// One partition's ephemeral session. The state tag is transient; the
/// cache store stays the source of truth.
pub struct SessionState {
    pub partition: Partition,
    pub state: State,
}

impl SessionState {
    /// The session's partition is well-formed.
    pub open spec fn wf(&self) -> bool {
        self.partition.wf()
    }

    /// A fresh session for `partition`, starting at `Start`.
    pub fn new(partition: Partition) -> (r: SessionState)
        requires
            partition.wf(),
        ensures
            r.wf(),
            r.partition == partition,
            r.state == State::Start,
    {
        SessionState { partition, state: State::Start }
    }

    /// Decides one step. If the store already holds a valid token the
    /// machine reports `Ready` whatever the event and prior state; else the
    /// decision follows the transition table, and an event that is not
    /// legal in the current state fails the call.
    pub fn next(&mut self, store: &CacheStore, event: Event, now_ms: i64) -> (r: Result<
        Action,
        SessionError,
    >)
        requires
            old(self).wf(),
        ensures
            final(self).wf(),
            final(self).partition == old(self).partition,
            ({
                let p = old(self).partition.spec_slug();
                let s0 = old(self).state;
                let s1 = final(self).state;
                let hvt = has_valid_token(store.token_rows(), p, now_ms as int);
                let hvr = has_valid_registration(store.reg_rows(), p, now_ms as int);
                let reg = find_valid_registration(store.reg_rows(), p, now_ms as int)->Some_0;
                &&& hvt ==> r == Ok::<Action, SessionError>(Action::Settled(State::Ready)) && s1
                    == State::Ready
                &&& !hvt && s0 is Start && event is RegisterDevice && hvr ==> r == Ok::<
                    Action,
                    SessionError,
                >(Action::Settled(State::Registered)) && s1 == State::Registered
                &&& !hvt && s0 is Start && event is RegisterDevice && !hvr ==> (r matches Ok(
                    Action::RegisterClient { client_name: _, client_type },
                ) && client_type@ == "public"@ && s1 == s0)
                &&& !hvt && s0 is Registered && event is StartDeviceAuthorization && !hvr ==> r
                    == Ok::<Action, SessionError>(Action::Settled(State::Start)) && s1
                    == State::Start
                &&& !hvt && s0 is Registered && event is StartDeviceAuthorization && hvr ==> (r
                    matches Ok(Action::StartAuthorization { client_id, client_secret, start_url })
                    && {
                    &&& client_id == reg.client_id
                    &&& client_secret == reg.client_secret
                    &&& start_url == old(self).partition.start_url
                    &&& s1 == s0
                })
                &&& event matches Event::ConfirmDeviceAuthorization(cc) ==> {
                    &&& !hvt && !hvr ==> r == Ok::<Action, SessionError>(Action::Settled(
                        State::Start,
                    )) && s1 == State::Start
                    &&& !hvt && hvr ==> (r matches Ok(
                        Action::CreateToken { client_id, client_secret, device_code, grant_type },
                    ) && {
                        &&& client_id == reg.client_id
                        &&& client_secret == reg.client_secret
                        &&& device_code == cc.device_code
                        &&& grant_type@ == "urn:ietf:params:oauth:grant-type:device_code"@
                        &&& s1 == s0
                    })
                }
                &&& !hvt && !(s0 is Start && event is RegisterDevice) && !(s0 is Registered
                    && event is StartDeviceAuthorization) && !(event
                    is ConfirmDeviceAuthorization) ==> r == Err::<Action, SessionError>(
                    SessionError::InvalidTransition,
                ) && s1 == s0
            }),
    {
        let p = self.partition.slug();
        if store.get_valid_token(&p, now_ms).is_some() {
            self.state = State::Ready;
            return Ok(Action::Settled(State::Ready));
        }
        let s0 = self.state.clone();
        match (s0, event) {
            (State::Start, Event::RegisterDevice) => {
                match store.get_valid_registration(&p, now_ms) {
                    Some(_) => {
                        self.state = State::Registered;
                        Ok(Action::Settled(State::Registered))
                    },
                    None => Ok(
                        Action::RegisterClient {
                            client_name: client_name(),
                            client_type: String::from_str("public"),
                        },
                    ),
                }
            },
            (State::Registered, Event::StartDeviceAuthorization) => {
                match store.get_valid_registration(&p, now_ms) {
                    None => {
                        self.state = State::Start;
                        Ok(Action::Settled(State::Start))
                    },
                    Some(reg) => Ok(
                        Action::StartAuthorization {
                            client_id: reg.client_id,
                            client_secret: reg.client_secret,
                            start_url: self.partition.start_url.clone(),
                        },
                    ),
                }
            },
            (_, Event::ConfirmDeviceAuthorization(cc)) => {
                match store.get_valid_registration(&p, now_ms) {
                    None => {
                        self.state = State::Start;
                        Ok(Action::Settled(State::Start))
                    },
                    Some(reg) => Ok(
                        Action::CreateToken {
                            client_id: reg.client_id,
                            client_secret: reg.client_secret,
                            device_code: cc.device_code,
                            grant_type: String::from_str(
                                "urn:ietf:params:oauth:grant-type:device_code",
                            ),
                        },
                    ),
                }
            },
            _ => Err(SessionError::InvalidTransition),
        }
    }

    /// Applies the provider's answer to a client-registration call: a
    /// success is persisted and the machine is `Registered`; a failure is
    /// terminal.
    pub fn complete_registration(&mut self, store: &mut CacheStore, outcome: RegisterOutcome) -> (r:
        State)
        requires
            old(self).wf(),
            old(store).wf(),
        ensures
            final(self).wf(),
            final(store).wf(),
            final(self).partition == old(self).partition,
            (outcome matches RegisterOutcome::Success {
                client_id,
                client_secret,
                issued_at,
                expires_at,
            } ==> {
                &&& r == State::Registered
                &&& final(self).state == State::Registered
                &&& same_but_registrations(*old(store), *final(store))
                &&& exists|row: Registration|
                    {
                        &&& row.partition@ == old(self).partition.spec_slug()
                        &&& row.client_id == client_id
                        &&& row.client_secret == client_secret
                        &&& row.issued_at == issued_at
                        &&& row.expires_at == expires_at
                        &&& final(store).reg_rows() == spec_put_registration(
                            old(store).reg_rows(),
                            row,
                        )
                    }
            }),
            (outcome matches RegisterOutcome::Failure { message } ==> {
                &&& r == (State::Failed { message })
                &&& final(self).state == r
                &&& store_unchanged(*old(store), *final(store))
            }),
    {
        match outcome {
            RegisterOutcome::Success { client_id, client_secret, issued_at, expires_at } => {
                let p = self.partition.slug();
                let ghost cid = client_id;
                let ghost csec = client_secret;
                let row = store.put_registration(p, client_id, client_secret, issued_at,
                    expires_at);
                proof {
                    assert(row.partition@ == old(self).partition.spec_slug());
                    assert(row.client_id == cid && row.client_secret == csec);
                }
                self.state = State::Registered;
                State::Registered
            },
            RegisterOutcome::Failure { message } => {
                let out = State::Failed { message };
                self.state = out.clone();
                out
            },
        }
    }

    /// Applies the provider's answer to a device-authorization start call:
    /// a success builds the confirmation payload and waits for the user; a
    /// failure is terminal.
    pub fn complete_start_authorization(&mut self, outcome: StartAuthOutcome, now_ms: i64) -> (r:
        State)
        requires
            old(self).wf(),
            0 <= now_ms,
            outcome matches StartAuthOutcome::Success { expires_in, .. } ==> 0 <= expires_in
                && now_ms + expires_in * 1000 <= i64::MAX,
        ensures
            final(self).wf(),
            final(self).partition == old(self).partition,
            final(self).state == r,
            (outcome matches StartAuthOutcome::Success {
                user_code,
                device_code,
                verification_uri_complete,
                expires_in,
                interval,
            } ==> r matches State::AwaitingConfirmation(cc) && {
                &&& cc.partition@ == old(self).partition.spec_slug()
                &&& cc.user_code == user_code
                &&& cc.device_code == device_code
                &&& cc.confirmation_url == verification_uri_complete
                &&& cc.polling_interval == interval
                &&& cc.expires_at == now_ms + expires_in * 1000
            }),
            (outcome matches StartAuthOutcome::Failure { message } ==> r == (State::Failed {
                message,
            })),
    {
        match outcome {
            StartAuthOutcome::Success {
                user_code,
                device_code,
                verification_uri_complete,
                expires_in,
                interval,
            } => {
                let expires_at = now_ms + (expires_in as i64) * 1000;
                let cc = ConfirmationInfo {
                    partition: self.partition.slug(),
                    user_code,
                    device_code,
                    confirmation_url: verification_uri_complete,
                    polling_interval: interval,
                    expires_at,
                };
                let out = State::AwaitingConfirmation(cc);
                self.state = out.clone();
                out
            },
            StartAuthOutcome::Failure { message } => {
                let out = State::Failed { message };
                self.state = out.clone();
                out
            },
        }
    }

    /// Applies the provider's answer to a token-exchange call: a bearer
    /// token is persisted and the machine is `Ready`; "pending",
    /// "slow down" and every other error keep the same confirmation payload
    /// so the caller can poll again.
    pub fn complete_token_exchange(
        &mut self,
        store: &mut CacheStore,
        confirmation: ConfirmationInfo,
        outcome: TokenOutcome,
        now_ms: i64,
    ) -> (r: State)
        requires
            old(self).wf(),
            old(store).wf(),
            0 <= now_ms,
            outcome matches TokenOutcome::Success { expires_in, .. } ==> 0 <= expires_in && now_ms
                + expires_in * 1000 <= i64::MAX,
        ensures
            final(self).wf(),
            final(store).wf(),
            final(self).partition == old(self).partition,
            final(self).state == r,
            (outcome matches TokenOutcome::Success { access_token, token_type, expires_in } ==> {
                if token_type@ == "Bearer"@ {
                    &&& r == State::Ready
                    &&& same_but_tokens(*old(store), *final(store))
                    &&& exists|row: Token|
                        {
                            &&& row.partition@ == old(self).partition.spec_slug()
                            &&& row.token_type == token_type
                            &&& row.access_token == access_token
                            &&& row.expires_at == now_ms + expires_in * 1000
                            &&& final(store).token_rows() == spec_put_token(
                                old(store).token_rows(),
                                row,
                            )
                        }
                } else {
                    &&& r == State::AwaitingConfirmation(confirmation)
                    &&& store_unchanged(*old(store), *final(store))
                }
            }),
            (outcome is Pending ==> r == State::AwaitingConfirmation(confirmation)
                && store_unchanged(*old(store), *final(store))),
            (outcome is SlowDown ==> r == State::AwaitingConfirmation(confirmation)
                && store_unchanged(*old(store), *final(store))),
            (outcome matches TokenOutcome::Other { message } ==> r == State::AwaitingConfirmation(
                confirmation,
            ) && store_unchanged(*old(store), *final(store))),
    {
        match outcome {
            TokenOutcome::Success { access_token, token_type, expires_in } => {
                let bearer = String::from_str("Bearer");
                if token_type == bearer {
                    let p = self.partition.slug();
                    let tok = store.put_token(p, access_token, expires_in, token_type, now_ms);
                    proof {
                        assert(tok.partition@ == old(self).partition.spec_slug());
                    }
                    self.state = State::Ready;
                    State::Ready
                } else {
                    let out = State::AwaitingConfirmation(confirmation);
                    self.state = out.clone();
                    out
                }
            },
            TokenOutcome::Pending => {
                let out = State::AwaitingConfirmation(confirmation);
                self.state = out.clone();
                out
            },
            TokenOutcome::SlowDown => {
                let out = State::AwaitingConfirmation(confirmation);
                self.state = out.clone();
                out
            },
            TokenOutcome::Other { message: _ } => {
                let out = State::AwaitingConfirmation(confirmation);
                self.state = out.clone();
                out
            },
        }
    }
}

} // verus!
