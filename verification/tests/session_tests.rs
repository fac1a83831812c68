use arsd::config::Partition;
use arsd::session::{
    Action, ConfirmationInfo, Event, RegisterOutcome, SessionState, SessionError,
    StartAuthOutcome, State, TokenOutcome,
};
use arsd::store::CacheStore;

fn partition() -> Partition {
    Partition {
        start_url: String::from("https://corp.awsapps.com/start#"),
        account_id: None,
        region: String::from("us-west-2"),
    }
}

fn confirmation(device_code: &str) -> ConfirmationInfo {
    ConfirmationInfo {
        partition: String::from("us-west-2-corp"),
        user_code: String::from("ABCD-1234"),
        device_code: String::from(device_code),
        confirmation_url: String::from("https://device.sso.us-west-2.amazonaws.com/?user_code=ABCD-1234"),
        polling_interval: 5,
        expires_at: 600_000,
    }
}

#[test]
fn short_circuits_to_ready_whatever_the_event_and_state() {
    let mut store = CacheStore::new();
    let now: i64 = 10_000;
    store.put_token(
        String::from("us-west-2-corp"),
        String::from("SECRET-REDACTED"),
        3600,
        String::from("Bearer"),
        now,
    );
    // a fresh session at Start
    let mut sess = SessionState::new(partition());
    let r = sess.next(&store, Event::RegisterDevice, now).unwrap();
    assert!(matches!(r, Action::Settled(State::Ready)));
    assert!(matches!(sess.state, State::Ready));
    // an event that would otherwise be illegal still reports Ready
    let mut sess2 = SessionState::new(partition());
    let r2 = sess2.next(&store, Event::StartDeviceAuthorization, now).unwrap();
    assert!(matches!(r2, Action::Settled(State::Ready)));
    // so does a confirmation event
    let mut sess3 = SessionState::new(partition());
    let r3 = sess3
        .next(&store, Event::ConfirmDeviceAuthorization(confirmation("dc1")), now)
        .unwrap();
    assert!(matches!(r3, Action::Settled(State::Ready)));
}

#[test]
fn register_device_reuses_a_cached_registration() {
    let mut store = CacheStore::new();
    let now: i64 = 0;
    store.put_registration(
        String::from("us-west-2-corp"),
        String::from("cid"),
        String::from("SECRET-REDACTED"),
        now,
        now + 3_600_000,
    );
    let mut sess = SessionState::new(partition());
    let r = sess.next(&store, Event::RegisterDevice, now).unwrap();
    assert!(matches!(r, Action::Settled(State::Registered)));
    assert!(matches!(sess.state, State::Registered));
}

#[test]
fn register_device_asks_for_a_provider_call_when_nothing_is_cached() {
    let store = CacheStore::new();
    let mut sess = SessionState::new(partition());
    let r = sess.next(&store, Event::RegisterDevice, 0).unwrap();
    match r {
        Action::RegisterClient { client_type, .. } => {
            assert_eq!(client_type, "public");
        }
        other => panic!("expected a register action, got {:?}", action_name(&other)),
    }
    // the machine has not moved yet
    assert!(matches!(sess.state, State::Start));
}

#[test]
fn start_authorization_without_a_registration_reverts_to_start() {
    let store = CacheStore::new();
    let mut sess = SessionState::new(partition());
    sess.state = State::Registered;
    let r = sess.next(&store, Event::StartDeviceAuthorization, 0).unwrap();
    assert!(matches!(r, Action::Settled(State::Start)));
    assert!(matches!(sess.state, State::Start));
}

#[test]
fn start_authorization_uses_the_cached_registration() {
    let mut store = CacheStore::new();
    store.put_registration(
        String::from("us-west-2-corp"),
        String::from("cid"),
        String::from("SECRET-REDACTED"),
        0,
        3_600_000,
    );
    let mut sess = SessionState::new(partition());
    sess.state = State::Registered;
    let r = sess.next(&store, Event::StartDeviceAuthorization, 0).unwrap();
    match r {
        Action::StartAuthorization { client_id, client_secret, start_url } => {
            assert_eq!(client_id, "cid");
            assert_eq!(client_secret, "SECRET-REDACTED");
            assert_eq!(start_url, "https://corp.awsapps.com/start#");
        }
        other => panic!("expected a start action, got {:?}", action_name(&other)),
    }
}

#[test]
fn illegal_event_fails_the_call() {
    let store = CacheStore::new();
    let mut sess = SessionState::new(partition());
    let r = sess.next(&store, Event::StartDeviceAuthorization, 0);
    assert!(matches!(r, Err(SessionError::InvalidTransition)));
    assert!(matches!(sess.state, State::Start));

    sess.state = State::Registered;
    let r2 = sess.next(&store, Event::RegisterDevice, 0);
    assert!(matches!(r2, Err(SessionError::InvalidTransition)));
}

#[test]
fn registration_failure_is_terminal() {
    let mut store = CacheStore::new();
    let mut sess = SessionState::new(partition());
    let r = sess.complete_registration(
        &mut store,
        RegisterOutcome::Failure { message: String::from("Failed to register client") },
    );
    match r {
        State::Failed { message } => assert_eq!(message, "Failed to register client"),
        _ => panic!("expected a terminal failure"),
    }
}

#[test]
fn start_authorization_failure_is_terminal() {
    let mut sess = SessionState::new(partition());
    sess.state = State::Registered;
    let r = sess.complete_start_authorization(
        StartAuthOutcome::Failure { message: String::from("Failed to start device auth") },
        0,
    );
    assert!(matches!(r, State::Failed { .. }));
    assert!(matches!(sess.state, State::Failed { .. }));
}

#[test]
fn pending_and_slow_down_keep_the_same_confirmation() {
    let mut store = CacheStore::new();
    let mut sess = SessionState::new(partition());
    let cc = confirmation("dc1");

    let r = sess.complete_token_exchange(&mut store, cc.clone(), TokenOutcome::Pending, 0);
    match r {
        State::AwaitingConfirmation(got) => {
            assert_eq!(got.user_code, cc.user_code);
            assert_eq!(got.device_code, cc.device_code);
            assert_eq!(got.confirmation_url, cc.confirmation_url);
            assert_eq!(got.polling_interval, cc.polling_interval);
            assert_eq!(got.expires_at, cc.expires_at);
        }
        _ => panic!("pending must stay awaiting confirmation"),
    }

    let r2 = sess.complete_token_exchange(&mut store, cc.clone(), TokenOutcome::SlowDown, 0);
    match r2 {
        State::AwaitingConfirmation(got) => {
            assert_eq!(got.device_code, cc.device_code);
            assert_eq!(got.user_code, cc.user_code);
        }
        _ => panic!("slow-down must stay awaiting confirmation"),
    }
    // no token was stored by either answer
    assert!(store.get_valid_token(&String::from("us-west-2-corp"), 0).is_none());
}

#[test]
fn other_token_errors_also_keep_polling() {
    let mut store = CacheStore::new();
    let mut sess = SessionState::new(partition());
    let cc = confirmation("dc1");
    let r = sess.complete_token_exchange(
        &mut store,
        cc.clone(),
        TokenOutcome::Other { message: String::from("internal error") },
        0,
    );
    assert!(matches!(r, State::AwaitingConfirmation(_)));
    assert!(store.get_valid_token(&String::from("us-west-2-corp"), 0).is_none());
}

#[test]
fn end_to_end_device_flow() {
    let mut store = CacheStore::new();
    let mut sess = SessionState::new(partition());
    let now: i64 = 1_700_000_000_000;

    // fresh partition, no cache: registering asks for a provider call
    let r = sess.next(&store, Event::RegisterDevice, now).unwrap();
    assert!(matches!(r, Action::RegisterClient { .. }));
    let st = sess.complete_registration(
        &mut store,
        RegisterOutcome::Success {
            client_id: String::from("cid"),
            client_secret: String::from("SECRET-REDACTED"),
            issued_at: now,
            expires_at: now + 86_400_000,
        },
    );
    assert!(matches!(st, State::Registered));

    // starting device authorization asks for the start call
    let r2 = sess.next(&store, Event::StartDeviceAuthorization, now).unwrap();
    let (client_id, device_code) = match r2 {
        Action::StartAuthorization { client_id, .. } => (client_id, String::from("dc1")),
        _ => panic!("expected a start-authorization action"),
    };
    assert_eq!(client_id, "cid");
    let st2 = sess.complete_start_authorization(
        StartAuthOutcome::Success {
            user_code: String::from("ABCD-1234"),
            device_code: device_code.clone(),
            verification_uri_complete: String::from(
                "https://device.sso.us-west-2.amazonaws.com/?user_code=ABCD-1234",
            ),
            expires_in: 600,
            interval: 5,
        },
        now,
    );
    let cc = match st2 {
        State::AwaitingConfirmation(cc) => {
            assert_eq!(cc.user_code, "ABCD-1234");
            assert_eq!(cc.device_code, "dc1");
            assert_eq!(cc.polling_interval, 5);
            assert_eq!(cc.expires_at, now + 600 * 1000);
            cc
        }
        _ => panic!("expected to wait for confirmation"),
    };

    // the user has not confirmed yet: the poll stays where it is
    let r3 = sess
        .next(&store, Event::ConfirmDeviceAuthorization(cc.clone()), now)
        .unwrap();
    match &r3 {
        Action::CreateToken { device_code, grant_type, .. } => {
            assert_eq!(device_code, "dc1");
            assert_eq!(grant_type, "urn:ietf:params:oauth:grant-type:device_code");
        }
        _ => panic!("expected a token-exchange action"),
    }
    let st3 = sess.complete_token_exchange(&mut store, cc.clone(), TokenOutcome::Pending, now);
    match st3 {
        State::AwaitingConfirmation(got) => assert_eq!(got.device_code, "dc1"),
        _ => panic!("pending must stay awaiting confirmation"),
    }

    // the same call after the provider returns success moves to Ready
    let r4 = sess
        .next(&store, Event::ConfirmDeviceAuthorization(cc.clone()), now)
        .unwrap();
    assert!(matches!(r4, Action::CreateToken { .. }));
    let st4 = sess.complete_token_exchange(
        &mut store,
        cc,
        TokenOutcome::Success {
            access_token: String::from("SECRET-REDACTED"),
            token_type: String::from("Bearer"),
            expires_in: 3600,
        },
        now,
    );
    assert!(matches!(st4, State::Ready));
    let tok = store
        .get_valid_token(&String::from("us-west-2-corp"), now)
        .expect("the stored token should be valid");
    assert_eq!(tok.expires_at, now + 3600 * 1000);

    // and from now on every step short-circuits to Ready
    let r5 = sess.next(&store, Event::RegisterDevice, now).unwrap();
    assert!(matches!(r5, Action::Settled(State::Ready)));
}

#[test]
fn non_bearer_token_is_not_stored() {
    let mut store = CacheStore::new();
    let mut sess = SessionState::new(partition());
    let cc = confirmation("dc1");
    let r = sess.complete_token_exchange(
        &mut store,
        cc,
        TokenOutcome::Success {
            access_token: String::from("SECRET-REDACTED"),
            token_type: String::from("MAC"),
            expires_in: 3600,
        },
        0,
    );
    assert!(matches!(r, State::AwaitingConfirmation(_)));
    assert!(store.get_valid_token(&String::from("us-west-2-corp"), 0).is_none());
}

fn action_name(a: &Action) -> &'static str {
    match a {
        Action::Settled(_) => "settled",
        Action::RegisterClient { .. } => "register",
        Action::StartAuthorization { .. } => "start",
        Action::CreateToken { .. } => "create-token",
    }
}
