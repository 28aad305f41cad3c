use tx_listener::manager::{initial, step, ManagerAction, ManagerEvent, ManagerState, BACKOFF_SECS};

#[test]
fn startup_asks_for_a_connection() {
    assert_eq!(initial(), (ManagerState::Connecting, ManagerAction::OpenConnection));
}

#[test]
fn backoff_interval_is_five_seconds() {
    assert_eq!(BACKOFF_SECS, 5);
}

#[test]
fn connect_failure_waits_then_retries() {
    let (s, a) = step(ManagerState::Connecting, ManagerEvent::ConnectFailed);
    assert_eq!((s, a), (ManagerState::BackingOff, ManagerAction::Wait));
    let (s, a) = step(s, ManagerEvent::BackoffElapsed);
    assert_eq!((s, a), (ManagerState::Connecting, ManagerAction::OpenConnection));
}

#[test]
fn subscribe_failure_starts_a_fresh_cycle() {
    let (s, a) = step(ManagerState::Connecting, ManagerEvent::ConnectSucceeded);
    assert_eq!((s, a), (ManagerState::Subscribing, ManagerAction::OpenSubscription));
    let (s, a) = step(s, ManagerEvent::SubscribeFailed);
    assert_eq!((s, a), (ManagerState::BackingOff, ManagerAction::Wait));
    let (s, a) = step(s, ManagerEvent::BackoffElapsed);
    assert_eq!((s, a), (ManagerState::Connecting, ManagerAction::OpenConnection));
}

#[test]
fn three_terminations_give_three_reconnect_attempts() {
    // Simulate three consecutive subscription terminations and count how
    // often the manager asks for a fresh connection; it must be exactly
    // once per termination, always after a backoff wait, and the machine
    // must be streaming again at the end of every cycle.
    let mut state = ManagerState::Streaming;
    let mut reconnect_attempts = 0;
    let mut waits = 0;
    for _ in 0..3 {
        let (s, a) = step(state, ManagerEvent::FeedEnded);
        assert_eq!(a, ManagerAction::Wait);
        waits += 1;
        state = s;

        let (s, a) = step(state, ManagerEvent::BackoffElapsed);
        assert_eq!(a, ManagerAction::OpenConnection);
        reconnect_attempts += 1;
        state = s;

        let (s, a) = step(state, ManagerEvent::ConnectSucceeded);
        assert_eq!(a, ManagerAction::OpenSubscription);
        state = s;

        let (s, a) = step(state, ManagerEvent::SubscribeSucceeded);
        assert_eq!(a, ManagerAction::RunProcessor);
        state = s;
        assert_eq!(state, ManagerState::Streaming);
    }
    assert_eq!(reconnect_attempts, 3);
    assert_eq!(waits, 3);
}
