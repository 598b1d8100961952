use snzup_subscription::{
    cancel_subscription, initialize, set_status, subscribe, validate_subscription, ErrorCode,
    Identity, Record, State, SubscriptionCancelled, SubscriptionCreated,
};

fn sid(n: u8) -> Identity {
    Identity::new([n; 32])
}

fn wallet_of(n: u8, lamports: u64) -> Record {
    Record { key: sid(n), owner: Identity::system_program(), lamports }
}

fn host() -> Identity {
    sid(1)
}

fn open_challenge(fee: u64) -> State {
    initialize(host(), 255, 9, fee, 10, sid(2)).unwrap().0
}

#[test]
fn subscription_moves_the_fee_and_lists_the_subscriber() {
    let mut state = open_challenge(50);
    let mut who = wallet_of(20, 80);
    let mut pool = 1000;
    assert_eq!(
        subscribe(&mut state, &mut who, &mut pool, 123),
        Ok(SubscriptionCreated { challenge_id: 9, subscriber: sid(20), timestamp: 123 })
    );
    assert_eq!(who, wallet_of(20, 30));
    assert_eq!(pool, 1050);
    assert_eq!(state.subscribers, vec![sid(20)]);
    assert_eq!(state.op_counter, 0);
    let mut next = wallet_of(21, 50);
    subscribe(&mut state, &mut next, &mut pool, 124).unwrap();
    assert_eq!(next.lamports, 0);
    assert_eq!(pool, 1100);
    assert_eq!(state.subscribers, vec![sid(20), sid(21)]);
}

#[test]
fn subscription_twice_is_refused_and_changes_nothing() {
    let mut state = open_challenge(50);
    let mut who = wallet_of(20, 200);
    let mut pool = 0;
    subscribe(&mut state, &mut who, &mut pool, 1).unwrap();
    let before = state.clone();
    assert_eq!(subscribe(&mut state, &mut who, &mut pool, 2), Err(ErrorCode::AlreadySubscribed));
    assert_eq!(state, before);
    assert_eq!(state.subscribers, vec![sid(20)]);
    assert_eq!(pool, 50);
    assert_eq!(who.lamports, 150);
}

#[test]
fn subscription_to_started_challenge_is_refused() {
    for code in [1u8, 2, 3] {
        let mut state = open_challenge(50);
        set_status(&mut state, &host(), code).unwrap();
        let mut who = wallet_of(20, 200);
        let mut pool = 0;
        assert_eq!(
            subscribe(&mut state, &mut who, &mut pool, 1),
            Err(ErrorCode::ChallengeInProgressOrExpired)
        );
        assert!(state.subscribers.is_empty());
        assert_eq!(pool, 0);
        assert_eq!(who.lamports, 200);
    }
}

#[test]
fn subscription_to_full_challenge_is_refused() {
    let mut state = open_challenge(1);
    let mut pool = 0;
    for n in 0..100u8 {
        let mut who = wallet_of(100 + n, 1);
        subscribe(&mut state, &mut who, &mut pool, 1).unwrap();
    }
    assert_eq!(state.subscribers.len(), 100);
    assert_eq!(pool, 100);
    let mut late = wallet_of(20, 10);
    assert_eq!(
        subscribe(&mut state, &mut late, &mut pool, 2),
        Err(ErrorCode::MaxSubscribersReached)
    );
    let mut again = wallet_of(100, 10);
    assert_eq!(
        subscribe(&mut state, &mut again, &mut pool, 2),
        Err(ErrorCode::MaxSubscribersReached)
    );
    assert_eq!(state.subscribers.len(), 100);
    assert_eq!(pool, 100);
    assert_eq!(late.lamports, 10);
}

#[test]
fn subscription_without_the_fee_is_refused() {
    let mut state = open_challenge(50);
    let mut who = wallet_of(20, 49);
    let mut pool = 0;
    assert_eq!(subscribe(&mut state, &mut who, &mut pool, 1), Err(ErrorCode::InsufficientBalance));
    assert!(state.subscribers.is_empty());
    assert_eq!((who.lamports, pool), (49, 0));
}

#[test]
fn subscription_that_overflows_the_pool_is_refused() {
    let mut state = open_challenge(50);
    let mut who = wallet_of(20, 50);
    let mut pool = u64::MAX - 49;
    assert_eq!(subscribe(&mut state, &mut who, &mut pool, 1), Err(ErrorCode::LamportMathError));
    assert!(state.subscribers.is_empty());
    assert_eq!((who.lamports, pool), (50, u64::MAX - 49));
}

#[test]
fn validation_reports_the_first_objection() {
    let mut state = open_challenge(1);
    assert_eq!(validate_subscription(&state, &sid(20)), Ok(()));
    state.subscribers.push(sid(20));
    assert_eq!(validate_subscription(&state, &sid(20)), Err(ErrorCode::AlreadySubscribed));
    assert_eq!(validate_subscription(&state, &sid(21)), Ok(()));
    set_status(&mut state, &host(), 1).unwrap();
    assert_eq!(
        validate_subscription(&state, &sid(20)),
        Err(ErrorCode::ChallengeInProgressOrExpired)
    );
}

#[test]
fn cancellation_removes_the_subscriber_in_place() {
    let mut state = open_challenge(1);
    state.subscribers = vec![sid(20), sid(21), sid(22)];
    assert_eq!(
        cancel_subscription(&mut state, &host(), sid(21), 5),
        Ok(Some(SubscriptionCancelled { challenge_id: 9, subscriber: sid(21), timestamp: 5 }))
    );
    assert_eq!(state.subscribers, vec![sid(20), sid(22)]);
    assert_eq!(state.op_counter, 0);
}

#[test]
fn cancellation_of_absent_subscriber_is_a_silent_no_op() {
    let mut state = open_challenge(1);
    state.subscribers = vec![sid(20), sid(22)];
    let before = state.clone();
    assert_eq!(cancel_subscription(&mut state, &host(), sid(21), 5), Ok(None));
    assert_eq!(state, before);
    assert_eq!(cancel_subscription(&mut state, &host(), sid(21), 6), Ok(None));
    assert_eq!(state, before);
}

#[test]
fn cancellation_on_closed_challenge_is_refused() {
    let mut state = open_challenge(1);
    state.subscribers = vec![sid(20)];
    set_status(&mut state, &host(), 2).unwrap();
    assert_eq!(cancel_subscription(&mut state, &host(), sid(20), 5), Err(ErrorCode::InvalidStatus));
    assert_eq!(state.subscribers, vec![sid(20)]);
}

#[test]
fn cancellation_on_canceled_challenge_is_accepted() {
    let mut state = open_challenge(1);
    state.subscribers = vec![sid(20)];
    set_status(&mut state, &host(), 3).unwrap();
    assert!(cancel_subscription(&mut state, &host(), sid(20), 5).unwrap().is_some());
    assert!(state.subscribers.is_empty());
}

#[test]
fn cancellation_by_stranger_is_unauthorized() {
    let mut state = open_challenge(1);
    state.subscribers = vec![sid(20)];
    state.owners.push(sid(5));
    assert_eq!(cancel_subscription(&mut state, &sid(20), sid(20), 5), Err(ErrorCode::Unauthorized));
    assert_eq!(cancel_subscription(&mut state, &sid(5), sid(20), 5), Err(ErrorCode::Unauthorized));
    assert_eq!(state.subscribers, vec![sid(20)]);
}
