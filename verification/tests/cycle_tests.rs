use dynhost::{
    classify_update_response, resolve_body, verbosity_level, Decision, FetchError, Ipv4,
    LoopState, UpdateError, Verbosity,
};

#[test]
fn start_state_is_the_loopback_placeholder() {
    let state = LoopState::start();
    assert_eq!(state.last_known, Ipv4::new(127, 0, 0, 1));
}

#[test]
fn first_resolution_forces_an_update_attempt() {
    let state = LoopState::start();
    let fetched: Result<Ipv4, FetchError> = Ok(Ipv4::new(198, 51, 100, 7));
    assert_eq!(state.decide(&fetched), Decision::AttemptUpdate(Ipv4::new(198, 51, 100, 7)));
}

#[test]
fn unchanged_address_never_invokes_the_updater() {
    let mut state = LoopState::start();
    state.record(Ipv4::new(198, 51, 100, 7), &Ok(()));
    let fetched: Result<Ipv4, FetchError> = Ok(Ipv4::new(198, 51, 100, 7));
    for _ in 0..5 {
        assert_eq!(state.decide(&fetched), Decision::SkipUnchanged);
        assert_eq!(state.last_known, Ipv4::new(198, 51, 100, 7));
    }
}

#[test]
fn resolver_failure_skips_the_cycle_without_touching_state() {
    let state = LoopState::start();
    let fetched: Result<Ipv4, FetchError> =
        Err(FetchError::Transport { cause: String::from("connection refused") });
    assert_eq!(state.decide(&fetched), Decision::SkipFetchFailed);
    assert_eq!(state.last_known, Ipv4::new(127, 0, 0, 1));
    let next: Result<Ipv4, FetchError> = Ok(Ipv4::new(10, 0, 0, 1));
    assert_eq!(state.decide(&next), Decision::AttemptUpdate(Ipv4::new(10, 0, 0, 1)));
}

#[test]
fn update_failures_are_retried_until_the_first_success() {
    let mut state = LoopState::start();
    let target = Ipv4::new(198, 51, 100, 7);
    let fetched: Result<Ipv4, FetchError> = Ok(target);
    for _ in 0..3 {
        assert_eq!(state.decide(&fetched), Decision::AttemptUpdate(target));
        let failure: Result<(), UpdateError> =
            Err(UpdateError::Transport { cause: String::from("timed out") });
        state.record(target, &failure);
        assert_eq!(state.last_known, Ipv4::new(127, 0, 0, 1));
    }
    assert_eq!(state.decide(&fetched), Decision::AttemptUpdate(target));
    state.record(target, &Ok(()));
    assert_eq!(state.last_known, target);
    assert_eq!(state.decide(&fetched), Decision::SkipUnchanged);
}

#[test]
fn four_tick_session() {
    let mut state = LoopState::start();

    // Tick 1: first ever resolution; the provider confirms.
    let fetched = resolve_body("198.51.100.7");
    let first = match state.decide(&fetched) {
        Decision::AttemptUpdate(x) => x,
        d => panic!("tick 1 must attempt an update, got {:?}", d),
    };
    assert_eq!(first, Ipv4::new(198, 51, 100, 7));
    let outcome = classify_update_response(200, String::from("good"));
    state.record(first, &outcome);
    assert_eq!(state.last_known, Ipv4::new(198, 51, 100, 7));

    // Tick 2: the same address again; the updater is not called.
    let fetched = resolve_body("198.51.100.7");
    assert_eq!(state.decide(&fetched), Decision::SkipUnchanged);

    // Tick 3: a new address, but the provider rejects the update.
    let fetched = resolve_body("198.51.100.8");
    let third = match state.decide(&fetched) {
        Decision::AttemptUpdate(x) => x,
        d => panic!("tick 3 must attempt an update, got {:?}", d),
    };
    assert_eq!(third, Ipv4::new(198, 51, 100, 8));
    let outcome = classify_update_response(403, String::from("Bad Auth"));
    match &outcome {
        Err(UpdateError::Rejected { status, body }) => {
            assert_eq!(*status, 403);
            assert_eq!(body, "Bad Auth");
        }
        _ => panic!("a 403 answer must be a rejection"),
    }
    state.record(third, &outcome);
    assert_eq!(state.last_known, Ipv4::new(198, 51, 100, 7));

    // Tick 4: the new address again; this time the provider confirms.
    let fetched = resolve_body("198.51.100.8");
    assert_eq!(state.decide(&fetched), Decision::AttemptUpdate(Ipv4::new(198, 51, 100, 8)));
    let outcome = classify_update_response(200, String::new());
    state.record(Ipv4::new(198, 51, 100, 8), &outcome);
    assert_eq!(state.last_known, Ipv4::new(198, 51, 100, 8));
}

#[test]
fn verbosity_count_maps_to_threshold() {
    assert_eq!(verbosity_level(0), Verbosity::ErrorsOnly);
    assert_eq!(verbosity_level(1), Verbosity::AndWarnings);
    assert_eq!(verbosity_level(2), Verbosity::AndInfo);
    assert_eq!(verbosity_level(3), Verbosity::AndDebug);
    assert_eq!(verbosity_level(4), Verbosity::Everything);
    assert_eq!(verbosity_level(17), Verbosity::Everything);
}
