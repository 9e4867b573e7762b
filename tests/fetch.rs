use sheet_roller::fetch::{bearer, FetchAction, FetchError, FetchEvent, FetchState, USER_AGENT};

fn drive(events: Vec<FetchEvent>) -> (FetchState, Vec<FetchAction>) {
    let mut state = FetchState::start();
    let mut actions = Vec::new();
    for e in events {
        let (s, a) = state.step(e);
        state = s;
        actions.push(a);
    }
    (state, actions)
}

#[test]
fn transport_retry_is_transparent() {
    let direct = drive(vec![
        FetchEvent::TokenGranted("t".to_string()),
        FetchEvent::Responded { status: 200, body: "a,1".to_string() },
    ]);
    let retried = drive(vec![
        FetchEvent::TokenGranted("t".to_string()),
        FetchEvent::TransportFailed { message: "reset".to_string(), retry_after_ms: Some(5) },
        FetchEvent::TokenGranted("t".to_string()),
        FetchEvent::Responded { status: 200, body: "a,1".to_string() },
    ]);
    assert_eq!(direct.0, FetchState::Finished);
    assert_eq!(retried.0, direct.0);
    assert_eq!(retried.1.last(), direct.1.last());
    assert_eq!(direct.1.last(), Some(&FetchAction::Finish(Ok("a,1".to_string()))));
    assert_eq!(retried.1[1], FetchAction::Wait { millis: 5 });
}

#[test]
fn transport_failure_without_retry_is_http_error() {
    let (s, a) = drive(vec![
        FetchEvent::TokenGranted("t".to_string()),
        FetchEvent::TransportFailed { message: "reset".to_string(), retry_after_ms: None },
    ]);
    assert_eq!(s, FetchState::Finished);
    assert_eq!(a[1], FetchAction::Finish(Err(FetchError::HttpError("reset".to_string()))));
}

#[test]
fn fallback_token_is_used() {
    let (s, a) = drive(vec![
        FetchEvent::TokenUnavailable("expired".to_string()),
        FetchEvent::TokenGranted("fb".to_string()),
    ]);
    assert_eq!(s, FetchState::AwaitingResponse);
    assert_eq!(a, vec![FetchAction::RecoverToken, FetchAction::Send { token: "fb".to_string() }]);
}

#[test]
fn no_token_at_all_is_missing_token() {
    let (s, a) = drive(vec![
        FetchEvent::TokenUnavailable("expired".to_string()),
        FetchEvent::TokenUnavailable("none".to_string()),
    ]);
    assert_eq!(s, FetchState::Finished);
    assert_eq!(a[1], FetchAction::Finish(Err(FetchError::MissingToken("expired".to_string()))));
}

#[test]
fn rejected_answers() {
    let start = vec![
        FetchEvent::TokenGranted("t".to_string()),
        FetchEvent::Responded { status: 400, body: "{\"error\":1}".to_string() },
    ];
    let (s, a) = drive(start);
    assert_eq!(s, FetchState::Rejected { status: 400, body: "{\"error\":1}".to_string() });
    assert_eq!(a[1], FetchAction::AssessFailure);

    let (s2, a2) = s.step(FetchEvent::FailureAssessed { structured: true, retry_after_ms: None });
    assert_eq!(s2, FetchState::Finished);
    assert_eq!(a2, FetchAction::Finish(Err(FetchError::BadRequest("{\"error\":1}".to_string()))));

    let s = FetchState::Rejected { status: 503, body: "down".to_string() };
    let (_, a) = s.step(FetchEvent::FailureAssessed { structured: false, retry_after_ms: None });
    assert_eq!(a, FetchAction::Finish(Err(FetchError::Failure { status: 503, body: "down".to_string() })));

    let s = FetchState::Rejected { status: 503, body: "down".to_string() };
    let (s, a) = s.step(FetchEvent::FailureAssessed { structured: false, retry_after_ms: Some(9) });
    assert_eq!(s, FetchState::Authorizing);
    assert_eq!(a, FetchAction::Wait { millis: 9 });
}

#[test]
fn success_statuses() {
    for (status, done) in [(200u16, true), (299, true), (204, true), (199, false), (300, false), (404, false)] {
        let (s, _) = FetchState::AwaitingResponse.step(FetchEvent::Responded { status, body: String::new() });
        assert_eq!(s == FetchState::Finished, done, "{}", status);
    }
}

#[test]
fn unexpected_event_is_ignored() {
    let (s, a) = FetchState::Authorizing.step(FetchEvent::Responded { status: 200, body: String::new() });
    assert_eq!(s, FetchState::Authorizing);
    assert_eq!(a, FetchAction::Ignore);
    let (s, a) = FetchState::Finished.step(FetchEvent::TokenGranted("t".to_string()));
    assert_eq!(s, FetchState::Finished);
    assert_eq!(a, FetchAction::Ignore);
}

#[test]
fn headers() {
    assert_eq!(bearer("abc"), "Bearer abc");
    assert_eq!(USER_AGENT, "google-api-rust-client/4.0.1");
}
