//! The decisions of one authenticated, retried query against the table endpoint.
//!
//! The caller performs each action (ask for a token, send the request, sleep)
//! and hands back what happened as an event; [`FetchState::step`] decides what
//! comes next.
use vstd::prelude::*;

verus! {

/// Why a query to the table endpoint failed.
#[derive(Debug, PartialEq, Eq)]
pub enum FetchError {
    /// Neither the token provider nor its fallback gave a bearer token.
    MissingToken(String),
    /// The request could not be carried out; the retry policy declined.
    HttpError(String),
    /// A non-success status whose body was structured error content.
    BadRequest(String),
    /// A non-success status whose body was not structured error content.
    Failure { status: u16, body: String },
}


/// The client identifier sent as User-Agent.
pub const USER_AGENT: &'static str = "google-api-rust-client/4.0.1";

/// The Authorization header value that carries a bearer token.
pub fn bearer(token: &str) -> (r: String)
    ensures
        r@ == "Bearer "@ + token@,
{
    let mut r = String::from_str("Bearer ");
    r.append(token);
    r
}

/// Is `status` a success (2xx) status?
pub open spec fn is_success(status: u16) -> bool {
    200 <= status <= 299
}

/// Where one query stands.
#[derive(Debug, PartialEq, Eq)]
pub enum FetchState {
    /// A token has been asked of the provider.
    Authorizing,
    /// The provider failed with `reason`; the fallback has been asked.
    Recovering { reason: String },
    /// The request has been sent.
    AwaitingResponse,
    /// The endpoint answered with a non-success status; the retry policy is
    /// being asked about it.
    Rejected { status: u16, body: String },
    /// The query is over.
    Finished,
}

/// What happened after the last action.
#[derive(Debug, PartialEq, Eq)]
pub enum FetchEvent {
    /// A bearer token was obtained.
    TokenGranted(String),
    /// No token was obtained, for the reason given.
    TokenUnavailable(String),
    /// The request could not be carried out; the retry policy asks to wait
    /// `retry_after_ms` milliseconds and try again, or not.
    TransportFailed { message: String, retry_after_ms: Option<u64> },
    /// The endpoint answered.
    Responded { status: u16, body: String },
    /// The rejected answer was looked at: whether its body is structured error
    /// content, and whether the retry policy asks to wait and try again.
    FailureAssessed { structured: bool, retry_after_ms: Option<u64> },
}

/// What to do next.
#[derive(Debug, PartialEq, Eq)]
pub enum FetchAction {
    /// Ask the fallback for a token.
    RecoverToken,
    /// Send the request with this bearer token.
    Send { token: String },
    /// Parse the rejected body as error content and ask the retry policy.
    AssessFailure,
    /// Sleep this long, then ask the provider for a token again.
    Wait { millis: u64 },
    /// The query is over, with this outcome.
    Finish(Result<String, FetchError>),
    /// The event does not belong to the state; nothing changes.
    Ignore,
}

/// The decision for one event.
pub open spec fn next(s: FetchState, e: FetchEvent) -> (FetchState, FetchAction) {
    match (s, e) {
        (FetchState::Authorizing, FetchEvent::TokenGranted(t)) => (
            FetchState::AwaitingResponse,
            FetchAction::Send { token: t },
        ),
        (FetchState::Authorizing, FetchEvent::TokenUnavailable(reason)) => (
            FetchState::Recovering { reason },
            FetchAction::RecoverToken,
        ),
        (FetchState::Recovering { reason: _ }, FetchEvent::TokenGranted(t)) => (
            FetchState::AwaitingResponse,
            FetchAction::Send { token: t },
        ),
        (FetchState::Recovering { reason }, FetchEvent::TokenUnavailable(_)) => (
            FetchState::Finished,
            FetchAction::Finish(Err(FetchError::MissingToken(reason))),
        ),
        (
            FetchState::AwaitingResponse,
            FetchEvent::TransportFailed { message, retry_after_ms },
        ) => match retry_after_ms {
            Some(d) => (FetchState::Authorizing, FetchAction::Wait { millis: d }),
            None => (FetchState::Finished, FetchAction::Finish(Err(FetchError::HttpError(message)))),
        },
        (FetchState::AwaitingResponse, FetchEvent::Responded { status, body }) => if is_success(
            status,
        ) {
            (FetchState::Finished, FetchAction::Finish(Ok(body)))
        } else {
            (FetchState::Rejected { status, body }, FetchAction::AssessFailure)
        },
        (
            FetchState::Rejected { status, body },
            FetchEvent::FailureAssessed { structured, retry_after_ms },
        ) => match retry_after_ms {
            Some(d) => (FetchState::Authorizing, FetchAction::Wait { millis: d }),
            None => (
                FetchState::Finished,
                FetchAction::Finish(
                    Err(
                        if structured {
                            FetchError::BadRequest(body)
                        } else {
                            FetchError::Failure { status, body }
                        },
                    ),
                ),
            ),
        },
        (s, _) => (s, FetchAction::Ignore),
    }
}

/// The state after a run of events, and the actions decided on the way.
pub open spec fn run(s: FetchState, events: Seq<FetchEvent>) -> (FetchState, Seq<FetchAction>)
    decreases events.len(),
{
    if events.len() == 0 {
        (s, Seq::empty())
    } else {
        let (s2, a) = next(s, events[0]);
        let (s3, rest) = run(s2, events.drop_first());
        (s3, seq![a] + rest)
    }
}

impl FetchState {
    /// A query begins by asking the token provider.
    pub fn start() -> (r: FetchState)
        ensures
            r == FetchState::Authorizing,
    {
        FetchState::Authorizing
    }

    /// Decides what follows `event`.
    pub fn step(self, event: FetchEvent) -> (r: (FetchState, FetchAction))
        ensures
            r == next(self, event),
    {
        match (self, event) {
            (FetchState::Authorizing, FetchEvent::TokenGranted(t)) => (
                FetchState::AwaitingResponse,
                FetchAction::Send { token: t },
            ),
            (FetchState::Authorizing, FetchEvent::TokenUnavailable(reason)) => (
                FetchState::Recovering { reason },
                FetchAction::RecoverToken,
            ),
            (FetchState::Recovering { reason: _ }, FetchEvent::TokenGranted(t)) => (
                FetchState::AwaitingResponse,
                FetchAction::Send { token: t },
            ),
            (FetchState::Recovering { reason }, FetchEvent::TokenUnavailable(_)) => (
                FetchState::Finished,
                FetchAction::Finish(Err(FetchError::MissingToken(reason))),
            ),
            (
                FetchState::AwaitingResponse,
                FetchEvent::TransportFailed { message, retry_after_ms },
            ) => match retry_after_ms {
                Some(d) => (FetchState::Authorizing, FetchAction::Wait { millis: d }),
                None => (
                    FetchState::Finished,
                    FetchAction::Finish(Err(FetchError::HttpError(message))),
                ),
            },
            (FetchState::AwaitingResponse, FetchEvent::Responded { status, body }) => {
                if 200 <= status && status <= 299 {
                    (FetchState::Finished, FetchAction::Finish(Ok(body)))
                } else {
                    (FetchState::Rejected { status, body }, FetchAction::AssessFailure)
                }
            },
            (
                FetchState::Rejected { status, body },
                FetchEvent::FailureAssessed { structured, retry_after_ms },
            ) => match retry_after_ms {
                Some(d) => (FetchState::Authorizing, FetchAction::Wait { millis: d }),
                None => {
                    let err = if structured {
                        FetchError::BadRequest(body)
                    } else {
                        FetchError::Failure { status, body }
                    };
                    (FetchState::Finished, FetchAction::Finish(Err(err)))
                },
            },
            (s, _) => (s, FetchAction::Ignore),
        }
    }
}

/// A retry is transparent: a token, a transport failure that the retry policy
/// answers with a wait, then any run of events, ends as that run alone ends,
/// with the same actions after the send and the wait.
pub proof fn lemma_retry_transparent(
    token: String,
    message: String,
    millis: u64,
    rest: Seq<FetchEvent>,
)
    ensures
        ({
            let events = seq![
                FetchEvent::TokenGranted(token),
                FetchEvent::TransportFailed { message, retry_after_ms: Some(millis) },
            ] + rest;
            let retried = run(FetchState::Authorizing, events);
            let direct = run(FetchState::Authorizing, rest);
            &&& retried.0 == direct.0
            &&& retried.1 == seq![FetchAction::Send { token }, FetchAction::Wait { millis }]
                + direct.1
        }),
{
    let e1 = FetchEvent::TokenGranted(token);
    let e2 = FetchEvent::TransportFailed { message, retry_after_ms: Some(millis) };
    let events = seq![e1, e2] + rest;
    assert(events[0] == e1);
    assert(events.drop_first() =~= seq![e2] + rest);
    assert((seq![e2] + rest)[0] == e2);
    assert((seq![e2] + rest).drop_first() =~= rest);
    let direct = run(FetchState::Authorizing, rest);
    let after_one = run(FetchState::AwaitingResponse, seq![e2] + rest);
    assert(after_one.0 == direct.0);
    assert(after_one.1 == seq![FetchAction::Wait { millis }] + direct.1);
    assert(seq![FetchAction::Send { token }] + (seq![FetchAction::Wait { millis }] + direct.1)
        =~= seq![FetchAction::Send { token }, FetchAction::Wait { millis }] + direct.1);
}
} // verus!
