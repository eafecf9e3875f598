//! The protocol of the client of the calendar service.
//!
//! The client sends requests and awaits answers; what it does next is
//! decided here. An [`ApiCall`] decides the course of one request: sent with
//! the access token, and, if the service answers "unauthorized", sent once
//! more after one refresh of the token. A [`Pager`] decides the course of a
//! listing that comes in pages.

use crate::auth::tokens::Tokens;
use vstd::prelude::*;

verus! {

/// The status with which the service refuses an access token.
pub const UNAUTHORIZED: u16 = 401;

/// The number of items that one page of a listing may hold at most.
pub const PAGE_SIZE: u32 = 250;

/// What the status of a response means for the call.
#[derive(Debug, Clone, Copy, PartialEq, Eq, Structural)]
pub enum StatusClass {
    /// The access token was refused.
    Unauthorized,
    /// Another client or server error: the statuses from 400 to 599.
    Failure,
    /// Any other status: the body is to be decoded.
    Success,
}

/// The meaning of `status`.
pub open spec fn status_class(status: u16) -> StatusClass {
    if status == UNAUTHORIZED {
        StatusClass::Unauthorized
    } else if 400 <= status < 600 {
        StatusClass::Failure
    } else {
        StatusClass::Success
    }
}

/// The meaning of `status`.
pub fn classify_status(status: u16) -> (class: StatusClass)
    ensures
        class == status_class(status),
{
    if status == UNAUTHORIZED {
        StatusClass::Unauthorized
    } else if 400 <= status && status < 600 {
        StatusClass::Failure
    } else {
        StatusClass::Success
    }
}

/// Why a call failed.
#[derive(Debug, Clone, Copy, PartialEq, Eq, Structural)]
pub enum ApiError {
    /// No response came. `on_retry` says whether this was the request after
    /// the refresh.
    Transport { on_retry: bool },
    /// The token could not be refreshed.
    Refresh,
    /// The refreshed tokens could not be saved.
    Persist,
    /// The service refused the refreshed token too: the user has to log in
    /// again.
    StillUnauthorized,
    /// The service answered with an error status.
    Status { code: u16, on_retry: bool },
    /// The body of the response could not be decoded.
    Decode { on_retry: bool },
    /// An event came that the call was not waiting for.
    OutOfTurn,
}

impl ApiError {
    /// The text of the error.
    pub open spec fn text(self) -> Seq<char> {
        match self {
            ApiError::Transport { on_retry: false } => "API call failed"@,
            ApiError::Transport {
                on_retry: true,
            } => "API call failed on retry after token refresh"@,
            ApiError::Refresh => "Failed to refresh access token after 401"@,
            ApiError::Persist => "Failed to save refreshed tokens"@,
            ApiError::StillUnauthorized => "Still unauthorized after token refresh"@,
            ApiError::Status { on_retry: false, .. } => "API returned error status"@,
            ApiError::Status { on_retry: true, .. } => "API returned error status on retry"@,
            ApiError::Decode { on_retry: false } => "Failed to parse response JSON"@,
            ApiError::Decode { on_retry: true } => "Failed to parse response JSON on retry"@,
            ApiError::OutOfTurn => "Unexpected event for the call"@,
        }
    }

    /// The text of the error.
    pub fn message(&self) -> (r: &'static str)
        ensures
            r@ == self.text(),
    {
        match self {
            ApiError::Transport { on_retry: false } => "API call failed",
            ApiError::Transport { on_retry: true } => "API call failed on retry after token refresh",
            ApiError::Refresh => "Failed to refresh access token after 401",
            ApiError::Persist => "Failed to save refreshed tokens",
            ApiError::StillUnauthorized => "Still unauthorized after token refresh",
            ApiError::Status { on_retry: false, .. } => "API returned error status",
            ApiError::Status { on_retry: true, .. } => "API returned error status on retry",
            ApiError::Decode { on_retry: false } => "Failed to parse response JSON",
            ApiError::Decode { on_retry: true } => "Failed to parse response JSON on retry",
            ApiError::OutOfTurn => "Unexpected event for the call",
        }
    }
}

/// What a call is waiting for.
#[derive(Debug, Clone, Copy, PartialEq, Eq, Structural)]
pub enum CallPhase {
    /// The response to the request with the current access token.
    FirstAttempt,
    /// The outcome of the refresh of the token.
    Refreshing,
    /// The outcome of saving the refreshed tokens.
    Persisting,
    /// The response to the request with the refreshed access token.
    Retry,
    /// The outcome of decoding the body of the response.
    Decoding { on_retry: bool },
    /// Nothing: the call is over.
    Finished,
}

/// What happened to what the call was waiting for.
#[derive(Debug, Clone, PartialEq)]
pub enum CallEvent {
    /// A response came, with this status.
    Response { status: u16 },
    /// No response came.
    TransportError,
    /// The provider issued a new access token and, maybe, a new refresh
    /// token.
    Refreshed { access_token: String, refresh_token: Option<String> },
    /// The provider issued nothing.
    RefreshFailed,
    /// The tokens were saved.
    Persisted,
    /// The tokens could not be saved.
    PersistFailed,
    /// The body of the response was decoded.
    Decoded,
    /// The body of the response could not be decoded.
    DecodeFailed,
}

/// What is to be done next for the call.
#[derive(Debug, Clone, PartialEq)]
pub enum CallStep {
    /// Send the request with this access token.
    Send { access_token: String },
    /// Exchange this refresh token for a new access token.
    Refresh { refresh_token: String },
    /// Save these tokens.
    Persist { tokens: Tokens },
    /// Decode the body of the last response.
    Decode,
    /// Hand out what was decoded: the call has succeeded.
    Succeed,
    /// Give up: the call has failed.
    Fail(ApiError),
}

/// Where a call stands, with its tokens and the step to take.
pub struct CallState {
    pub phase: CallPhase,
    pub tokens: Tokens,
    pub step: CallStep,
}

/// The tokens after a refresh: the access token is the new one; the refresh
/// token is replaced only where the provider issued a new one.
pub open spec fn refreshed_tokens(
    tokens: Tokens,
    access_token: String,
    refresh_token: Option<String>,
) -> Tokens {
    Tokens {
        access_token,
        refresh_token: match refresh_token {
            Some(token) => token,
            None => tokens.refresh_token,
        },
    }
}

/// The course of a call: from what it waits for, its tokens and what
/// happened, to what it waits for next, its tokens then, and the step to
/// take.
///
/// An "unauthorized" response to the first request leads to one refresh;
/// the refreshed tokens are saved before anything else is done; the request
/// is then sent once more. An "unauthorized" response to that request ends
/// the call. Any other error status, a missing response and a body that
/// cannot be decoded end the call at once.
pub open spec fn call_next(phase: CallPhase, tokens: Tokens, event: CallEvent) -> CallState {
    match (phase, event) {
        (CallPhase::FirstAttempt, CallEvent::Response { status }) => match status_class(status) {
            StatusClass::Unauthorized => CallState {
                phase: CallPhase::Refreshing,
                tokens,
                step: CallStep::Refresh { refresh_token: tokens.refresh_token },
            },
            StatusClass::Failure => CallState {
                phase: CallPhase::Finished,
                tokens,
                step: CallStep::Fail(ApiError::Status { code: status, on_retry: false }),
            },
            StatusClass::Success => CallState {
                phase: CallPhase::Decoding { on_retry: false },
                tokens,
                step: CallStep::Decode,
            },
        },
        (CallPhase::FirstAttempt, CallEvent::TransportError) => CallState {
            phase: CallPhase::Finished,
            tokens,
            step: CallStep::Fail(ApiError::Transport { on_retry: false }),
        },
        (CallPhase::Refreshing, CallEvent::Refreshed { access_token, refresh_token }) => {
            let renewed = refreshed_tokens(tokens, access_token, refresh_token);
            CallState {
                phase: CallPhase::Persisting,
                tokens: renewed,
                step: CallStep::Persist { tokens: renewed },
            }
        },
        (CallPhase::Refreshing, CallEvent::RefreshFailed) => CallState {
            phase: CallPhase::Finished,
            tokens,
            step: CallStep::Fail(ApiError::Refresh),
        },
        (CallPhase::Persisting, CallEvent::Persisted) => CallState {
            phase: CallPhase::Retry,
            tokens,
            step: CallStep::Send { access_token: tokens.access_token },
        },
        (CallPhase::Persisting, CallEvent::PersistFailed) => CallState {
            phase: CallPhase::Finished,
            tokens,
            step: CallStep::Fail(ApiError::Persist),
        },
        (CallPhase::Retry, CallEvent::Response { status }) => match status_class(status) {
            StatusClass::Unauthorized => CallState {
                phase: CallPhase::Finished,
                tokens,
                step: CallStep::Fail(ApiError::StillUnauthorized),
            },
            StatusClass::Failure => CallState {
                phase: CallPhase::Finished,
                tokens,
                step: CallStep::Fail(ApiError::Status { code: status, on_retry: true }),
            },
            StatusClass::Success => CallState {
                phase: CallPhase::Decoding { on_retry: true },
                tokens,
                step: CallStep::Decode,
            },
        },
        (CallPhase::Retry, CallEvent::TransportError) => CallState {
            phase: CallPhase::Finished,
            tokens,
            step: CallStep::Fail(ApiError::Transport { on_retry: true }),
        },
        (CallPhase::Decoding { .. }, CallEvent::Decoded) => CallState {
            phase: CallPhase::Finished,
            tokens,
            step: CallStep::Succeed,
        },
        (CallPhase::Decoding { on_retry }, CallEvent::DecodeFailed) => CallState {
            phase: CallPhase::Finished,
            tokens,
            step: CallStep::Fail(ApiError::Decode { on_retry }),
        },
        _ => CallState {
            phase: CallPhase::Finished,
            tokens,
            step: CallStep::Fail(ApiError::OutOfTurn),
        },
    }
}

/// One call of the service, from the first request to its end.
#[derive(Debug)]
pub struct ApiCall {
    pub phase: CallPhase,
}

impl ApiCall {
    /// Begins a call: the request is to be sent with the current access
    /// token.
    pub fn start(tokens: &Tokens) -> (r: (ApiCall, CallStep))
        ensures
            r.0.phase == CallPhase::FirstAttempt,
            r.1 == (CallStep::Send { access_token: tokens.access_token }),
    {
        (
            ApiCall { phase: CallPhase::FirstAttempt },
            CallStep::Send { access_token: tokens.access_token.clone() },
        )
    }

    /// Whether the call is over.
    pub fn is_finished(&self) -> (b: bool)
        ensures
            b == (self.phase == CallPhase::Finished),
    {
        self.phase == CallPhase::Finished
    }

    /// Ends the call with the given error.
    fn fail(&mut self, error: ApiError) -> (step: CallStep)
        ensures
            final(self).phase == CallPhase::Finished,
            step == CallStep::Fail(error),
    {
        self.phase = CallPhase::Finished;
        CallStep::Fail(error)
    }

    /// Takes in what happened, and says what is to be done next. `tokens`
    /// are the tokens of the client: a refresh renews them.
    pub fn advance(&mut self, tokens: &mut Tokens, event: CallEvent) -> (step: CallStep)
        ensures
            final(self).phase == call_next(old(self).phase, *old(tokens), event).phase,
            *final(tokens) == call_next(old(self).phase, *old(tokens), event).tokens,
            step == call_next(old(self).phase, *old(tokens), event).step,
    {
        match self.phase {
            CallPhase::FirstAttempt => match event {
                CallEvent::Response { status } => match classify_status(status) {
                    StatusClass::Unauthorized => {
                        self.phase = CallPhase::Refreshing;
                        CallStep::Refresh { refresh_token: tokens.refresh_token.clone() }
                    },
                    StatusClass::Failure => self.fail(
                        ApiError::Status { code: status, on_retry: false },
                    ),
                    StatusClass::Success => {
                        self.phase = CallPhase::Decoding { on_retry: false };
                        CallStep::Decode
                    },
                },
                CallEvent::TransportError => self.fail(ApiError::Transport { on_retry: false }),
                _ => self.fail(ApiError::OutOfTurn),
            },
            CallPhase::Refreshing => match event {
                CallEvent::Refreshed { access_token, refresh_token } => {
                    tokens.apply_refresh(access_token, refresh_token);
                    self.phase = CallPhase::Persisting;
                    CallStep::Persist { tokens: tokens.duplicate() }
                },
                CallEvent::RefreshFailed => self.fail(ApiError::Refresh),
                _ => self.fail(ApiError::OutOfTurn),
            },
            CallPhase::Persisting => match event {
                CallEvent::Persisted => {
                    self.phase = CallPhase::Retry;
                    CallStep::Send { access_token: tokens.access_token.clone() }
                },
                CallEvent::PersistFailed => self.fail(ApiError::Persist),
                _ => self.fail(ApiError::OutOfTurn),
            },
            CallPhase::Retry => match event {
                CallEvent::Response { status } => match classify_status(status) {
                    StatusClass::Unauthorized => self.fail(ApiError::StillUnauthorized),
                    StatusClass::Failure => self.fail(
                        ApiError::Status { code: status, on_retry: true },
                    ),
                    StatusClass::Success => {
                        self.phase = CallPhase::Decoding { on_retry: true };
                        CallStep::Decode
                    },
                },
                CallEvent::TransportError => self.fail(ApiError::Transport { on_retry: true }),
                _ => self.fail(ApiError::OutOfTurn),
            },
            CallPhase::Decoding { on_retry } => match event {
                CallEvent::Decoded => {
                    self.phase = CallPhase::Finished;
                    CallStep::Succeed
                },
                CallEvent::DecodeFailed => self.fail(ApiError::Decode { on_retry }),
                _ => self.fail(ApiError::OutOfTurn),
            },
            CallPhase::Finished => self.fail(ApiError::OutOfTurn),
        }
    }
}

/// The steps that a call takes for the events `events`, one step for each
/// event, when it waits for `phase` and has the tokens `tokens`.
pub open spec fn call_steps(phase: CallPhase, tokens: Tokens, events: Seq<CallEvent>) -> Seq<
    CallStep,
>
    decreases events.len(),
{
    if events.len() == 0 {
        Seq::empty()
    } else {
        let next = call_next(phase, tokens, events.first());
        seq![next.step] + call_steps(next.phase, next.tokens, events.drop_first())
    }
}

/// The number of steps among `steps` that ask for a refresh of the token.
pub open spec fn count_refreshes(steps: Seq<CallStep>) -> nat
    decreases steps.len(),
{
    if steps.len() == 0 {
        0
    } else {
        count_refreshes(steps.drop_first()) + if steps.first() is Refresh {
            1nat
        } else {
            0nat
        }
    }
}

/// The number of steps among `steps` that send the request.
pub open spec fn count_sends(steps: Seq<CallStep>) -> nat
    decreases steps.len(),
{
    if steps.len() == 0 {
        0
    } else {
        count_sends(steps.drop_first()) + if steps.first() is Send {
            1nat
        } else {
            0nat
        }
    }
}

/// The number of steps among `steps` that save tokens.
pub open spec fn count_persists(steps: Seq<CallStep>) -> nat
    decreases steps.len(),
{
    if steps.len() == 0 {
        0
    } else {
        count_persists(steps.drop_first()) + if steps.first() is Persist {
            1nat
        } else {
            0nat
        }
    }
}

/// The counts of a step followed by more steps.
proof fn lemma_counts_of_first(first: CallStep, rest: Seq<CallStep>)
    ensures
        count_refreshes(seq![first] + rest) == count_refreshes(rest) + if first is Refresh {
            1nat
        } else {
            0nat
        },
        count_sends(seq![first] + rest) == count_sends(rest) + if first is Send {
            1nat
        } else {
            0nat
        },
        count_persists(seq![first] + rest) == count_persists(rest) + if first is Persist {
            1nat
        } else {
            0nat
        },
{
    let all = seq![first] + rest;
    assert(all.first() == first);
    assert(all.drop_first() =~= rest);
}

/// How many refreshes a call that waits for `phase` can still ask for.
pub open spec fn refreshes_left(phase: CallPhase) -> nat {
    if phase == CallPhase::FirstAttempt {
        1
    } else {
        0
    }
}

/// How many times a call that waits for `phase` can still send the request.
pub open spec fn sends_left(phase: CallPhase) -> nat {
    match phase {
        CallPhase::FirstAttempt | CallPhase::Refreshing | CallPhase::Persisting => 1,
        _ => 0,
    }
}

/// How many times a call that waits for `phase` can still save tokens.
pub open spec fn persists_left(phase: CallPhase) -> nat {
    match phase {
        CallPhase::FirstAttempt | CallPhase::Refreshing => 1,
        _ => 0,
    }
}

/// Whatever happens, a call asks for no more refreshes, sends and saves than
/// its phase leaves it.
pub proof fn lemma_call_bounds(phase: CallPhase, tokens: Tokens, events: Seq<CallEvent>)
    ensures
        count_refreshes(call_steps(phase, tokens, events)) <= refreshes_left(phase),
        count_sends(call_steps(phase, tokens, events)) <= sends_left(phase),
        count_persists(call_steps(phase, tokens, events)) <= persists_left(phase),
    decreases events.len(),
{
    if events.len() > 0 {
        let next = call_next(phase, tokens, events.first());
        let rest = call_steps(next.phase, next.tokens, events.drop_first());
        lemma_call_bounds(next.phase, next.tokens, events.drop_first());
        lemma_counts_of_first(next.step, rest);
    }
}

/// Whatever happens after its first request, a call refreshes the token at
/// most once, saves tokens at most once, and sends the request at most once
/// more.
pub proof fn lemma_at_most_one_refresh(tokens: Tokens, events: Seq<CallEvent>)
    ensures
        count_refreshes(call_steps(CallPhase::FirstAttempt, tokens, events)) <= 1,
        count_persists(call_steps(CallPhase::FirstAttempt, tokens, events)) <= 1,
        count_sends(call_steps(CallPhase::FirstAttempt, tokens, events)) <= 1,
{
    lemma_call_bounds(CallPhase::FirstAttempt, tokens, events);
}

/// First response unauthorized, response after the refresh a success: the
/// call asks for the refresh, has the renewed tokens saved, sends the request
/// with the new access token, has the body decoded and succeeds. There is
/// one refresh and one save.
pub proof fn lemma_retry_succeeds(
    tokens: Tokens,
    access_token: String,
    refresh_token: Option<String>,
    status: u16,
)
    requires
        status_class(status) == StatusClass::Success,
    ensures
        ({
            let renewed = refreshed_tokens(tokens, access_token, refresh_token);
            let events = seq![
                CallEvent::Response { status: UNAUTHORIZED },
                CallEvent::Refreshed { access_token, refresh_token },
                CallEvent::Persisted,
                CallEvent::Response { status },
                CallEvent::Decoded,
            ];
            let steps = call_steps(CallPhase::FirstAttempt, tokens, events);
            &&& steps == seq![
                CallStep::Refresh { refresh_token: tokens.refresh_token },
                CallStep::Persist { tokens: renewed },
                CallStep::Send { access_token },
                CallStep::Decode,
                CallStep::Succeed,
            ]
            &&& count_refreshes(steps) == 1
            &&& count_persists(steps) == 1
        }),
{
    let renewed = refreshed_tokens(tokens, access_token, refresh_token);
    let e0 = seq![
        CallEvent::Response { status: UNAUTHORIZED },
        CallEvent::Refreshed { access_token, refresh_token },
        CallEvent::Persisted,
        CallEvent::Response { status },
        CallEvent::Decoded,
    ];
    let e1 = e0.drop_first();
    let e2 = e1.drop_first();
    let e3 = e2.drop_first();
    let e4 = e3.drop_first();
    let e5 = e4.drop_first();
    assert(e5.len() == 0);
    let s5 = call_steps(CallPhase::Finished, renewed, e5);
    let s4 = call_steps(CallPhase::Decoding { on_retry: true }, renewed, e4);
    let s3 = call_steps(CallPhase::Retry, renewed, e3);
    let s2 = call_steps(CallPhase::Persisting, renewed, e2);
    let s1 = call_steps(CallPhase::Refreshing, tokens, e1);
    let s0 = call_steps(CallPhase::FirstAttempt, tokens, e0);
    assert(s5 =~= Seq::<CallStep>::empty());
    assert(s4 =~= seq![CallStep::Succeed]);
    assert(s3 =~= seq![CallStep::Decode, CallStep::Succeed]);
    assert(s2 =~= seq![CallStep::Send { access_token }, CallStep::Decode, CallStep::Succeed]);
    assert(s1 =~= seq![
        CallStep::Persist { tokens: renewed },
        CallStep::Send { access_token },
        CallStep::Decode,
        CallStep::Succeed,
    ]);
    assert(s0 =~= seq![
        CallStep::Refresh { refresh_token: tokens.refresh_token },
        CallStep::Persist { tokens: renewed },
        CallStep::Send { access_token },
        CallStep::Decode,
        CallStep::Succeed,
    ]);
    lemma_counts_of_first(CallStep::Succeed, s5);
    lemma_counts_of_first(CallStep::Decode, s4);
    lemma_counts_of_first(CallStep::Send { access_token }, s3);
    lemma_counts_of_first(CallStep::Persist { tokens: renewed }, s2);
    lemma_counts_of_first(CallStep::Refresh { refresh_token: tokens.refresh_token }, s1);
    assert(count_refreshes(s5) == 0 && count_persists(s5) == 0);
}

/// First response unauthorized, response after the refresh unauthorized
/// too: the call fails, after one refresh and no more.
pub proof fn lemma_retry_unauthorized_fails(
    tokens: Tokens,
    access_token: String,
    refresh_token: Option<String>,
)
    ensures
        ({
            let renewed = refreshed_tokens(tokens, access_token, refresh_token);
            let events = seq![
                CallEvent::Response { status: UNAUTHORIZED },
                CallEvent::Refreshed { access_token, refresh_token },
                CallEvent::Persisted,
                CallEvent::Response { status: UNAUTHORIZED },
            ];
            let steps = call_steps(CallPhase::FirstAttempt, tokens, events);
            &&& steps == seq![
                CallStep::Refresh { refresh_token: tokens.refresh_token },
                CallStep::Persist { tokens: renewed },
                CallStep::Send { access_token },
                CallStep::Fail(ApiError::StillUnauthorized),
            ]
            &&& count_refreshes(steps) == 1
        }),
{
    let renewed = refreshed_tokens(tokens, access_token, refresh_token);
    let e0 = seq![
        CallEvent::Response { status: UNAUTHORIZED },
        CallEvent::Refreshed { access_token, refresh_token },
        CallEvent::Persisted,
        CallEvent::Response { status: UNAUTHORIZED },
    ];
    let e1 = e0.drop_first();
    let e2 = e1.drop_first();
    let e3 = e2.drop_first();
    let e4 = e3.drop_first();
    assert(e4.len() == 0);
    let s4 = call_steps(CallPhase::Finished, renewed, e4);
    let s3 = call_steps(CallPhase::Retry, renewed, e3);
    let s2 = call_steps(CallPhase::Persisting, renewed, e2);
    let s1 = call_steps(CallPhase::Refreshing, tokens, e1);
    let s0 = call_steps(CallPhase::FirstAttempt, tokens, e0);
    assert(s4 =~= Seq::<CallStep>::empty());
    assert(s3 =~= seq![CallStep::Fail(ApiError::StillUnauthorized)]);
    assert(s2 =~= seq![
        CallStep::Send { access_token },
        CallStep::Fail(ApiError::StillUnauthorized),
    ]);
    assert(s1 =~= seq![
        CallStep::Persist { tokens: renewed },
        CallStep::Send { access_token },
        CallStep::Fail(ApiError::StillUnauthorized),
    ]);
    assert(s0 =~= seq![
        CallStep::Refresh { refresh_token: tokens.refresh_token },
        CallStep::Persist { tokens: renewed },
        CallStep::Send { access_token },
        CallStep::Fail(ApiError::StillUnauthorized),
    ]);
    lemma_counts_of_first(CallStep::Fail(ApiError::StillUnauthorized), s4);
    lemma_counts_of_first(CallStep::Send { access_token }, s3);
    lemma_counts_of_first(CallStep::Persist { tokens: renewed }, s2);
    lemma_counts_of_first(CallStep::Refresh { refresh_token: tokens.refresh_token }, s1);
    assert(count_refreshes(s4) == 0);
}

/// A refreshed token is never dropped: whatever the provider issued is
/// taken over into the tokens of the client, and the very next step is to
/// save exactly those tokens.
pub proof fn lemma_refreshed_tokens_are_saved(
    tokens: Tokens,
    access_token: String,
    refresh_token: Option<String>,
)
    ensures
        ({
            let next = call_next(
                CallPhase::Refreshing,
                tokens,
                CallEvent::Refreshed { access_token, refresh_token },
            );
            &&& next.tokens.access_token == access_token
            &&& next.tokens.refresh_token == match refresh_token {
                Some(token) => token,
                None => tokens.refresh_token,
            }
            &&& next.step == (CallStep::Persist { tokens: next.tokens })
            &&& next.phase == CallPhase::Persisting
        }),
{
}

/// An error status that is not "unauthorized", and a missing response, end
/// the call at once: nothing is refreshed and nothing is sent again.
pub proof fn lemma_other_errors_are_not_retried(tokens: Tokens, event: CallEvent)
    requires
        event is TransportError || (event matches CallEvent::Response { status } && status_class(
            status,
        ) == StatusClass::Failure),
    ensures
        call_next(CallPhase::FirstAttempt, tokens, event).phase == CallPhase::Finished,
        call_next(CallPhase::FirstAttempt, tokens, event).step is Fail,
        call_next(CallPhase::FirstAttempt, tokens, event).tokens == tokens,
{
}

/// Where a listing that comes in pages stands.
#[derive(Debug, Clone, PartialEq)]
pub enum PagerState {
    /// No page was asked for yet.
    First,
    /// The last page named a page to follow.
    Next { page_token: String },
    /// The last page named none: the listing is complete.
    Finished,
}

/// The request for one page of a listing.
#[derive(Debug, Clone, PartialEq)]
pub struct PageRequest {
    /// The cursor that the page before gave; `None` for the first page.
    pub page_token: Option<String>,
    /// The number of items that the page may hold at most.
    pub max_results: u32,
}

/// The model of one page of a listing: its items and the cursor of the page
/// that follows.
pub struct Page<T> {
    pub items: Seq<T>,
    pub next_page_token: Option<String>,
}

/// The model of a listing under way: the items of the pages so far, in
/// order, and where the listing stands.
pub struct PagerModel<T> {
    pub items: Seq<T>,
    pub state: PagerState,
}

impl<T> PagerModel<T> {
    /// The listing before its first page.
    pub open spec fn start() -> PagerModel<T> {
        PagerModel { items: Seq::empty(), state: PagerState::First }
    }

    /// The listing after one more page: the items of the page come behind the
    /// items so far, and the cursor of the page decides whether another page
    /// follows. A listing that is complete takes no more pages.
    pub open spec fn accept(self, page: Page<T>) -> PagerModel<T> {
        if self.state is Finished {
            self
        } else {
            PagerModel {
                items: self.items + page.items,
                state: match page.next_page_token {
                    Some(page_token) => PagerState::Next { page_token },
                    None => PagerState::Finished,
                },
            }
        }
    }

    /// The listing after the pages `pages`, taken in order.
    pub open spec fn accept_all(self, pages: Seq<Page<T>>) -> PagerModel<T>
        decreases pages.len(),
    {
        if pages.len() == 0 {
            self
        } else {
            self.accept_all(pages.drop_last()).accept(pages.last())
        }
    }
}

/// The items of the pages `pages`, one page after the other.
pub open spec fn concat_pages<T>(pages: Seq<Page<T>>) -> Seq<T>
    decreases pages.len(),
{
    if pages.len() == 0 {
        Seq::empty()
    } else {
        concat_pages(pages.drop_last()) + pages.last().items
    }
}

/// A listing that comes in pages: it gathers the items of the pages and
/// follows the cursor of each page to the next, until a page has none.
#[derive(Debug)]
pub struct Pager<T> {
    pub items: Vec<T>,
    pub state: PagerState,
}

impl<T> View for Pager<T> {
    type V = PagerModel<T>;

    open spec fn view(&self) -> PagerModel<T> {
        PagerModel { items: self.items@, state: self.state }
    }
}

impl<T> Pager<T> {
    /// A listing before its first page.
    pub fn new() -> (r: Pager<T>)
        ensures
            r@ == PagerModel::<T>::start(),
    {
        Pager { items: Vec::new(), state: PagerState::First }
    }

    /// The request for the next page, or `None` when the listing is
    /// complete.
    pub fn next_request(&self) -> (r: Option<PageRequest>)
        ensures
            r == match self.state {
                PagerState::First => Some(PageRequest { page_token: None, max_results: PAGE_SIZE }),
                PagerState::Next { page_token } => Some(
                    PageRequest { page_token: Some(page_token), max_results: PAGE_SIZE },
                ),
                PagerState::Finished => None,
            },
    {
        match &self.state {
            PagerState::First => Some(PageRequest { page_token: None, max_results: PAGE_SIZE }),
            PagerState::Next { page_token } => Some(
                PageRequest { page_token: Some(page_token.clone()), max_results: PAGE_SIZE },
            ),
            PagerState::Finished => None,
        }
    }

    /// Whether the listing is complete.
    pub fn is_finished(&self) -> (b: bool)
        ensures
            b == (self.state is Finished),
    {
        match &self.state {
            PagerState::Finished => true,
            _ => false,
        }
    }

    /// Takes in one page: its items and the cursor of the page that follows.
    pub fn accept(&mut self, items: Vec<T>, next_page_token: Option<String>)
        ensures
            final(self)@ == old(self)@.accept(Page { items: items@, next_page_token }),
    {
        if self.is_finished() {
            return ;
        }
        let mut items = items;
        self.items.append(&mut items);
        self.state = match next_page_token {
            Some(page_token) => PagerState::Next { page_token },
            None => PagerState::Finished,
        };
    }

    /// The items of all the pages that were taken in, in order.
    pub fn into_items(self) -> (r: Vec<T>)
        ensures
            r@ == self@.items,
    {
        self.items
    }
}

/// While every page names a page to follow, the listing holds the items of
/// all the pages so far, in the order of the pages, and goes on.
pub proof fn lemma_pages_with_cursor<T>(pages: Seq<Page<T>>)
    requires
        forall|i: int| 0 <= i < pages.len() ==> (#[trigger] pages[i]).next_page_token is Some,
    ensures
        PagerModel::<T>::start().accept_all(pages).items == concat_pages(pages),
        !(PagerModel::<T>::start().accept_all(pages).state is Finished),
    decreases pages.len(),
{
    if pages.len() > 0 {
        let front = pages.drop_last();
        assert forall|i: int| 0 <= i < front.len() implies (#[trigger] front[i]).next_page_token is Some by {
            assert(front[i] == pages[i]);
        }
        lemma_pages_with_cursor(front);
        assert(pages.last() == pages[pages.len() - 1]);
    }
}

/// Given pages that each name a page to follow, but for the last: the
/// listing is complete after them, and holds the items of all the pages, in
/// the order of the pages.
pub proof fn lemma_pagination_concatenates<T>(pages: Seq<Page<T>>)
    requires
        pages.len() > 0,
        forall|i: int| 0 <= i < pages.len() - 1 ==> (#[trigger] pages[i]).next_page_token is Some,
        pages.last().next_page_token is None,
    ensures
        PagerModel::<T>::start().accept_all(pages).items == concat_pages(pages),
        PagerModel::<T>::start().accept_all(pages).state is Finished,
{
    let front = pages.drop_last();
    assert forall|i: int| 0 <= i < front.len() implies (#[trigger] front[i]).next_page_token is Some by {
        assert(front[i] == pages[i]);
    }
    lemma_pages_with_cursor(front);
}

/// A page that comes after the listing is complete changes nothing.
pub proof fn lemma_nothing_after_last_page<T>(listing: PagerModel<T>, page: Page<T>)
    requires
        listing.state is Finished,
    ensures
        listing.accept(page) == listing,
{
}

} // verus!
