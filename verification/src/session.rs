//! One client session as a state machine.
//!
//! The caller owns the sockets. It performs the action that the machine
//! names, reports what came of it as an event, and gets the next state and
//! action back. The machine itself touches nothing. The one action that
//! concerns the shared state, the rate-limit check, can be performed by
//! `check_rate_limit`, which consults the limiter and advances the session
//! in one call.

use crate::pool::ProxyState;
use crate::rate_limit::{admits, check_fixed_windows_for_ip, counts_after, count_in};
use vstd::prelude::*;
use vstd::string::StringExecFns;

verus! {

/// Status of a reply to a request that could not be understood.
pub const BAD_REQUEST: u16 = 400;

/// Status of a reply to a request whose body is too large.
pub const PAYLOAD_TOO_LARGE: u16 = 413;

/// Status of a reply to a client that exceeded its rate limit.
pub const TOO_MANY_REQUESTS: u16 = 429;

/// Status of a reply when no upstream could be reached or the upstream
/// failed during an exchange.
pub const BAD_GATEWAY: u16 = 502;

/// Status that stands for a broken connection.
pub const SERVICE_UNAVAILABLE: u16 = 503;

/// Where a session stands.
#[derive(Clone, Copy, Debug, PartialEq, Eq, Structural)]
pub enum SessionState {
    /// An upstream is being selected and dialed.
    Connecting,
    /// The next request of the client is being read.
    AwaitingRequest,
    /// A request was read; the rate limit is being consulted.
    Admitting,
    /// An admitted request is being sent to the upstream.
    Forwarding,
    /// The upstream's response is being read.
    AwaitingResponse,
    /// The session is over.
    Closed,
}

/// Why no request could be read from the client.
#[derive(Clone, Copy, Debug, PartialEq, Eq, Structural)]
pub enum RequestError {
    /// The stream ended after this many bytes of an unfinished request.
    IncompleteRequest(usize),
    /// The bytes are no request.
    MalformedRequest,
    /// The length header is no number.
    InvalidContentLength,
    /// The body is not as long as the length header says.
    ContentLengthMismatch,
    /// The body is larger than the proxy accepts.
    RequestBodyTooLarge,
    /// The connection broke while reading.
    ConnectionError,
}

/// What the caller observed while performing the last action.
#[derive(Clone, Copy, Debug, PartialEq, Eq, Structural)]
pub enum SessionEvent {
    /// An upstream was dialed.
    Connected,
    /// No upstream could be dialed.
    NoUpstream,
    /// A well-formed request was read.
    RequestRead,
    /// No request could be read.
    RequestFailed(RequestError),
    /// The rate limit admits the request.
    Admitted,
    /// The rate limit rejects the request.
    Rejected,
    /// The request was sent to the upstream.
    Forwarded,
    /// Sending the request to the upstream failed.
    ForwardFailed,
    /// The upstream's response was read.
    ResponseRead,
    /// Reading the upstream's response failed.
    ResponseFailed,
}

/// What the caller does next.
#[derive(Clone, Copy, Debug, PartialEq, Eq, Structural)]
pub enum SessionAction {
    /// Read the next request from the client.
    ReadRequest,
    /// Ask the rate limiter whether the client may make this request.
    CheckRateLimit,
    /// Add the client's address to the forwarding header and send the
    /// request to the upstream.
    ForwardRequest,
    /// Read the upstream's response.
    ReadResponse,
    /// Send the upstream's response to the client as it is, then read the
    /// next request.
    RelayResponse,
    /// Send an error response with this status, then read the next request.
    ReplyAndContinue(u16),
    /// Send an error response with this status, then end the session.
    ReplyAndClose(u16),
    /// End the session without a response.
    Close,
}

/// The status that answers a failed read of a request.
pub open spec fn status_of(error: RequestError) -> u16 {
    match error {
        RequestError::IncompleteRequest(_) => BAD_REQUEST,
        RequestError::MalformedRequest => BAD_REQUEST,
        RequestError::InvalidContentLength => BAD_REQUEST,
        RequestError::ContentLengthMismatch => BAD_REQUEST,
        RequestError::RequestBodyTooLarge => PAYLOAD_TOO_LARGE,
        RequestError::ConnectionError => SERVICE_UNAVAILABLE,
    }
}

/// A failed read that ends the session without a response: the client sent
/// nothing more, or the connection broke.
pub open spec fn ends_silently(error: RequestError) -> bool {
    error == RequestError::IncompleteRequest(0) || error == RequestError::ConnectionError
}

/// The transition table of a session.
///
/// An event that the state does not wait for ends the session without a
/// response.
pub open spec fn next(state: SessionState, event: SessionEvent) -> (SessionState, SessionAction) {
    match (state, event) {
        (SessionState::Connecting, SessionEvent::Connected) => (
            SessionState::AwaitingRequest,
            SessionAction::ReadRequest,
        ),
        (SessionState::Connecting, SessionEvent::NoUpstream) => (
            SessionState::Closed,
            SessionAction::ReplyAndClose(BAD_GATEWAY),
        ),
        (SessionState::AwaitingRequest, SessionEvent::RequestRead) => (
            SessionState::Admitting,
            SessionAction::CheckRateLimit,
        ),
        (SessionState::AwaitingRequest, SessionEvent::RequestFailed(error)) => if ends_silently(
            error,
        ) {
            (SessionState::Closed, SessionAction::Close)
        } else {
            (SessionState::AwaitingRequest, SessionAction::ReplyAndContinue(status_of(error)))
        },
        (SessionState::Admitting, SessionEvent::Admitted) => (
            SessionState::Forwarding,
            SessionAction::ForwardRequest,
        ),
        (SessionState::Admitting, SessionEvent::Rejected) => (
            SessionState::Closed,
            SessionAction::ReplyAndClose(TOO_MANY_REQUESTS),
        ),
        (SessionState::Forwarding, SessionEvent::Forwarded) => (
            SessionState::AwaitingResponse,
            SessionAction::ReadResponse,
        ),
        (SessionState::Forwarding, SessionEvent::ForwardFailed) => (
            SessionState::Closed,
            SessionAction::ReplyAndClose(BAD_GATEWAY),
        ),
        (SessionState::AwaitingResponse, SessionEvent::ResponseRead) => (
            SessionState::AwaitingRequest,
            SessionAction::RelayResponse,
        ),
        (SessionState::AwaitingResponse, SessionEvent::ResponseFailed) => (
            SessionState::Closed,
            SessionAction::ReplyAndClose(BAD_GATEWAY),
        ),
        _ => (SessionState::Closed, SessionAction::Close),
    }
}

/// The status that answers a failed read of a request.
pub fn status_for_request_error(error: RequestError) -> (status: u16)
    ensures
        status == status_of(error),
{
    match error {
        RequestError::RequestBodyTooLarge => PAYLOAD_TOO_LARGE,
        RequestError::ConnectionError => SERVICE_UNAVAILABLE,
        _ => BAD_REQUEST,
    }
}

/// The state in which every session starts.
pub fn start_session() -> (state: SessionState)
    ensures
        state == SessionState::Connecting,
{
    SessionState::Connecting
}

/// Advances a session by one event.
pub fn handle_connection(state: SessionState, event: SessionEvent) -> (r: (
    SessionState,
    SessionAction,
))
    ensures
        r == next(state, event),
{
    match state {
        SessionState::Connecting => match event {
            SessionEvent::Connected => (SessionState::AwaitingRequest, SessionAction::ReadRequest),
            SessionEvent::NoUpstream => reply_and_close(BAD_GATEWAY),
            _ => close(),
        },
        SessionState::AwaitingRequest => match event {
            SessionEvent::RequestRead => (SessionState::Admitting, SessionAction::CheckRateLimit),
            SessionEvent::RequestFailed(error) => match error {
                RequestError::IncompleteRequest(n) => if n == 0 {
                    close()
                } else {
                    (SessionState::AwaitingRequest, SessionAction::ReplyAndContinue(BAD_REQUEST))
                },
                RequestError::ConnectionError => close(),
                _ => (
                    SessionState::AwaitingRequest,
                    SessionAction::ReplyAndContinue(status_for_request_error(error)),
                ),
            },
            _ => close(),
        },
        SessionState::Admitting => match event {
            SessionEvent::Admitted => (SessionState::Forwarding, SessionAction::ForwardRequest),
            SessionEvent::Rejected => reply_and_close(TOO_MANY_REQUESTS),
            _ => close(),
        },
        SessionState::Forwarding => match event {
            SessionEvent::Forwarded => (SessionState::AwaitingResponse, SessionAction::ReadResponse),
            SessionEvent::ForwardFailed => reply_and_close(BAD_GATEWAY),
            _ => close(),
        },
        SessionState::AwaitingResponse => match event {
            SessionEvent::ResponseRead => (
                SessionState::AwaitingRequest,
                SessionAction::RelayResponse,
            ),
            SessionEvent::ResponseFailed => reply_and_close(BAD_GATEWAY),
            _ => close(),
        },
        SessionState::Closed => close(),
    }
}

fn reply_and_close(status: u16) -> (r: (SessionState, SessionAction))
    ensures
        r == (SessionState::Closed, SessionAction::ReplyAndClose(status)),
{
    (SessionState::Closed, SessionAction::ReplyAndClose(status))
}

fn close() -> (r: (SessionState, SessionAction))
    ensures
        r == (SessionState::Closed, SessionAction::Close),
{
    (SessionState::Closed, SessionAction::Close)
}

/// The event that reports the rate limiter's answer.
pub fn admission_event(admitted: bool) -> (event: SessionEvent)
    ensures
        event == if admitted {
            SessionEvent::Admitted
        } else {
            SessionEvent::Rejected
        },
{
    if admitted {
        SessionEvent::Admitted
    } else {
        SessionEvent::Rejected
    }
}

/// Consults the rate limiter for `client_ip` and advances the session with
/// its answer: an admitted request is counted and goes on to the upstream,
/// a rejected one is answered with 429 and ends the session.
pub fn check_rate_limit(state: SessionState, client_ip: &str, pool: &mut ProxyState) -> (r: (
    SessionState,
    SessionAction,
))
    requires
        old(pool).wf(),
    ensures
        final(pool).wf(),
        r == next(
            state,
            if admits(old(pool).limit(), old(pool).counts(), client_ip@) {
                SessionEvent::Admitted
            } else {
                SessionEvent::Rejected
            },
        ),
        final(pool).counts() == counts_after(old(pool).limit(), old(pool).counts(), client_ip@),
        final(pool).same_upstreams(old(pool)),
        final(pool).same_settings(old(pool)),
{
    let admitted = check_fixed_windows_for_ip(client_ip, pool);
    handle_connection(state, admission_event(admitted))
}

/// The value of a list header after `value` was added to it: `value` alone
/// where the header was absent, otherwise the old value, a comma, a space
/// and `value`.
pub open spec fn extended(existing: Option<Seq<char>>, value: Seq<char>) -> Seq<char> {
    match existing {
        Some(old_value) => old_value + seq![',', ' '] + value,
        None => value,
    }
}

/// The value that a list header takes when `value` is added to it.
pub fn extend_header_value(existing: Option<&str>, value: &str) -> (r: String)
    ensures
        r@ == extended(
            match existing {
                Some(e) => Some(e@),
                None => None,
            },
            value@,
        ),
{
    match existing {
        Some(old_value) => {
            let mut r = old_value.to_owned();
            proof {
                reveal_strlit(", ");
            }
            r.append(", ");
            r.append(value);
            assert(", "@ =~= seq![',', ' ']);
            r
        },
        None => value.to_owned(),
    }
}

/// A closed session stays closed, whatever is reported to it.
pub proof fn law_closed_is_final(event: SessionEvent)
    ensures
        next(SessionState::Closed, event) == (SessionState::Closed, SessionAction::Close),
{
}

/// The upstream is selected once per session: no event leads back to
/// `Connecting`.
pub proof fn law_upstream_is_selected_once(state: SessionState, event: SessionEvent)
    ensures
        next(state, event).0 != SessionState::Connecting,
{
}

/// Every reply that the machine asks for carries one of four statuses, and
/// whether the session goes on after it depends on the status alone: after a
/// 400 or a 413 the next request is read, after a 429 or a 502 the session
/// is over.
pub proof fn law_reply_status_decides(state: SessionState, event: SessionEvent)
    ensures
        match next(state, event).1 {
            SessionAction::ReplyAndContinue(status) => {
                &&& status == BAD_REQUEST || status == PAYLOAD_TOO_LARGE
                &&& next(state, event).0 == SessionState::AwaitingRequest
            },
            SessionAction::ReplyAndClose(status) => {
                &&& status == TOO_MANY_REQUESTS || status == BAD_GATEWAY
                &&& next(state, event).0 == SessionState::Closed
            },
            SessionAction::Close => next(state, event).0 == SessionState::Closed,
            _ => next(state, event).0 != SessionState::Closed,
        },
{
}

/// A request reaches the upstream only after the rate limiter admitted it,
/// and a rejected request is answered with 429 and ends the session.
pub proof fn law_forward_needs_admission(state: SessionState, event: SessionEvent)
    ensures
        next(state, event).1 == SessionAction::ForwardRequest <==> (state
            == SessionState::Admitting && event == SessionEvent::Admitted),
        state == SessionState::Admitting && event == SessionEvent::Rejected ==> next(state, event)
            == (SessionState::Closed, SessionAction::ReplyAndClose(TOO_MANY_REQUESTS)),
{
}

/// A request of a client that has used up its window is answered with 429,
/// and the session ends; a request of a client that has not is sent on to
/// the upstream. Without a limit every request is sent on.
pub proof fn law_limit_decides_admission(limit: nat, counts: Map<Seq<char>, nat>, client: Seq<char>)
    ensures
        limit > 0 && count_in(counts, client) >= limit ==> !admits(limit, counts, client) && next(
            SessionState::Admitting,
            SessionEvent::Rejected,
        ) == (SessionState::Closed, SessionAction::ReplyAndClose(TOO_MANY_REQUESTS)),
        limit == 0 || count_in(counts, client) < limit ==> admits(limit, counts, client) && next(
            SessionState::Admitting,
            SessionEvent::Admitted,
        ) == (SessionState::Forwarding, SessionAction::ForwardRequest),
{
}

/// Requests are served one after another: the next request is read only
/// when the session was just connected, when the last request was answered
/// with an error that keeps the session open, or when the upstream's
/// response to the last request was relayed.
pub proof fn law_requests_are_sequential(state: SessionState, event: SessionEvent)
    requires
        next(state, event).0 == SessionState::AwaitingRequest,
    ensures
        (state == SessionState::Connecting && event == SessionEvent::Connected) || (state
            == SessionState::AwaitingRequest && event is RequestFailed) || (state
            == SessionState::AwaitingResponse && event == SessionEvent::ResponseRead),
{
}

} // verus!
