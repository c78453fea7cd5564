//! The market API's envelopes, its errors, and the retry policy of the
//! rate-limited client.

use vstd::prelude::*;

verus! {

/// How many requests may be in flight at once, process-wide.
pub const MAX_CONCURRENT_REQUESTS: usize = 10;

/// The status of a response that asks the caller to slow down.
pub const TOO_MANY_REQUESTS: u16 = 429;

/// How long to wait before sending a throttled request again, in
/// milliseconds: a short pause that yields to the other requests in flight.
pub const THROTTLE_BACKOFF_MS: u64 = 100;

/// Why a request to the market failed.
#[derive(Debug, Clone, PartialEq, Eq)]
pub enum ReqwestSerdeError {
    /// The response did not have the expected shape.
    SerdeError(String),
    /// The request could not be sent or its response not read.
    ReqwestError(String),
    /// The client's middleware failed.
    ReqwestMiddlewareError(String),
}

/// What the client does with a response.
#[derive(Debug, Clone, Copy, PartialEq, Eq, Structural)]
pub enum RetryDecision {
    /// Wait this many milliseconds, then send the same request again while
    /// still holding its permit.
    RetryAfter(u64),
    /// Hand the response to the caller and release the permit.
    Accept,
}

/// A throttled response is retried after a fixed wait, without limit; any
/// other response ends the exchange.
pub fn after_response(status: u16) -> (r: RetryDecision)
    ensures
        r == (if status == TOO_MANY_REQUESTS {
            RetryDecision::RetryAfter(THROTTLE_BACKOFF_MS)
        } else {
            RetryDecision::Accept
        }),
{
    if status == TOO_MANY_REQUESTS {
        RetryDecision::RetryAfter(THROTTLE_BACKOFF_MS)
    } else {
        RetryDecision::Accept
    }
}

/// The envelope `{"payload": ...}` of every market response.
#[derive(Debug, Clone, PartialEq, Eq)]
pub struct Payload<T> {
    pub payload: T,
}

/// The listing body `{"items": [...]}`.
#[derive(Debug, Clone, PartialEq, Eq)]
pub struct ItemsWrapper<T> {
    pub items: Vec<T>,
}

/// The detail body `{"item": ...}`.
#[derive(Debug, Clone, PartialEq, Eq)]
pub struct ItemWrapper<T> {
    pub item: T,
}

impl<T> Payload<T> {
    /// The body inside the envelope.
    pub fn into_inner(self) -> (r: T)
        ensures
            r == self.payload,
    {
        self.payload
    }
}

impl<T> ItemsWrapper<T> {
    /// The listed entries.
    pub fn into_inner(self) -> (r: Vec<T>)
        ensures
            r == self.items,
    {
        self.items
    }
}

impl<T> ItemWrapper<T> {
    /// The described item.
    pub fn into_inner(self) -> (r: T)
        ensures
            r == self.item,
    {
        self.item
    }
}

} // verus!
