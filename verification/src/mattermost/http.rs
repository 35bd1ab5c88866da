//! Calls of the REST API: when to try again, and what an answer means.

use crate::number::{decimal, parsed_unsigned, read_unsigned, write_unsigned};
use crate::text::maybe;
use vstd::prelude::*;

verus! {

/// The status of an answer to too many requests.
pub const TOO_MANY_REQUESTS: u16 = 429;

/// How many seconds to wait, by the `Retry-After` header: one where it gives no number.
pub open spec fn retry_seconds(header: Option<Seq<char>>) -> int {
    match header {
        Some(value) => match parsed_unsigned(value, u64::MAX as int) {
            Some(seconds) => seconds,
            None => 1,
        },
        None => 1,
    }
}

/// Reads how many seconds to wait from the `Retry-After` header.
pub fn retry_after(header: &Option<String>) -> (seconds: u64)
    ensures
        seconds == retry_seconds(maybe(*header)),
{
    match header {
        Some(value) => match read_unsigned(value.as_str(), u64::MAX) {
            Some(seconds) => seconds,
            None => 1,
        },
        None => 1,
    }
}

/// What is done about an answer.
#[derive(Debug, Clone, Copy, PartialEq, Eq, Structural)]
pub enum CallStep {
    /// Wait that many seconds, then send the request once more.
    RetryAfter(u64),
    /// Decode the answer.
    Decode,
}

/// A call of the REST API, which is tried again once.
#[derive(Debug, Clone, Copy, PartialEq, Eq, Structural)]
pub struct Call {
    pub retried: bool,
}

impl Call {
    /// The call after an answer, and what is done about it.
    pub open spec fn answered(self, status: u16, header: Option<Seq<char>>) -> (Call, CallStep) {
        if status == TOO_MANY_REQUESTS && !self.retried {
            (Call { retried: true }, CallStep::RetryAfter(retry_seconds(header) as u64))
        } else {
            (self, CallStep::Decode)
        }
    }

    /// A call that was not sent yet.
    pub fn new() -> (call: Call)
        ensures
            !call.retried,
    {
        Call { retried: false }
    }

    /// Takes an answer and decides what is done about it.
    pub fn answer(&mut self, status: u16, header: &Option<String>) -> (step: CallStep)
        ensures
            (*final(self), step) == old(self).answered(status, maybe(*header)),
    {
        if status == TOO_MANY_REQUESTS && !self.retried {
            self.retried = true;
            CallStep::RetryAfter(retry_after(header))
        } else {
            CallStep::Decode
        }
    }
}

/// A call is tried again at most once: a second answer is decoded, whatever it is.
pub proof fn a_call_is_tried_again_once(
    call: Call,
    first: u16,
    second: u16,
    header: Option<Seq<char>>,
    other: Option<Seq<char>>,
)
    requires
        call.answered(first, header).1 is RetryAfter,
    ensures
        first == TOO_MANY_REQUESTS,
        call.answered(first, header).0.answered(second, other).1 == CallStep::Decode,
{
}

/// The body of an answer, as far as it could be read.
#[derive(Debug)]
pub enum Body {
    /// It is not JSON.
    Unreadable,
    /// JSON, with a message in it or not.
    Read { message: Option<String> },
}

/// Whether a status is one of success.
pub open spec fn is_success(status: u16) -> bool {
    200 <= status < 300
}

/// What is wrong with an answer; nothing if it is one of success.
pub open spec fn failure_of(
    path: Seq<char>,
    status: u16,
    status_text: Seq<char>,
    body: Body,
) -> Option<Seq<char>> {
    if status == TOO_MANY_REQUESTS {
        Some("Mattermost "@ + path + " rate limited"@)
    } else {
        match body {
            Body::Unreadable => Some(
                "decode Mattermost "@ + path + " response ("@ + status_text + ")"@,
            ),
            Body::Read { message } => if is_success(status) {
                None
            } else {
                Some(
                    "Mattermost "@ + path + " failed: "@ + match message {
                        Some(message) => message@,
                        None => decimal(status as nat),
                    },
                )
            },
        }
    }
}

/// Whether the body of an answer has to be read.
pub fn needs_body(status: u16) -> (yes: bool)
    ensures
        yes == (status != TOO_MANY_REQUESTS),
{
    status != TOO_MANY_REQUESTS
}

/// Tells what is wrong with an answer.
pub fn decode(path: &str, status: u16, status_text: &str, body: &Body) -> (failure: Option<String>)
    ensures
        maybe(failure) == failure_of(path@, status, status_text@, *body),
{
    if status == TOO_MANY_REQUESTS {
        let mut failure = "Mattermost ".to_owned();
        failure.append(path);
        failure.append(" rate limited");
        return Some(failure);
    }
    match body {
        Body::Unreadable => {
            let mut failure = "decode Mattermost ".to_owned();
            failure.append(path);
            failure.append(" response (");
            failure.append(status_text);
            failure.append(")");
            Some(failure)
        },
        Body::Read { message } => {
            if 200 <= status && status < 300 {
                return None;
            }
            let mut failure = "Mattermost ".to_owned();
            failure.append(path);
            failure.append(" failed: ");
            match message {
                Some(message) => failure.append(message.as_str()),
                None => failure.append(write_unsigned(status as u64).as_str()),
            }
            Some(failure)
        },
    }
}

} // verus!
