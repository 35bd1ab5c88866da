//! The receiver: what a frame of the WebSocket asks for, and how long to wait after a failure.

use crate::text::{maybe, same};
use vstd::prelude::*;

verus! {

/// The shortest wait after a failure, in seconds.
pub const MIN_BACKOFF: u64 = 1;

/// The longest wait after a failure, in seconds.
pub const MAX_BACKOFF: u64 = 30;

/// How long to wait after the next failure. It doubles with every failure in a row, so that a
/// persistent one does not hammer the server.
#[derive(Debug, Clone, Copy, PartialEq, Eq, Structural)]
pub struct Backoff {
    pub seconds: u64,
}

/// Twice as long, up to the longest wait.
pub open spec fn doubled(seconds: int) -> int {
    if 2 * seconds <= MAX_BACKOFF {
        2 * seconds
    } else {
        MAX_BACKOFF as int
    }
}

/// How long to wait after `n` failures in a row and one more.
pub open spec fn wait_after(n: nat) -> int
    decreases n,
{
    if n == 0 {
        MIN_BACKOFF as int
    } else {
        doubled(wait_after((n - 1) as nat))
    }
}

impl Backoff {
    /// What holds of every backoff that the functions here give.
    pub open spec fn wf(self) -> bool {
        MIN_BACKOFF <= self.seconds <= MAX_BACKOFF
    }

    /// The backoff before any failure.
    pub fn new() -> (backoff: Backoff)
        ensures
            backoff.wf(),
            backoff.seconds == MIN_BACKOFF,
    {
        Backoff { seconds: MIN_BACKOFF }
    }

    /// Notes that something was received.
    pub fn succeed(&mut self)
        ensures
            final(self).wf(),
            final(self).seconds == MIN_BACKOFF,
    {
        self.seconds = MIN_BACKOFF;
    }

    /// Notes a failure, and tells how long to wait.
    pub fn fail(&mut self) -> (wait: u64)
        requires
            old(self).wf(),
        ensures
            final(self).wf(),
            wait == old(self).seconds,
            final(self).seconds == doubled(old(self).seconds as int),
    {
        let wait: u64 = self.seconds;
        self.seconds = if 2 * wait <= MAX_BACKOFF {
            2 * wait
        } else {
            MAX_BACKOFF
        };
        wait
    }
}

/// The wait after failures in a row grows from the shortest to the longest and stays within them;
/// from the sixth failure on it is the longest.
pub proof fn waits_grow_within_bounds(n: nat)
    ensures
        MIN_BACKOFF <= wait_after(n) <= wait_after(n + 1) <= MAX_BACKOFF,
        n >= 5 ==> wait_after(n) == MAX_BACKOFF,
    decreases n,
{
    reveal_with_fuel(wait_after, 7);
    if n > 0 {
        waits_grow_within_bounds((n - 1) as nat);
    }
}

/// A frame of the WebSocket.
#[derive(Debug, Clone, Copy, PartialEq, Eq, Structural)]
pub enum Frame {
    Text,
    Ping,
    Close,
    Other,
    /// The stream has ended.
    End,
    /// The stream has failed.
    Failure,
}

/// What is done about a frame.
#[derive(Debug, Clone, Copy, PartialEq, Eq, Structural)]
pub enum FrameStep {
    /// Take in the event that it holds.
    TakeEvent,
    /// Answer with a pong.
    Pong,
    Ignore,
    /// Drop the connection; it was closed.
    DropClosed,
    /// Drop the connection; it failed.
    DropFailed,
}

/// What is done about a frame.
pub open spec fn step_for(frame: Frame) -> FrameStep {
    match frame {
        Frame::Text => FrameStep::TakeEvent,
        Frame::Ping => FrameStep::Pong,
        Frame::Close | Frame::End => FrameStep::DropClosed,
        Frame::Other => FrameStep::Ignore,
        Frame::Failure => FrameStep::DropFailed,
    }
}

/// Decides what is done about a frame.
pub fn receive(frame: Frame) -> (step: FrameStep)
    ensures
        step == step_for(frame),
{
    match frame {
        Frame::Text => FrameStep::TakeEvent,
        Frame::Ping => FrameStep::Pong,
        Frame::Close | Frame::End => FrameStep::DropClosed,
        Frame::Other => FrameStep::Ignore,
        Frame::Failure => FrameStep::DropFailed,
    }
}

/// What is said about a dropped connection; nothing about a frame that keeps it.
pub fn drop_reason(step: FrameStep) -> (reason: Option<&'static str>)
    ensures
        reason == match step {
            FrameStep::DropClosed => Some("Mattermost WebSocket connection closed"),
            FrameStep::DropFailed => Some("receive Mattermost WebSocket message"),
            _ => None,
        },
{
    match step {
        FrameStep::DropClosed => Some("Mattermost WebSocket connection closed"),
        FrameStep::DropFailed => Some("receive Mattermost WebSocket message"),
        _ => None,
    }
}

/// Whether an event is one about a new post.
pub fn is_posted(event: &Option<String>) -> (yes: bool)
    ensures
        yes == (maybe(*event) == Some("posted"@)),
{
    match event {
        Some(name) => same(name.as_str(), "posted"),
        None => false,
    }
}

} // verus!
