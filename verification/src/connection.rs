//! Decisions of an established connection: what each read means to a
//! receiver, and to a connection that is closing.

use vstd::prelude::*;

verus! {

/// The kind of a frame read from the connection.
#[derive(Debug, Clone, Copy, PartialEq, Eq, Structural)]
pub enum FrameKind {
    /// A text frame: it carries a JSON message.
    Text,
    /// A close frame.
    Close,
    /// Any other frame (binary, ping, pong).
    Other,
}

/// The outcome of one read from the connection.
#[derive(Debug, Clone, Copy, PartialEq, Eq, Structural)]
pub enum ReadEvent {
    /// A frame arrived.
    Frame(FrameKind),
    /// Nothing is available yet on a non-blocking connection.
    WouldBlock,
    /// The connection is closed.
    ConnectionClosed,
    /// The connection had already been closed before this read.
    AlreadyClosed,
    /// Any other failure of the read.
    Failed,
}

/// What a receiver does with one read.
#[derive(Debug, Clone, Copy, PartialEq, Eq, Structural)]
pub enum RecvStep {
    /// Hand out the text frame's message (or the error of reading it).
    Deliver,
    /// Pass over the frame and read again.
    Skip,
    /// The peer closed the connection.
    Closed,
    /// Nothing yet: a poll returns empty-handed.
    NothingYet,
    /// The read failed: its error is the result.
    Fail,
}

/// What a connection that has sent its close frame does with one read.
#[derive(Debug, Clone, Copy, PartialEq, Eq, Structural)]
pub enum CloseStep {
    /// The close is complete.
    Done,
    /// Keep reading until the peer's close arrives.
    Keep,
    /// The read failed: its error is the result.
    Fail,
}

/// Receiving: a text frame is handed out, a close frame ends with `Closed`,
/// other frames are passed over; when polling, `WouldBlock` means nothing is
/// there yet, and a blocking receive reports it as a failure like any other.
pub open spec fn recv_step_spec(ev: ReadEvent, polling: bool) -> RecvStep {
    match ev {
        ReadEvent::Frame(FrameKind::Text) => RecvStep::Deliver,
        ReadEvent::Frame(FrameKind::Close) => RecvStep::Closed,
        ReadEvent::Frame(FrameKind::Other) => RecvStep::Skip,
        ReadEvent::WouldBlock => if polling {
            RecvStep::NothingYet
        } else {
            RecvStep::Fail
        },
        _ => RecvStep::Fail,
    }
}

/// Closing: the peer's close frame, or a connection that is closed or was
/// already closed, completes the close; any other frame is read past; any
/// other failure is the result.
pub open spec fn close_step_spec(ev: ReadEvent) -> CloseStep {
    match ev {
        ReadEvent::Frame(FrameKind::Close) => CloseStep::Done,
        ReadEvent::ConnectionClosed => CloseStep::Done,
        ReadEvent::AlreadyClosed => CloseStep::Done,
        ReadEvent::Frame(_) => CloseStep::Keep,
        _ => CloseStep::Fail,
    }
}

/// What a receiver does with one read; `polling` is set for a non-blocking
/// poll.
pub fn recv_step(ev: ReadEvent, polling: bool) -> (step: RecvStep)
    ensures
        step == recv_step_spec(ev, polling),
{
    match ev {
        ReadEvent::Frame(FrameKind::Text) => RecvStep::Deliver,
        ReadEvent::Frame(FrameKind::Close) => RecvStep::Closed,
        ReadEvent::Frame(FrameKind::Other) => RecvStep::Skip,
        ReadEvent::WouldBlock => if polling {
            RecvStep::NothingYet
        } else {
            RecvStep::Fail
        },
        ReadEvent::ConnectionClosed | ReadEvent::AlreadyClosed | ReadEvent::Failed => RecvStep::Fail,
    }
}

/// What a closing connection does with one read.
pub fn close_step(ev: ReadEvent) -> (step: CloseStep)
    ensures
        step == close_step_spec(ev),
{
    match ev {
        ReadEvent::Frame(FrameKind::Close) | ReadEvent::ConnectionClosed | ReadEvent::AlreadyClosed => {
            CloseStep::Done
        },
        ReadEvent::Frame(FrameKind::Text) | ReadEvent::Frame(FrameKind::Other) => CloseStep::Keep,
        ReadEvent::WouldBlock | ReadEvent::Failed => CloseStep::Fail,
    }
}

} // verus!
