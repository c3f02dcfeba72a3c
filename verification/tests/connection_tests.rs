use flightrelay::connection::{close_step, recv_step, CloseStep, FrameKind, ReadEvent, RecvStep};

#[test]
fn receiving_decisions() {
    for polling in [false, true] {
        assert_eq!(recv_step(ReadEvent::Frame(FrameKind::Text), polling), RecvStep::Deliver);
        assert_eq!(recv_step(ReadEvent::Frame(FrameKind::Close), polling), RecvStep::Closed);
        assert_eq!(recv_step(ReadEvent::Frame(FrameKind::Other), polling), RecvStep::Skip);
        assert_eq!(recv_step(ReadEvent::ConnectionClosed, polling), RecvStep::Fail);
        assert_eq!(recv_step(ReadEvent::AlreadyClosed, polling), RecvStep::Fail);
        assert_eq!(recv_step(ReadEvent::Failed, polling), RecvStep::Fail);
    }
    assert_eq!(recv_step(ReadEvent::WouldBlock, true), RecvStep::NothingYet);
    assert_eq!(recv_step(ReadEvent::WouldBlock, false), RecvStep::Fail);
}

#[test]
fn closing_decisions() {
    assert_eq!(close_step(ReadEvent::Frame(FrameKind::Close)), CloseStep::Done);
    assert_eq!(close_step(ReadEvent::ConnectionClosed), CloseStep::Done);
    assert_eq!(close_step(ReadEvent::AlreadyClosed), CloseStep::Done);
    assert_eq!(close_step(ReadEvent::Frame(FrameKind::Text)), CloseStep::Keep);
    assert_eq!(close_step(ReadEvent::Frame(FrameKind::Other)), CloseStep::Keep);
    assert_eq!(close_step(ReadEvent::WouldBlock), CloseStep::Fail);
    assert_eq!(close_step(ReadEvent::Failed), CloseStep::Fail);
}
