use flightrelay::client::{handshake_step, HandshakeStep};
use flightrelay::message::{Frame, FrpMessage, FrpProtocolMessage, Severity};

fn handshake_step_offered(frame: Frame) -> HandshakeStep {
    let offered = vec!["0.1.0".to_owned(), "0.2.0".to_owned()];
    handshake_step(frame, &offered)
}

fn proto(msg: FrpProtocolMessage) -> Frame {
    Frame::Text(Some(FrpMessage::Protocol(msg)))
}

#[test]
fn handshake_completes_on_init() {
    let step = handshake_step_offered(proto(FrpProtocolMessage::Init { version: "0.1.0".to_owned() }));
    assert_eq!(step, HandshakeStep::Ready("0.1.0".to_owned()));
}

#[test]
fn handshake_fails_on_critical_alert() {
    let step = handshake_step_offered(proto(FrpProtocolMessage::Alert {
        severity: Severity::Critical,
        message: "Unsupported FRP version".to_owned(),
    }));
    assert_eq!(step, HandshakeStep::Refused("Unsupported FRP version".to_owned()));
}

#[test]
fn handshake_passes_over_other_frames() {
    let warn = proto(FrpProtocolMessage::Alert {
        severity: Severity::Warn,
        message: "Signal weak".to_owned(),
    });
    assert_eq!(handshake_step_offered(warn), HandshakeStep::Wait);
    assert_eq!(handshake_step_offered(proto(FrpProtocolMessage::Unknown)), HandshakeStep::Wait);
    assert_eq!(handshake_step_offered(Frame::Text(None)), HandshakeStep::Wait);
    assert_eq!(handshake_step_offered(Frame::Other), HandshakeStep::Wait);
    assert_eq!(handshake_step_offered(Frame::Close), HandshakeStep::Closed);
}

#[test]
fn handshake_fails_on_unoffered_version() {
    let step = handshake_step_offered(proto(FrpProtocolMessage::Init { version: "0.3.0".to_owned() }));
    assert_eq!(step, HandshakeStep::Unoffered("0.3.0".to_owned()));
    let none: Vec<String> = vec![];
    let init = proto(FrpProtocolMessage::Init { version: "0.1.0".to_owned() });
    assert_eq!(handshake_step(init, &none), HandshakeStep::Unoffered("0.1.0".to_owned()));
}
