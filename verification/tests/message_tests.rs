use flightrelay::message::MessageShape;
use flightrelay::{DetectionMode, FrpMessage, Severity};

#[test]
fn severity_labels() {
    assert_eq!(Severity::Warn.to_string(), "warn");
    assert_eq!(Severity::Error.to_string(), "error");
    assert_eq!(Severity::Critical.to_string(), "critical");
}

#[test]
fn severity_order() {
    assert!(Severity::Warn < Severity::Error);
    assert!(Severity::Error < Severity::Critical);
}

#[test]
fn detection_mode_labels() {
    assert_eq!(DetectionMode::Full.to_string(), "full");
    assert_eq!(DetectionMode::Putting.to_string(), "putting");
    assert_eq!(DetectionMode::Chipping.to_string(), "chipping");
}

#[test]
fn message_shapes() {
    assert_eq!(FrpMessage::shape_of(true, true), Some(MessageShape::Envelope));
    assert_eq!(FrpMessage::shape_of(true, false), Some(MessageShape::Envelope));
    assert_eq!(FrpMessage::shape_of(false, true), Some(MessageShape::Protocol));
    assert_eq!(FrpMessage::shape_of(false, false), None);
}
