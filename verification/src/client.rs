//! Controller-side handshake decisions: waiting for the device's `init`.

use vstd::prelude::*;

use crate::message::{Frame, FrpMessage, FrpProtocolMessage, Severity};
use crate::server::{contains_version, lists_version};

verus! {

/// What a controller does with one frame while it waits for `init`.
#[derive(Debug, PartialEq, Eq)]
pub enum HandshakeStep {
    /// Keep waiting.
    Wait,
    /// The device answered `init` with one of the offered versions.
    Ready(String),
    /// The device answered `init` with a version the controller never
    /// offered: no compatible version, and the handshake fails.
    Unoffered(String),
    /// The device sent a critical alert: the handshake fails with its message.
    Refused(String),
    /// The device closed the connection.
    Closed,
}

/// What a frame does to a controller that offered `offered` and waits for `init`.
pub open spec fn handshake_step_spec(frame: Frame, offered: Seq<String>) -> HandshakeStep {
    match frame {
        Frame::Text(Some(FrpMessage::Protocol(FrpProtocolMessage::Init { version }))) => {
            if lists_version(offered, version@) {
                HandshakeStep::Ready(version)
            } else {
                HandshakeStep::Unoffered(version)
            }
        },
        Frame::Text(
            Some(FrpMessage::Protocol(FrpProtocolMessage::Alert { severity: Severity::Critical, message })),
        ) => HandshakeStep::Refused(message),
        Frame::Close => HandshakeStep::Closed,
        _ => HandshakeStep::Wait,
    }
}

/// The handshake completes only on `init`, and with the very version that
/// the device's `init` carries, provided the controller offered it.
pub proof fn law_ready_carries_device_choice(frame: Frame, offered: Seq<String>)
    ensures
        handshake_step_spec(frame, offered) matches HandshakeStep::Ready(v) ==> frame == Frame::Text(
            Some(FrpMessage::Protocol(FrpProtocolMessage::Init { version: v })),
        ) && lists_version(offered, v@),
        frame matches Frame::Text(Some(FrpMessage::Protocol(FrpProtocolMessage::Init { version })))
            ==> (handshake_step_spec(frame, offered) == HandshakeStep::Ready(version) <==> lists_version(
            offered,
            version@,
        )),
{
}

/// While waiting for `init`: `init` with an offered version completes the
/// handshake, `init` with any other version fails it, a critical alert fails
/// it, a close frame ends the connection, and every other frame (other
/// messages, milder alerts, text that is no FRP message) is passed over.
pub fn handshake_step(frame: Frame, offered: &[String]) -> (step: HandshakeStep)
    ensures
        step == handshake_step_spec(frame, offered@),
        step matches HandshakeStep::Ready(v) ==> frame == Frame::Text(
            Some(FrpMessage::Protocol(FrpProtocolMessage::Init { version: v })),
        ) && lists_version(offered@, v@),
        frame matches Frame::Text(Some(FrpMessage::Protocol(FrpProtocolMessage::Init { version })))
            ==> (step == HandshakeStep::Ready(version) <==> lists_version(offered@, version@)),
{
    proof {
        law_ready_carries_device_choice(frame, offered@);
    }
    match frame {
        Frame::Text(Some(FrpMessage::Protocol(FrpProtocolMessage::Init { version }))) => {
            if contains_version(offered, &version) {
                HandshakeStep::Ready(version)
            } else {
                HandshakeStep::Unoffered(version)
            }
        },
        Frame::Text(Some(FrpMessage::Protocol(FrpProtocolMessage::Alert { severity, message }))) => {
            match severity {
                Severity::Critical => HandshakeStep::Refused(message),
                _ => HandshakeStep::Wait,
            }
        },
        Frame::Close => HandshakeStep::Closed,
        _ => HandshakeStep::Wait,
    }
}

} // verus!
