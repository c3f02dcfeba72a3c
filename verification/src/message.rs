//! FRP message model.
//!
//! FRP has two wire shapes:
//! - envelopes, `{ "device": "...", "event": { "kind": "..." } }`: device events;
//! - protocol messages, `{ "kind": "..." }`: handshake, alerts, commands.

use std::collections::HashMap;

use vstd::prelude::*;

use crate::types::{BallFlight, ClubData, FaceImpact, ShotKey};

verus! {

/// Top-level FRP message: either an envelope (device event) or a protocol message.
#[derive(Debug, Clone, PartialEq)]
pub enum FrpMessage {
    /// Device event envelope.
    Envelope(FrpEnvelope),
    /// Protocol-level message.
    Protocol(FrpProtocolMessage),
}

/// Device event envelope.
#[derive(Debug, Clone, PartialEq)]
pub struct FrpEnvelope {
    /// Identifier of the originating launch monitor (e.g. `"EagleOne-X4K2"`).
    pub device: String,
    /// The typed event.
    pub event: FrpEvent,
}

/// Device events, tagged by `"kind"` on the wire.
#[derive(Debug, Clone, PartialEq)]
pub enum FrpEvent {
    ShotTrigger { key: ShotKey },
    BallFlight { key: ShotKey, ball: BallFlight },
    ClubPath { key: ShotKey, club: ClubData },
    FaceImpact { key: ShotKey, impact: FaceImpact },
    ShotFinished { key: ShotKey },
    DeviceTelemetry {
        manufacturer: Option<String>,
        model: Option<String>,
        firmware: Option<String>,
        telemetry: Option<HashMap<String, String>>,
    },
    Alert { severity: Severity, message: String },
    /// Unknown event kind: per the protocol it must be silently ignored.
    Unknown,
}

/// Protocol-level messages (no device envelope).
#[allow(inconsistent_fields)]
#[derive(Debug, Clone, PartialEq)]
pub enum FrpProtocolMessage {
    /// Controller to device: version negotiation.
    Start { version: Vec<String>, name: Option<String> },
    /// Device to controller: version confirmation.
    Init { version: String },
    /// Protocol-level alert (no device context).
    Alert { severity: Severity, message: String },
    /// Controller to device: set detection mode.
    SetDetectionMode { mode: DetectionMode },
    /// Unknown protocol message kind: per the protocol it must be silently ignored.
    Unknown,
}

/// Alert severity level, from the mildest to the gravest.
#[derive(Debug, Clone, Copy, PartialEq, Eq, PartialOrd, Ord, Hash, Structural)]
pub enum Severity {
    Warn,
    Error,
    Critical,
}

/// Shot detection mode.
#[derive(Debug, Clone, Copy, PartialEq, Eq, Structural)]
pub enum DetectionMode {
    Full,
    Putting,
    Chipping,
}

/// One frame read from the connection, with its text already read as an FRP
/// message: `Text(None)` is a text frame that holds no valid FRP message.
#[derive(Debug, Clone, PartialEq)]
pub enum Frame {
    Text(Option<FrpMessage>),
    Close,
    /// Any other frame (binary, ping, pong): it carries no FRP message.
    Other,
}

impl Severity {
    /// The wire name of this severity.
    pub open spec fn label(self) -> Seq<char> {
        match self {
            Severity::Warn => seq!['w', 'a', 'r', 'n'],
            Severity::Error => seq!['e', 'r', 'r', 'o', 'r'],
            Severity::Critical => seq!['c', 'r', 'i', 't', 'i', 'c', 'a', 'l'],
        }
    }

    /// The wire name of this severity, as the protocol writes it.
    pub fn to_string(&self) -> (s: String)
        ensures
            s@ == self.label(),
    {
        match self {
            Severity::Warn => {
                proof {
                    reveal_strlit("warn");
                }
                String::from_str("warn")
            },
            Severity::Error => {
                proof {
                    reveal_strlit("error");
                }
                String::from_str("error")
            },
            Severity::Critical => {
                proof {
                    reveal_strlit("critical");
                }
                String::from_str("critical")
            },
        }
    }
}

impl DetectionMode {
    /// The wire name of this detection mode.
    pub open spec fn label(self) -> Seq<char> {
        match self {
            DetectionMode::Full => seq!['f', 'u', 'l', 'l'],
            DetectionMode::Putting => seq!['p', 'u', 't', 't', 'i', 'n', 'g'],
            DetectionMode::Chipping => seq!['c', 'h', 'i', 'p', 'p', 'i', 'n', 'g'],
        }
    }

    /// The wire name of this detection mode, as the protocol writes it.
    pub fn to_string(&self) -> (s: String)
        ensures
            s@ == self.label(),
    {
        match self {
            DetectionMode::Full => {
                proof {
                    reveal_strlit("full");
                }
                String::from_str("full")
            },
            DetectionMode::Putting => {
                proof {
                    reveal_strlit("putting");
                }
                String::from_str("putting")
            },
            DetectionMode::Chipping => {
                proof {
                    reveal_strlit("chipping");
                }
                String::from_str("chipping")
            },
        }
    }
}

/// The shape of a JSON message, told by the top-level keys it carries.
#[derive(Debug, Clone, Copy, PartialEq, Eq, Structural)]
pub enum MessageShape {
    /// It has a `"device"` key: a device event envelope.
    Envelope,
    /// It has a `"kind"` key and no `"device"` key: a protocol message.
    Protocol,
}

impl FrpMessage {
    /// Tells the two wire shapes apart: the `"device"` key makes an envelope
    /// whether or not `"kind"` is there too; `"kind"` alone makes a protocol
    /// message. A message with neither key matches neither shape (`None`),
    /// which parsing reports as an error.
    pub fn shape_of(has_device: bool, has_kind: bool) -> (shape: Option<MessageShape>)
        ensures
            shape == (if has_device {
                Some(MessageShape::Envelope)
            } else if has_kind {
                Some(MessageShape::Protocol)
            } else {
                None
            }),
    {
        if has_device {
            Some(MessageShape::Envelope)
        } else if has_kind {
            Some(MessageShape::Protocol)
        } else {
            None
        }
    }
}

} // verus!
