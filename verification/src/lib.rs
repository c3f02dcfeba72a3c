//! Flight Relay Protocol (FRP): golf launch monitor event streaming.
//!
//! The message model, unit-tagged values, the shot accumulator and the
//! handshake decisions of the protocol, each with its contract.

pub mod accumulator;
pub mod client;
pub mod connection;
pub mod equality;
pub mod message;
pub mod server;
pub mod text;
pub mod types;
pub mod units;
pub mod version;

pub use accumulator::{CompletedShot, ShotAggregator};
pub use message::{DetectionMode, FrpEnvelope, FrpEvent, FrpMessage, FrpProtocolMessage, Severity};
pub use server::select_version;
pub use types::{BallFlight, ClubData, FaceImpact, ShotKey};
pub use units::{Distance, Velocity};

use vstd::prelude::*;

verus! {

/// Recommended default port for standalone FRP connections.
pub const DEFAULT_PORT: u16 = 5880;

/// Recommended default WebSocket path for FRP connections.
pub const DEFAULT_PATH: &'static str = "/frp";

/// Recommended default URL for standalone FRP connections.
pub const DEFAULT_URL: &'static str = "ws://localhost:5880/frp";

/// The FRP spec version this crate implements.
pub const SPEC_VERSION: &'static str = "0.1.0";

} // verus!
