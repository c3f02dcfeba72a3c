//! Standard telemetry key constants.

use vstd::prelude::*;

verus! {

pub const READY: &'static str = "ready";

pub const BATTERY_PCT: &'static str = "battery_pct";

pub const TILT: &'static str = "tilt";

pub const ROLL: &'static str = "roll";

} // verus!
