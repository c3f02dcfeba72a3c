//! FRP domain types: shot key, ball flight, club data, face impact.
//!
//! Every measured quantity that the protocol carries as a real number is held
//! here by its IEEE 754 binary64 bit pattern, so that the value is kept bit for
//! bit while the library stays in integer arithmetic.

pub mod telemetry;

use vstd::prelude::*;

use crate::units::{Distance, Velocity};

verus! {

/// Correlates shot lifecycle events. Generated once at trigger time, carried on
/// every event in the shot sequence.
#[derive(Debug, PartialEq, Eq, Hash)]
pub struct ShotKey {
    /// Unique shot ID (UUID v4 string).
    pub shot_id: String,
    /// Monotonic counter from the device, for human display.
    pub shot_number: u32,
}

impl ShotKey {
    /// A copy of this key, equal to it in every field.
    pub fn duplicate(&self) -> (copy: ShotKey)
        ensures
            copy == *self,
    {
        ShotKey { shot_id: self.shot_id.clone(), shot_number: self.shot_number }
    }
}

impl Clone for ShotKey {
    fn clone(&self) -> (copy: ShotKey)
        ensures
            copy == *self,
    {
        self.duplicate()
    }
}

/// Ball flight measurement data. All fields optional: a device sends what its
/// hardware supports. Angles and the flight time are bit patterns of their
/// real values (degrees, seconds).
#[derive(Debug, Clone, Copy)]
pub struct BallFlight {
    pub launch_speed: Option<Velocity>,
    pub launch_azimuth: Option<u64>,
    pub launch_elevation: Option<u64>,
    pub carry_distance: Option<Distance>,
    pub total_distance: Option<Distance>,
    pub roll_distance: Option<Distance>,
    pub max_height: Option<Distance>,
    pub flight_time: Option<u64>,
    pub backspin_rpm: Option<i32>,
    pub sidespin_rpm: Option<i32>,
}

/// Club head measurement data. All fields optional. Angles and the smash
/// factor are bit patterns of their real values.
#[derive(Debug, Clone, Copy)]
pub struct ClubData {
    pub club_speed: Option<Velocity>,
    pub club_speed_post: Option<Velocity>,
    pub path: Option<u64>,
    pub attack_angle: Option<u64>,
    pub face_angle: Option<u64>,
    pub dynamic_loft: Option<u64>,
    pub smash_factor: Option<u64>,
    pub swing_plane_horizontal: Option<u64>,
    pub swing_plane_vertical: Option<u64>,
    pub club_offset: Option<Distance>,
    pub club_height: Option<Distance>,
}

/// Face impact location: where on the club face the ball was struck.
#[derive(Debug, Clone, Copy)]
pub struct FaceImpact {
    pub lateral: Option<Distance>,
    pub vertical: Option<Distance>,
}

} // verus!
