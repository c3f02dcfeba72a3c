//! Equality of measured values as real numbers.
//!
//! A magnitude is held by its IEEE 754 binary64 bit pattern, and two of them
//! are equal as numbers compare: NaN equals nothing, not even itself, and
//! `+0` equals `-0`; otherwise equal numbers have equal bit patterns.

use vstd::prelude::*;
use vstd::std_specs::cmp::PartialEqSpecImpl;

use crate::accumulator::CompletedShot;
use crate::types::{BallFlight, ClubData, FaceImpact};
use crate::units::{Distance, Velocity};

verus! {

/// The bit pattern `b` encodes a NaN: all exponent bits set, a nonzero fraction.
pub open spec fn is_nan_bits(b: u64) -> bool {
    (b & 0x7ff0_0000_0000_0000u64) == 0x7ff0_0000_0000_0000u64 && (b & 0x000f_ffff_ffff_ffffu64) != 0
}

/// The bit pattern `b` encodes a zero of either sign.
pub open spec fn is_zero_bits(b: u64) -> bool {
    (b & 0x7fff_ffff_ffff_ffffu64) == 0
}

/// The numbers with bit patterns `a` and `b` are equal.
pub open spec fn same_number(a: u64, b: u64) -> bool {
    !is_nan_bits(a) && !is_nan_bits(b) && (a == b || (is_zero_bits(a) && is_zero_bits(b)))
}

/// Optional numbers are equal when both are absent or both are equal numbers.
pub open spec fn same_optional_number(a: Option<u64>, b: Option<u64>) -> bool {
    match (a, b) {
        (None, None) => true,
        (Some(x), Some(y)) => same_number(x, y),
        _ => false,
    }
}

/// Two distances are equal: the same unit and equal magnitudes.
pub open spec fn same_distance(a: Distance, b: Distance) -> bool {
    a.unit_spec() == b.unit_spec() && same_number(a.value_spec(), b.value_spec())
}

/// Two velocities are equal: the same unit and equal magnitudes.
pub open spec fn same_velocity(a: Velocity, b: Velocity) -> bool {
    a.unit_spec() == b.unit_spec() && same_number(a.value_spec(), b.value_spec())
}

/// Optional distances are equal when both are absent or both are equal.
pub open spec fn same_optional_distance(a: Option<Distance>, b: Option<Distance>) -> bool {
    match (a, b) {
        (None, None) => true,
        (Some(x), Some(y)) => same_distance(x, y),
        _ => false,
    }
}

/// Optional velocities are equal when both are absent or both are equal.
pub open spec fn same_optional_velocity(a: Option<Velocity>, b: Option<Velocity>) -> bool {
    match (a, b) {
        (None, None) => true,
        (Some(x), Some(y)) => same_velocity(x, y),
        _ => false,
    }
}

/// Two ball flights are equal field by field, numbers compared as numbers.
pub open spec fn same_ball(a: BallFlight, b: BallFlight) -> bool {
    &&& same_optional_velocity(a.launch_speed, b.launch_speed)
    &&& same_optional_number(a.launch_azimuth, b.launch_azimuth)
    &&& same_optional_number(a.launch_elevation, b.launch_elevation)
    &&& same_optional_distance(a.carry_distance, b.carry_distance)
    &&& same_optional_distance(a.total_distance, b.total_distance)
    &&& same_optional_distance(a.roll_distance, b.roll_distance)
    &&& same_optional_distance(a.max_height, b.max_height)
    &&& same_optional_number(a.flight_time, b.flight_time)
    &&& a.backspin_rpm == b.backspin_rpm
    &&& a.sidespin_rpm == b.sidespin_rpm
}

/// Two club measurements are equal field by field, numbers compared as numbers.
pub open spec fn same_club(a: ClubData, b: ClubData) -> bool {
    &&& same_optional_velocity(a.club_speed, b.club_speed)
    &&& same_optional_velocity(a.club_speed_post, b.club_speed_post)
    &&& same_optional_number(a.path, b.path)
    &&& same_optional_number(a.attack_angle, b.attack_angle)
    &&& same_optional_number(a.face_angle, b.face_angle)
    &&& same_optional_number(a.dynamic_loft, b.dynamic_loft)
    &&& same_optional_number(a.smash_factor, b.smash_factor)
    &&& same_optional_number(a.swing_plane_horizontal, b.swing_plane_horizontal)
    &&& same_optional_number(a.swing_plane_vertical, b.swing_plane_vertical)
    &&& same_optional_distance(a.club_offset, b.club_offset)
    &&& same_optional_distance(a.club_height, b.club_height)
}

/// Two face impacts are equal when both coordinates are.
pub open spec fn same_impact(a: FaceImpact, b: FaceImpact) -> bool {
    same_optional_distance(a.lateral, b.lateral) && same_optional_distance(a.vertical, b.vertical)
}

/// Optional measurements are equal when both are absent or both are equal.
pub open spec fn same_optional_ball(a: Option<BallFlight>, b: Option<BallFlight>) -> bool {
    match (a, b) {
        (None, None) => true,
        (Some(x), Some(y)) => same_ball(x, y),
        _ => false,
    }
}

/// Optional measurements are equal when both are absent or both are equal.
pub open spec fn same_optional_club(a: Option<ClubData>, b: Option<ClubData>) -> bool {
    match (a, b) {
        (None, None) => true,
        (Some(x), Some(y)) => same_club(x, y),
        _ => false,
    }
}

/// Optional measurements are equal when both are absent or both are equal.
pub open spec fn same_optional_impact(a: Option<FaceImpact>, b: Option<FaceImpact>) -> bool {
    match (a, b) {
        (None, None) => true,
        (Some(x), Some(y)) => same_impact(x, y),
        _ => false,
    }
}

/// Equal numbers have equal bit patterns, but for the two zeros; every number
/// but NaN equals itself; NaN equals nothing.
pub proof fn law_same_number_is_bit_equality(a: u64, b: u64)
    ensures
        same_number(a, b) ==> a == b || (a & 0x7fff_ffff_ffff_ffffu64 == 0 && b & 0x7fff_ffff_ffff_ffffu64
            == 0),
        !is_nan_bits(a) ==> same_number(a, a),
        is_nan_bits(a) ==> !same_number(a, b) && !same_number(b, a),
        same_number(a, b) == same_number(b, a),
        (a & 0x7fff_ffff_ffff_ffffu64 == 0 && b & 0x7fff_ffff_ffff_ffffu64 == 0) ==> same_number(a, b),
{
    assert((a & 0x7fff_ffff_ffff_ffffu64 == 0) ==> (a & 0x7ff0_0000_0000_0000u64 == 0)) by (bit_vector);
    assert((b & 0x7fff_ffff_ffff_ffffu64 == 0) ==> (b & 0x7ff0_0000_0000_0000u64 == 0)) by (bit_vector);
}

/// A number that is neither NaN nor zero differs from its negation: the two
/// bit patterns differ in the sign bit alone.
pub proof fn law_opposite_signs_differ(x: u64)
    requires
        !is_nan_bits(x),
        !is_zero_bits(x),
    ensures
        !same_number(x, x ^ 0x8000_0000_0000_0000u64),
        !same_number(x ^ 0x8000_0000_0000_0000u64, x),
{
    assert(x ^ 0x8000_0000_0000_0000u64 != x) by (bit_vector);
}

/// Whether the numbers with bit patterns `a` and `b` are equal.
pub fn numbers_equal(a: u64, b: u64) -> (eq: bool)
    ensures
        eq == same_number(a, b),
        eq ==> a == b || (a & 0x7fff_ffff_ffff_ffffu64 == 0 && b & 0x7fff_ffff_ffff_ffffu64 == 0),
        a == b && !is_nan_bits(a) ==> eq,
{
    let a_nan = (a & 0x7ff0_0000_0000_0000u64) == 0x7ff0_0000_0000_0000u64 && (a & 0x000f_ffff_ffff_ffffu64)
        != 0;
    let b_nan = (b & 0x7ff0_0000_0000_0000u64) == 0x7ff0_0000_0000_0000u64 && (b & 0x000f_ffff_ffff_ffffu64)
        != 0;
    let zeros = (a & 0x7fff_ffff_ffff_ffffu64) == 0 && (b & 0x7fff_ffff_ffff_ffffu64) == 0;
    !a_nan && !b_nan && (a == b || zeros)
}

/// Whether two optional numbers are equal.
pub fn optional_numbers_equal(a: Option<u64>, b: Option<u64>) -> (eq: bool)
    ensures
        eq == same_optional_number(a, b),
{
    match (a, b) {
        (None, None) => true,
        (Some(x), Some(y)) => numbers_equal(x, y),
        _ => false,
    }
}

impl PartialEq for Distance {
    fn eq(&self, other: &Self) -> (eq: bool) {
        match (self, other) {
            (Distance::Feet(a), Distance::Feet(b)) => numbers_equal(*a, *b),
            (Distance::Inches(a), Distance::Inches(b)) => numbers_equal(*a, *b),
            (Distance::Meters(a), Distance::Meters(b)) => numbers_equal(*a, *b),
            (Distance::Centimeters(a), Distance::Centimeters(b)) => numbers_equal(*a, *b),
            (Distance::Yards(a), Distance::Yards(b)) => numbers_equal(*a, *b),
            (Distance::Millimeters(a), Distance::Millimeters(b)) => numbers_equal(*a, *b),
            _ => false,
        }
    }
}

impl PartialEqSpecImpl for Distance {
    open spec fn obeys_eq_spec() -> bool {
        true
    }

    /// Same unit and equal magnitudes.
    open spec fn eq_spec(&self, other: &Self) -> bool {
        same_distance(*self, *other)
    }
}

impl PartialEq for Velocity {
    fn eq(&self, other: &Self) -> (eq: bool) {
        match (self, other) {
            (Velocity::MilesPerHour(a), Velocity::MilesPerHour(b)) => numbers_equal(*a, *b),
            (Velocity::FeetPerSecond(a), Velocity::FeetPerSecond(b)) => numbers_equal(*a, *b),
            (Velocity::MetersPerSecond(a), Velocity::MetersPerSecond(b)) => numbers_equal(*a, *b),
            (Velocity::KilometersPerHour(a), Velocity::KilometersPerHour(b)) => numbers_equal(*a, *b),
            _ => false,
        }
    }
}

impl PartialEqSpecImpl for Velocity {
    open spec fn obeys_eq_spec() -> bool {
        true
    }

    /// Same unit and equal magnitudes.
    open spec fn eq_spec(&self, other: &Self) -> bool {
        same_velocity(*self, *other)
    }
}

impl PartialEq for BallFlight {
    fn eq(&self, other: &Self) -> (eq: bool) {
        self.launch_speed == other.launch_speed && optional_numbers_equal(
            self.launch_azimuth,
            other.launch_azimuth,
        ) && optional_numbers_equal(self.launch_elevation, other.launch_elevation)
            && self.carry_distance == other.carry_distance && self.total_distance
            == other.total_distance && self.roll_distance == other.roll_distance && self.max_height
            == other.max_height && optional_numbers_equal(self.flight_time, other.flight_time)
            && self.backspin_rpm == other.backspin_rpm && self.sidespin_rpm == other.sidespin_rpm
    }
}

impl PartialEqSpecImpl for BallFlight {
    open spec fn obeys_eq_spec() -> bool {
        true
    }

    /// Field by field, numbers compared as numbers.
    open spec fn eq_spec(&self, other: &Self) -> bool {
        same_ball(*self, *other)
    }
}

impl PartialEq for ClubData {
    fn eq(&self, other: &Self) -> (eq: bool) {
        self.club_speed == other.club_speed && self.club_speed_post == other.club_speed_post
            && optional_numbers_equal(self.path, other.path) && optional_numbers_equal(
            self.attack_angle,
            other.attack_angle,
        ) && optional_numbers_equal(self.face_angle, other.face_angle) && optional_numbers_equal(
            self.dynamic_loft,
            other.dynamic_loft,
        ) && optional_numbers_equal(self.smash_factor, other.smash_factor) && optional_numbers_equal(
            self.swing_plane_horizontal,
            other.swing_plane_horizontal,
        ) && optional_numbers_equal(self.swing_plane_vertical, other.swing_plane_vertical)
            && self.club_offset == other.club_offset && self.club_height == other.club_height
    }
}

impl PartialEqSpecImpl for ClubData {
    open spec fn obeys_eq_spec() -> bool {
        true
    }

    /// Field by field, numbers compared as numbers.
    open spec fn eq_spec(&self, other: &Self) -> bool {
        same_club(*self, *other)
    }
}

impl PartialEq for FaceImpact {
    fn eq(&self, other: &Self) -> (eq: bool) {
        self.lateral == other.lateral && self.vertical == other.vertical
    }
}

impl PartialEqSpecImpl for FaceImpact {
    open spec fn obeys_eq_spec() -> bool {
        true
    }

    /// Both coordinates equal as distances.
    open spec fn eq_spec(&self, other: &Self) -> bool {
        same_impact(*self, *other)
    }
}

impl PartialEq for CompletedShot {
    fn eq(&self, other: &Self) -> (eq: bool) {
        self.device == other.device && self.key.shot_id == other.key.shot_id && self.key.shot_number
            == other.key.shot_number && self.ball == other.ball && self.club == other.club
            && self.impact == other.impact
    }
}

impl PartialEqSpecImpl for CompletedShot {
    open spec fn obeys_eq_spec() -> bool {
        true
    }

    /// Same device and key, and equal measurements.
    open spec fn eq_spec(&self, other: &Self) -> bool {
        &&& self.device@ == other.device@
        &&& self.key.shot_id@ == other.key.shot_id@
        &&& self.key.shot_number == other.key.shot_number
        &&& same_optional_ball(self.ball, other.ball)
        &&& same_optional_club(self.club, other.club)
        &&& same_optional_impact(self.impact, other.impact)
    }
}

} // verus!
