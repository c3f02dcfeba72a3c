//! Unit-tagged distance and velocity values.
//!
//! On the wire every velocity and distance is a string: a number immediately
//! followed by a unit suffix with no space (`"67.2mps"`, `"180.5m"`). The
//! magnitude is held by its IEEE 754 binary64 bit pattern; this module reads
//! and writes the unit part of the text and leaves the number to the caller.

use vstd::prelude::*;

use crate::text::{before_suffix, has_suffix, is_white_space, strip_suffix, trim, trimmed, trim_end, trim_start};

verus! {

/// A distance value with its unit.
#[derive(Debug, Clone, Copy)]
pub enum Distance {
    Feet(u64),
    Inches(u64),
    Meters(u64),
    Centimeters(u64),
    Yards(u64),
    Millimeters(u64),
}

/// The unit of a [`Distance`].
#[derive(Debug, Clone, Copy, PartialEq, Eq, Structural)]
pub enum DistanceUnit {
    Feet,
    Inches,
    Meters,
    Centimeters,
    Yards,
    Millimeters,
}

/// A velocity value with its unit.
#[derive(Debug, Clone, Copy)]
pub enum Velocity {
    MilesPerHour(u64),
    FeetPerSecond(u64),
    MetersPerSecond(u64),
    KilometersPerHour(u64),
}

/// The unit of a [`Velocity`].
#[derive(Debug, Clone, Copy, PartialEq, Eq, Structural)]
pub enum VelocityUnit {
    MilesPerHour,
    FeetPerSecond,
    MetersPerSecond,
    KilometersPerHour,
}

impl DistanceUnit {
    /// The suffix that tags a distance in this unit.
    pub open spec fn suffix_spec(self) -> Seq<char> {
        match self {
            DistanceUnit::Feet => seq!['f', 't'],
            DistanceUnit::Inches => seq!['i', 'n'],
            DistanceUnit::Meters => seq!['m'],
            DistanceUnit::Centimeters => seq!['c', 'm'],
            DistanceUnit::Yards => seq!['y', 'd'],
            DistanceUnit::Millimeters => seq!['m', 'm'],
        }
    }

    /// The suffix that tags a distance in this unit.
    pub fn suffix(self) -> (s: &'static str)
        ensures
            s@ == self.suffix_spec(),
    {
        match self {
            DistanceUnit::Feet => {
                proof {
                    reveal_strlit("ft");
                }
                "ft"
            },
            DistanceUnit::Inches => {
                proof {
                    reveal_strlit("in");
                }
                "in"
            },
            DistanceUnit::Meters => {
                proof {
                    reveal_strlit("m");
                }
                "m"
            },
            DistanceUnit::Centimeters => {
                proof {
                    reveal_strlit("cm");
                }
                "cm"
            },
            DistanceUnit::Yards => {
                proof {
                    reveal_strlit("yd");
                }
                "yd"
            },
            DistanceUnit::Millimeters => {
                proof {
                    reveal_strlit("mm");
                }
                "mm"
            },
        }
    }
}

impl VelocityUnit {
    /// The suffix that tags a velocity in this unit.
    pub open spec fn suffix_spec(self) -> Seq<char> {
        match self {
            VelocityUnit::MilesPerHour => seq!['m', 'p', 'h'],
            VelocityUnit::FeetPerSecond => seq!['f', 'p', 's'],
            VelocityUnit::MetersPerSecond => seq!['m', 'p', 's'],
            VelocityUnit::KilometersPerHour => seq!['k', 'p', 'h'],
        }
    }

    /// The suffix that tags a velocity in this unit.
    pub fn suffix(self) -> (s: &'static str)
        ensures
            s@ == self.suffix_spec(),
    {
        match self {
            VelocityUnit::MilesPerHour => {
                proof {
                    reveal_strlit("mph");
                }
                "mph"
            },
            VelocityUnit::FeetPerSecond => {
                proof {
                    reveal_strlit("fps");
                }
                "fps"
            },
            VelocityUnit::MetersPerSecond => {
                proof {
                    reveal_strlit("mps");
                }
                "mps"
            },
            VelocityUnit::KilometersPerHour => {
                proof {
                    reveal_strlit("kph");
                }
                "kph"
            },
        }
    }
}

/// How a distance text splits into unit and number text: the text is trimmed,
/// the suffixes are tried longest first (`mm`, `cm`, `ft`, `in`, `yd`, `m`, so
/// that `m` does not claim `"5mm"`), and the rest, trimmed, is the number.
pub open spec fn split_distance(s: Seq<char>) -> Option<(DistanceUnit, Seq<char>)> {
    let t = trimmed(s);
    let try_unit = |u: DistanceUnit| has_suffix(t, u.suffix_spec());
    let number = |u: DistanceUnit| trimmed(before_suffix(t, u.suffix_spec()));
    if try_unit(DistanceUnit::Millimeters) {
        Some((DistanceUnit::Millimeters, number(DistanceUnit::Millimeters)))
    } else if try_unit(DistanceUnit::Centimeters) {
        Some((DistanceUnit::Centimeters, number(DistanceUnit::Centimeters)))
    } else if try_unit(DistanceUnit::Feet) {
        Some((DistanceUnit::Feet, number(DistanceUnit::Feet)))
    } else if try_unit(DistanceUnit::Inches) {
        Some((DistanceUnit::Inches, number(DistanceUnit::Inches)))
    } else if try_unit(DistanceUnit::Yards) {
        Some((DistanceUnit::Yards, number(DistanceUnit::Yards)))
    } else if try_unit(DistanceUnit::Meters) {
        Some((DistanceUnit::Meters, number(DistanceUnit::Meters)))
    } else {
        None
    }
}

/// How a velocity text splits into unit and number text: the text is trimmed,
/// the suffixes `mph`, `mps`, `kph`, `fps` are tried in that order, and the
/// rest, trimmed, is the number.
pub open spec fn split_velocity(s: Seq<char>) -> Option<(VelocityUnit, Seq<char>)> {
    let t = trimmed(s);
    let try_unit = |u: VelocityUnit| has_suffix(t, u.suffix_spec());
    let number = |u: VelocityUnit| trimmed(before_suffix(t, u.suffix_spec()));
    if try_unit(VelocityUnit::MilesPerHour) {
        Some((VelocityUnit::MilesPerHour, number(VelocityUnit::MilesPerHour)))
    } else if try_unit(VelocityUnit::MetersPerSecond) {
        Some((VelocityUnit::MetersPerSecond, number(VelocityUnit::MetersPerSecond)))
    } else if try_unit(VelocityUnit::KilometersPerHour) {
        Some((VelocityUnit::KilometersPerHour, number(VelocityUnit::KilometersPerHour)))
    } else if try_unit(VelocityUnit::FeetPerSecond) {
        Some((VelocityUnit::FeetPerSecond, number(VelocityUnit::FeetPerSecond)))
    } else {
        None
    }
}

/// A distance holds the magnitude it was built with, in the unit it was built
/// with: for every unit, the distance built from `x` has magnitude `x`.
pub proof fn law_distance_keeps_magnitude(x: u64)
    ensures
        Distance::Feet(x).value_spec() == x && Distance::Feet(x).unit_spec() == DistanceUnit::Feet,
        Distance::Inches(x).value_spec() == x && Distance::Inches(x).unit_spec() == DistanceUnit::Inches,
        Distance::Meters(x).value_spec() == x && Distance::Meters(x).unit_spec() == DistanceUnit::Meters,
        Distance::Centimeters(x).value_spec() == x && Distance::Centimeters(x).unit_spec()
            == DistanceUnit::Centimeters,
        Distance::Yards(x).value_spec() == x && Distance::Yards(x).unit_spec() == DistanceUnit::Yards,
        Distance::Millimeters(x).value_spec() == x && Distance::Millimeters(x).unit_spec()
            == DistanceUnit::Millimeters,
{
}

/// A velocity holds the magnitude it was built with, in the unit it was built
/// with.
pub proof fn law_velocity_keeps_magnitude(x: u64)
    ensures
        Velocity::MilesPerHour(x).value_spec() == x && Velocity::MilesPerHour(x).unit_spec()
            == VelocityUnit::MilesPerHour,
        Velocity::FeetPerSecond(x).value_spec() == x && Velocity::FeetPerSecond(x).unit_spec()
            == VelocityUnit::FeetPerSecond,
        Velocity::MetersPerSecond(x).value_spec() == x && Velocity::MetersPerSecond(x).unit_spec()
            == VelocityUnit::MetersPerSecond,
        Velocity::KilometersPerHour(x).value_spec() == x && Velocity::KilometersPerHour(x).unit_spec()
            == VelocityUnit::KilometersPerHour,
{
}

/// A text with no whitespace at either end is its own trimming.
proof fn lemma_trimmed_fixed(s: Seq<char>)
    requires
        s.len() > 0 ==> !is_white_space(s[0]) && !is_white_space(s.last()),
    ensures
        trimmed(s) == s,
{
    assert(trim_start(s) == s);
    assert(trim_end(s) == s);
}

/// What `has_suffix` says of the last characters of `number + tail`.
proof fn lemma_ends_of_concat(number: Seq<char>, tail: Seq<char>, suffix: Seq<char>)
    requires
        suffix.len() <= tail.len(),
    ensures
        has_suffix(number + tail, suffix) == has_suffix(tail, suffix),
{
    let t = number + tail;
    assert(t.subrange(t.len() - suffix.len(), t.len() as int) =~= tail.subrange(
        tail.len() - suffix.len(),
        tail.len() as int,
    ));
}

/// Writing a distance's number text (one with no whitespace at either end)
/// followed by its unit suffix, and splitting that text again, gives back the
/// unit and the number text. For metres the number text must not end in `m`
/// or `c`, which the longer suffixes `mm` and `cm` would claim.
pub proof fn law_distance_text_roundtrip(number: Seq<char>, unit: DistanceUnit)
    requires
        number.len() > 0 ==> !is_white_space(number[0]) && !is_white_space(number.last()),
        unit == DistanceUnit::Meters && number.len() > 0 ==> number.last() != 'm' && number.last()
            != 'c',
    ensures
        split_distance(number + unit.suffix_spec()) == Some((unit, number)),
{
    let suf = unit.suffix_spec();
    let t = number + suf;
    assert(t.len() > 0 ==> t[0] == if number.len() > 0 { number[0] } else { suf[0] });
    assert(t.last() == suf.last());
    lemma_trimmed_fixed(t);
    lemma_trimmed_fixed(number);
    assert(before_suffix(t, suf) =~= number);
    assert(has_suffix(t, suf)) by {
        lemma_ends_of_concat(number, suf, suf);
        assert(suf.subrange(0, suf.len() as int) =~= suf);
    }
    if unit == DistanceUnit::Meters {
        if number.len() > 0 {
            let tail = seq![number.last()] + suf;
            assert(t =~= number.drop_last() + tail);
            lemma_ends_of_concat(number.drop_last(), tail, DistanceUnit::Millimeters.suffix_spec());
            lemma_ends_of_concat(number.drop_last(), tail, DistanceUnit::Centimeters.suffix_spec());
            lemma_ends_of_concat(number.drop_last(), tail, DistanceUnit::Feet.suffix_spec());
            lemma_ends_of_concat(number.drop_last(), tail, DistanceUnit::Inches.suffix_spec());
            lemma_ends_of_concat(number.drop_last(), tail, DistanceUnit::Yards.suffix_spec());
            assert(tail.subrange(0, 2)[0] == number.last());
        }
    } else {
        lemma_ends_of_concat(number, suf, DistanceUnit::Millimeters.suffix_spec());
        lemma_ends_of_concat(number, suf, DistanceUnit::Centimeters.suffix_spec());
        lemma_ends_of_concat(number, suf, DistanceUnit::Feet.suffix_spec());
        lemma_ends_of_concat(number, suf, DistanceUnit::Inches.suffix_spec());
        lemma_ends_of_concat(number, suf, DistanceUnit::Yards.suffix_spec());
        assert(suf.subrange(0, 2) =~= suf);
    }
}

/// Writing a velocity's number text (one with no whitespace at either end)
/// followed by its unit suffix, and splitting that text again, gives back the
/// unit and the number text.
pub proof fn law_velocity_text_roundtrip(number: Seq<char>, unit: VelocityUnit)
    requires
        number.len() > 0 ==> !is_white_space(number[0]) && !is_white_space(number.last()),
    ensures
        split_velocity(number + unit.suffix_spec()) == Some((unit, number)),
{
    let suf = unit.suffix_spec();
    let t = number + suf;
    assert(t.len() > 0 ==> t[0] == if number.len() > 0 { number[0] } else { suf[0] });
    assert(t.last() == suf.last());
    lemma_trimmed_fixed(t);
    lemma_trimmed_fixed(number);
    assert(before_suffix(t, suf) =~= number);
    assert(suf.subrange(0, 3) =~= suf);
    lemma_ends_of_concat(number, suf, VelocityUnit::MilesPerHour.suffix_spec());
    lemma_ends_of_concat(number, suf, VelocityUnit::MetersPerSecond.suffix_spec());
    lemma_ends_of_concat(number, suf, VelocityUnit::KilometersPerHour.suffix_spec());
    lemma_ends_of_concat(number, suf, VelocityUnit::FeetPerSecond.suffix_spec());
}

/// Tries one distance unit on the trimmed text `t`.
fn try_distance_unit<'a>(t: &'a str, unit: DistanceUnit) -> (found: Option<&'a str>)
    ensures
        found is Some <==> has_suffix(t@, unit.suffix_spec()),
        found matches Some(n) ==> n@ == trimmed(before_suffix(t@, unit.suffix_spec())),
{
    match strip_suffix(t, unit.suffix()) {
        Some(rest) => Some(trim(rest)),
        None => None,
    }
}

/// Tries one velocity unit on the trimmed text `t`.
fn try_velocity_unit<'a>(t: &'a str, unit: VelocityUnit) -> (found: Option<&'a str>)
    ensures
        found is Some <==> has_suffix(t@, unit.suffix_spec()),
        found matches Some(n) ==> n@ == trimmed(before_suffix(t@, unit.suffix_spec())),
{
    match strip_suffix(t, unit.suffix()) {
        Some(rest) => Some(trim(rest)),
        None => None,
    }
}

impl Distance {
    /// The unit of this distance.
    pub open spec fn unit_spec(self) -> DistanceUnit {
        match self {
            Distance::Feet(_) => DistanceUnit::Feet,
            Distance::Inches(_) => DistanceUnit::Inches,
            Distance::Meters(_) => DistanceUnit::Meters,
            Distance::Centimeters(_) => DistanceUnit::Centimeters,
            Distance::Yards(_) => DistanceUnit::Yards,
            Distance::Millimeters(_) => DistanceUnit::Millimeters,
        }
    }

    /// The magnitude of this distance, in its own unit.
    pub open spec fn value_spec(self) -> u64 {
        match self {
            Distance::Feet(v) => v,
            Distance::Inches(v) => v,
            Distance::Meters(v) => v,
            Distance::Centimeters(v) => v,
            Distance::Yards(v) => v,
            Distance::Millimeters(v) => v,
        }
    }

    /// The distance of magnitude `value` in `unit`.
    pub fn new(unit: DistanceUnit, value: u64) -> (d: Distance)
        ensures
            d.unit_spec() == unit,
            d.value_spec() == value,
            d == (match unit {
                DistanceUnit::Feet => Distance::Feet(value),
                DistanceUnit::Inches => Distance::Inches(value),
                DistanceUnit::Meters => Distance::Meters(value),
                DistanceUnit::Centimeters => Distance::Centimeters(value),
                DistanceUnit::Yards => Distance::Yards(value),
                DistanceUnit::Millimeters => Distance::Millimeters(value),
            }),
    {
        match unit {
            DistanceUnit::Feet => Distance::Feet(value),
            DistanceUnit::Inches => Distance::Inches(value),
            DistanceUnit::Meters => Distance::Meters(value),
            DistanceUnit::Centimeters => Distance::Centimeters(value),
            DistanceUnit::Yards => Distance::Yards(value),
            DistanceUnit::Millimeters => Distance::Millimeters(value),
        }
    }

    /// The unit of this distance.
    pub fn unit(self) -> (u: DistanceUnit)
        ensures
            u == self.unit_spec(),
    {
        match self {
            Distance::Feet(_) => DistanceUnit::Feet,
            Distance::Inches(_) => DistanceUnit::Inches,
            Distance::Meters(_) => DistanceUnit::Meters,
            Distance::Centimeters(_) => DistanceUnit::Centimeters,
            Distance::Yards(_) => DistanceUnit::Yards,
            Distance::Millimeters(_) => DistanceUnit::Millimeters,
        }
    }

    /// The magnitude of this distance (its bit pattern), in its own unit.
    pub fn value(self) -> (v: u64)
        ensures
            v == self.value_spec(),
            self matches Distance::Feet(x) ==> v == x,
            self matches Distance::Inches(x) ==> v == x,
            self matches Distance::Meters(x) ==> v == x,
            self matches Distance::Centimeters(x) ==> v == x,
            self matches Distance::Yards(x) ==> v == x,
            self matches Distance::Millimeters(x) ==> v == x,
    {
        match self {
            Distance::Feet(v)
            | Distance::Inches(v)
            | Distance::Meters(v)
            | Distance::Centimeters(v)
            | Distance::Yards(v)
            | Distance::Millimeters(v) => v,
        }
    }

    /// The suffix that tags this distance on the wire.
    pub fn unit_suffix(self) -> (s: &'static str)
        ensures
            s@ == self.unit_spec().suffix_spec(),
    {
        self.unit().suffix()
    }

    /// Splits a distance text into its unit and its number text, as
    /// [`split_distance`] says; `None` when no unit suffix ends the text.
    pub fn split_unit(s: &str) -> (parts: Option<(DistanceUnit, &str)>)
        ensures
            parts is None <==> split_distance(s@) is None,
            parts matches Some((u, n)) ==> split_distance(s@) == Some((u, n@)),
    {
        let t = trim(s);
        if let Some(n) = try_distance_unit(t, DistanceUnit::Millimeters) {
            return Some((DistanceUnit::Millimeters, n));
        }
        if let Some(n) = try_distance_unit(t, DistanceUnit::Centimeters) {
            return Some((DistanceUnit::Centimeters, n));
        }
        if let Some(n) = try_distance_unit(t, DistanceUnit::Feet) {
            return Some((DistanceUnit::Feet, n));
        }
        if let Some(n) = try_distance_unit(t, DistanceUnit::Inches) {
            return Some((DistanceUnit::Inches, n));
        }
        if let Some(n) = try_distance_unit(t, DistanceUnit::Yards) {
            return Some((DistanceUnit::Yards, n));
        }
        if let Some(n) = try_distance_unit(t, DistanceUnit::Meters) {
            return Some((DistanceUnit::Meters, n));
        }
        None
    }
}

impl Velocity {
    /// The unit of this velocity.
    pub open spec fn unit_spec(self) -> VelocityUnit {
        match self {
            Velocity::MilesPerHour(_) => VelocityUnit::MilesPerHour,
            Velocity::FeetPerSecond(_) => VelocityUnit::FeetPerSecond,
            Velocity::MetersPerSecond(_) => VelocityUnit::MetersPerSecond,
            Velocity::KilometersPerHour(_) => VelocityUnit::KilometersPerHour,
        }
    }

    /// The magnitude of this velocity, in its own unit.
    pub open spec fn value_spec(self) -> u64 {
        match self {
            Velocity::MilesPerHour(v) => v,
            Velocity::FeetPerSecond(v) => v,
            Velocity::MetersPerSecond(v) => v,
            Velocity::KilometersPerHour(v) => v,
        }
    }

    /// The velocity of magnitude `value` in `unit`.
    pub fn new(unit: VelocityUnit, value: u64) -> (v: Velocity)
        ensures
            v.unit_spec() == unit,
            v.value_spec() == value,
            v == (match unit {
                VelocityUnit::MilesPerHour => Velocity::MilesPerHour(value),
                VelocityUnit::FeetPerSecond => Velocity::FeetPerSecond(value),
                VelocityUnit::MetersPerSecond => Velocity::MetersPerSecond(value),
                VelocityUnit::KilometersPerHour => Velocity::KilometersPerHour(value),
            }),
    {
        match unit {
            VelocityUnit::MilesPerHour => Velocity::MilesPerHour(value),
            VelocityUnit::FeetPerSecond => Velocity::FeetPerSecond(value),
            VelocityUnit::MetersPerSecond => Velocity::MetersPerSecond(value),
            VelocityUnit::KilometersPerHour => Velocity::KilometersPerHour(value),
        }
    }

    /// The unit of this velocity.
    pub fn unit(self) -> (u: VelocityUnit)
        ensures
            u == self.unit_spec(),
    {
        match self {
            Velocity::MilesPerHour(_) => VelocityUnit::MilesPerHour,
            Velocity::FeetPerSecond(_) => VelocityUnit::FeetPerSecond,
            Velocity::MetersPerSecond(_) => VelocityUnit::MetersPerSecond,
            Velocity::KilometersPerHour(_) => VelocityUnit::KilometersPerHour,
        }
    }

    /// The magnitude of this velocity (its bit pattern), in its own unit.
    pub fn value(self) -> (v: u64)
        ensures
            v == self.value_spec(),
            self matches Velocity::MilesPerHour(x) ==> v == x,
            self matches Velocity::FeetPerSecond(x) ==> v == x,
            self matches Velocity::MetersPerSecond(x) ==> v == x,
            self matches Velocity::KilometersPerHour(x) ==> v == x,
    {
        match self {
            Velocity::MilesPerHour(v)
            | Velocity::FeetPerSecond(v)
            | Velocity::MetersPerSecond(v)
            | Velocity::KilometersPerHour(v) => v,
        }
    }

    /// The suffix that tags this velocity on the wire.
    pub fn unit_suffix(self) -> (s: &'static str)
        ensures
            s@ == self.unit_spec().suffix_spec(),
    {
        self.unit().suffix()
    }

    /// Splits a velocity text into its unit and its number text, as
    /// [`split_velocity`] says; `None` when no unit suffix ends the text.
    pub fn split_unit(s: &str) -> (parts: Option<(VelocityUnit, &str)>)
        ensures
            parts is None <==> split_velocity(s@) is None,
            parts matches Some((u, n)) ==> split_velocity(s@) == Some((u, n@)),
    {
        let t = trim(s);
        if let Some(n) = try_velocity_unit(t, VelocityUnit::MilesPerHour) {
            return Some((VelocityUnit::MilesPerHour, n));
        }
        if let Some(n) = try_velocity_unit(t, VelocityUnit::MetersPerSecond) {
            return Some((VelocityUnit::MetersPerSecond, n));
        }
        if let Some(n) = try_velocity_unit(t, VelocityUnit::KilometersPerHour) {
            return Some((VelocityUnit::KilometersPerHour, n));
        }
        if let Some(n) = try_velocity_unit(t, VelocityUnit::FeetPerSecond) {
            return Some((VelocityUnit::FeetPerSecond, n));
        }
        None
    }
}

} // verus!
