//! The bodies of the simulation and the constants it runs on.
//!
//! Every quantity is written as a whole number of a stated unit, so that the
//! table says exactly what the bodies start from.

use vstd::prelude::*;

verus! {

/// One astronomical unit, in metres.
pub const AU: u64 = 149_600_000_000;

/// The digits of the gravitational constant: it is `GRAVITY_DIGITS` times
/// ten to the power `GRAVITY_EXPONENT`, in SI units.
pub const GRAVITY_DIGITS: u64 = 667_428;

/// The power of ten that goes with `GRAVITY_DIGITS`.
pub const GRAVITY_EXPONENT: i32 = -16;

/// The time one tick advances the bodies by, in seconds: one day.
pub const TIMESTEP: u64 = 86_400;

/// The number of screen units that one astronomical unit is drawn as.
pub const SCREEN_UNITS_PER_AU: u32 = 250;

/// The diameter the star is drawn with, in screen units.
pub const SUN_DIAMETER: u32 = 75;

/// The number of bodies in the table.
pub const BODY_COUNT: usize = 9;

/// The colour a body is drawn in.
#[derive(Clone, Copy, Debug, PartialEq, Eq, Structural)]
pub enum BodyColor {
    Yellow,
    Red,
    Beige,
    Blue,
    OrangeRed,
    Green,
    Cyan,
    White,
}

/// What one body starts from.  All bodies start on the x axis, moving along
/// the y axis.
#[derive(Clone, Copy, Debug, PartialEq, Eq, Structural)]
pub struct BodySeed {
    /// The mass is `mass_digits` times ten to the power `mass_exponent`, in
    /// kilograms.
    pub mass_digits: u64,
    /// The power of ten that goes with `mass_digits`.
    pub mass_exponent: u32,
    /// The x coordinate, in thousandths of an astronomical unit.
    pub position: i64,
    /// The speed along y, in metres per second.
    pub velocity: u32,
    /// The radius, in the unit in which the star's radius is `SUN_RADIUS`.
    pub radius: u32,
    /// The colour the body is drawn in.
    pub color: BodyColor,
}

/// The radius of the star, in the unit of `BodySeed::radius`.
pub const SUN_RADIUS: u32 = 69_634;

/// The table of bodies: the star first, then the planets outwards.
pub open spec fn body_table() -> Seq<BodySeed> {
    seq![
        BodySeed {
            mass_digits: 198_892,
            mass_exponent: 25,
            position: 0,
            velocity: 0,
            radius: SUN_RADIUS,
            color: BodyColor::Yellow,
        },
        BodySeed {
            mass_digits: 33,
            mass_exponent: 22,
            position: 387,
            velocity: 47_400,
            radius: 2_440,
            color: BodyColor::Red,
        },
        BodySeed {
            mass_digits: 487,
            mass_exponent: 22,
            position: 720,
            velocity: 35_000,
            radius: 6_052,
            color: BodyColor::Beige,
        },
        BodySeed {
            mass_digits: 59_742,
            mass_exponent: 20,
            position: -1_000i64,
            velocity: 29_783,
            radius: 6_371,
            color: BodyColor::Blue,
        },
        BodySeed {
            mass_digits: 639,
            mass_exponent: 21,
            position: -1_524i64,
            velocity: 24_077,
            radius: 3_390,
            color: BodyColor::OrangeRed,
        },
        BodySeed {
            mass_digits: 1_898,
            mass_exponent: 24,
            position: 5_200,
            velocity: 13_100,
            radius: 69_911,
            color: BodyColor::Green,
        },
        BodySeed {
            mass_digits: 568,
            mass_exponent: 24,
            position: 9_540,
            velocity: 9_700,
            radius: 58_232,
            color: BodyColor::Beige,
        },
        BodySeed {
            mass_digits: 868,
            mass_exponent: 23,
            position: 19_200,
            velocity: 6_800,
            radius: 25_362,
            color: BodyColor::Cyan,
        },
        BodySeed {
            mass_digits: 102,
            mass_exponent: 24,
            position: 30_060,
            velocity: 4_700,
            radius: 24_622,
            color: BodyColor::White,
        },
    ]
}

fn seed(
    mass_digits: u64,
    mass_exponent: u32,
    position: i64,
    velocity: u32,
    radius: u32,
    color: BodyColor,
) -> (body: BodySeed)
    ensures
        body == (BodySeed { mass_digits, mass_exponent, position, velocity, radius, color }),
{
    BodySeed { mass_digits, mass_exponent, position, velocity, radius, color }
}

/// The bodies to spawn, in registry order.
pub fn spawn_planets() -> (bodies: Vec<BodySeed>)
    ensures
        bodies@ == body_table(),
{
    let mut bodies: Vec<BodySeed> = Vec::with_capacity(BODY_COUNT);
    bodies.push(seed(198_892, 25, 0, 0, SUN_RADIUS, BodyColor::Yellow));
    bodies.push(seed(33, 22, 387, 47_400, 2_440, BodyColor::Red));
    bodies.push(seed(487, 22, 720, 35_000, 6_052, BodyColor::Beige));
    bodies.push(seed(59_742, 20, -1_000, 29_783, 6_371, BodyColor::Blue));
    bodies.push(seed(639, 21, -1_524, 24_077, 3_390, BodyColor::OrangeRed));
    bodies.push(seed(1_898, 24, 5_200, 13_100, 69_911, BodyColor::Green));
    bodies.push(seed(568, 24, 9_540, 9_700, 58_232, BodyColor::Beige));
    bodies.push(seed(868, 23, 19_200, 6_800, 25_362, BodyColor::Cyan));
    bodies.push(seed(102, 24, 30_060, 4_700, 24_622, BodyColor::White));
    assert(bodies@ =~= body_table());
    bodies
}

/// The table holds `BODY_COUNT` bodies.  The first is the star, at rest at
/// the origin; every other body is a planet off the origin, moving across the
/// line that joins it to the star.  Every body has a mass and a size.
pub proof fn lemma_table_shape()
    ensures
        body_table().len() == BODY_COUNT,
        body_table()[0].position == 0,
        body_table()[0].velocity == 0,
        forall|i: int|
            0 <= i < body_table().len() ==> (#[trigger] body_table()[i]).mass_digits > 0
                && body_table()[i].radius > 0,
        forall|i: int|
            1 <= i < body_table().len() ==> (#[trigger] body_table()[i]).position != 0
                && body_table()[i].velocity > 0,
{
    let table = body_table();
    assert forall|i: int| 0 <= i < table.len() implies (#[trigger] table[i]).mass_digits > 0
        && table[i].radius > 0 && (i >= 1 ==> table[i].position != 0 && table[i].velocity > 0) by {
        if i == 0 {
        } else if i == 1 {
        } else if i == 2 {
        } else if i == 3 {
        } else if i == 4 {
        } else if i == 5 {
        } else if i == 6 {
        } else if i == 7 {
        } else {
            assert(i == 8);
        }
    }
}

} // verus!
