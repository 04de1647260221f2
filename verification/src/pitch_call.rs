use vstd::prelude::*;
use crate::ball::QuarterZone;
use crate::player::PitchType;

verus! {

/// How far inside or outside the target the pitcher aims.
#[derive(Clone, Copy, PartialEq, Eq, Structural, Debug, Hash)]
pub enum Margin {
    Wide,
    Edge,
    Out,
}

impl Margin {
    /// The divisor of the target's size that places the aim: a negative one aims outside it.
    pub fn factor(&self) -> (f: i8)
        ensures
            f == match *self {
                Margin::Wide => 3i8,
                Margin::Edge => 4i8,
                Margin::Out => -5i8,
            },
    {
        match self {
            Margin::Wide => 3,
            Margin::Edge => 4,
            Margin::Out => -5,
        }
    }
}

/// The part of the strike zone a pitch is aimed at.
#[derive(Clone, Copy, PartialEq, Eq, Structural, Debug, Hash)]
pub enum TargetLocation {
    Center,
    LowInside,
    LowOutside,
    HighInside,
    HighOutside,
}

pub open spec fn spec_location_zone(t: TargetLocation) -> QuarterZone {
    match t {
        TargetLocation::Center => QuarterZone { x1: -1i8, y1: 1i8, x2: 1i8, y2: -1i8 },
        TargetLocation::LowInside => QuarterZone { x1: -4i8, y1: 0i8, x2: 0i8, y2: -4i8 },
        TargetLocation::LowOutside => QuarterZone { x1: 0i8, y1: 0i8, x2: 4i8, y2: -4i8 },
        TargetLocation::HighInside => QuarterZone { x1: -4i8, y1: 4i8, x2: 0i8, y2: 0i8 },
        TargetLocation::HighOutside => QuarterZone { x1: 0i8, y1: 4i8, x2: 4i8, y2: 0i8 },
    }
}

impl TargetLocation {
    /// The rectangle of the strike zone: the central quarter, or one of the four quadrants.
    pub fn zone(self) -> (z: QuarterZone)
        ensures
            z == spec_location_zone(self),
    {
        match self {
            TargetLocation::Center => QuarterZone { x1: -1, y1: 1, x2: 1, y2: -1 },
            TargetLocation::LowInside => QuarterZone { x1: -4, y1: 0, x2: 0, y2: -4 },
            TargetLocation::LowOutside => QuarterZone { x1: 0, y1: 0, x2: 4, y2: -4 },
            TargetLocation::HighInside => QuarterZone { x1: -4, y1: 4, x2: 0, y2: 0 },
            TargetLocation::HighOutside => QuarterZone { x1: 0, y1: 4, x2: 4, y2: 0 },
        }
    }
}

/// The catcher's call: pitch, target and margin.
#[derive(Clone, Copy, PartialEq, Eq, Structural, Debug, Hash)]
pub struct PitchCall {
    pub pitch_type: PitchType,
    pub target_location: TargetLocation,
    pub margin: Margin,
}

} // verus!
