use vstd::prelude::*;
use crate::ball::QuarterZone;
use crate::player::PitchType;

verus! {

/// How far inside or outside the target the pitcher aims.
#[derive(Clone, Copy, PartialEq, Eq, Structural, Debug, Hash)]
pub enum Margin {
    Wide,
    Edge,
    Out,
}

impl Margin {
    /// The divisor of the target's size that places the aim: a negative one aims outside it.
    pub fn factor(&self) -> (f: i8)
        ensures
            f == match *self {
                Margin::Wide => 3i8,
                Margin::Edge => 4i8,
                Margin::Out => -5i8,
            },
    {
        match self {
            Margin::Wide => 3,
            Margin::Edge => 4,
            Margin::Out => -5,
        }
    }
}

/// The part of the strike zone a pitch is aimed at.
#[derive(Clone, Copy, PartialEq, Eq, Structural, Debug, Hash)]
pub enum TargetZone {
    Center,
    LowInside,
    LowOutside,
    HighInside,
    HighOutside,
}

pub open spec fn spec_target_zone(t: TargetZone) -> QuarterZone {
    match t {
        TargetZone::Center => QuarterZone { x1: -1i8, y1: 1i8, x2: 1i8, y2: -1i8 },
        TargetZone::LowInside => QuarterZone { x1: -4i8, y1: 0i8, x2: 0i8, y2: -4i8 },
        TargetZone::LowOutside => QuarterZone { x1: 0i8, y1: 0i8, x2: 4i8, y2: -4i8 },
        TargetZone::HighInside => QuarterZone { x1: -4i8, y1: 4i8, x2: 0i8, y2: 0i8 },
        TargetZone::HighOutside => QuarterZone { x1: 0i8, y1: 4i8, x2: 4i8, y2: 0i8 },
    }
}

impl TargetZone {
    /// The rectangle of the strike zone: the central quarter, or one of the four quadrants.
    pub fn zone(self) -> (z: QuarterZone)
        ensures
            z == spec_target_zone(self),
    {
        match self {
            TargetZone::Center => QuarterZone { x1: -1, y1: 1, x2: 1, y2: -1 },
            TargetZone::LowInside => QuarterZone { x1: -4, y1: 0, x2: 0, y2: -4 },
            TargetZone::LowOutside => QuarterZone { x1: 0, y1: 0, x2: 4, y2: -4 },
            TargetZone::HighInside => QuarterZone { x1: -4, y1: 4, x2: 0, y2: 0 },
            TargetZone::HighOutside => QuarterZone { x1: 0, y1: 4, x2: 4, y2: 0 },
        }
    }
}

/// The catcher's call: pitch, target zone and margin.
#[derive(Clone, Copy, PartialEq, Eq, Structural, Debug, Hash)]
pub struct PitchCall {
    pub pitch_type: PitchType,
    pub target_zone: TargetZone,
    pub margin: Margin,
}

} // verus!
