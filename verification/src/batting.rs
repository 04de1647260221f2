use vstd::prelude::*;

verus! {

/// Balls and strikes before a pitch, e.g. `C21` for two balls and one strike.
#[derive(Clone, Copy, PartialEq, Eq, Structural, Debug, Hash)]
pub enum CountStatus {
    C00,
    C10,
    C20,
    C30,
    C01,
    C11,
    C21,
    C31,
    C02,
    C12,
    C22,
    C32,
}

pub open spec fn spec_count_status(ball: u8, strike: u8) -> CountStatus {
    if strike == 0 {
        if ball == 0 { CountStatus::C00 } else if ball == 1 { CountStatus::C10 } else if ball == 2 { CountStatus::C20 } else { CountStatus::C30 }
    } else if strike == 1 {
        if ball == 0 { CountStatus::C01 } else if ball == 1 { CountStatus::C11 } else if ball == 2 { CountStatus::C21 } else { CountStatus::C31 }
    } else {
        if ball == 0 { CountStatus::C02 } else if ball == 1 { CountStatus::C12 } else if ball == 2 { CountStatus::C22 } else { CountStatus::C32 }
    }
}

impl CountStatus {
    pub open spec fn balls(self) -> int {
        match self {
            CountStatus::C00 | CountStatus::C01 | CountStatus::C02 => 0,
            CountStatus::C10 | CountStatus::C11 | CountStatus::C12 => 1,
            CountStatus::C20 | CountStatus::C21 | CountStatus::C22 => 2,
            CountStatus::C30 | CountStatus::C31 | CountStatus::C32 => 3,
        }
    }

    pub open spec fn strikes(self) -> int {
        match self {
            CountStatus::C00 | CountStatus::C10 | CountStatus::C20 | CountStatus::C30 => 0,
            CountStatus::C01 | CountStatus::C11 | CountStatus::C21 | CountStatus::C31 => 1,
            CountStatus::C02 | CountStatus::C12 | CountStatus::C22 | CountStatus::C32 => 2,
        }
    }

    /// Two strikes on the batter.
    pub fn is_strike_two(&self) -> (b: bool)
        ensures
            b == (self.strikes() == 2),
    {
        match self {
            CountStatus::C02 | CountStatus::C12 | CountStatus::C22 | CountStatus::C32 => true,
            _ => false,
        }
    }
}

/// How a batter approaches a plate appearance.
#[derive(Clone, Copy, PartialEq, Eq, Structural, Debug)]
pub enum PlateApproach {
    Aggressive,
    Patient,
    Take,
}

/// What a pitch came to for the batter.
#[derive(Clone, Copy, PartialEq, Eq, Structural, Debug)]
pub enum PitchOutcome {
    InPlay,
    Foul,
    StrikeSwung,
    StrikeLooking,
    Ball,
}

/// How bat met ball.
#[derive(Clone, Copy, PartialEq, Eq, Structural, Debug)]
pub enum SwingContactType {
    SolidContact,
    WeakContact,
    FoulTip,
    SwungAndMiss,
    Take,
}

} // verus!
