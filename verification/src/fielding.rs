use vstd::prelude::*;
use crate::player::{Position, RL};
use crate::stadium::Base;

verus! {

/// How the defence tries to retire a runner.
#[derive(Clone, Copy, PartialEq, Eq, Structural, Debug)]
pub enum PlayType {
    ForcePlay,
    TouchPlay,
    CatchPlay,
    ThrowPlay,
    CutOffPlay,
}

/// How much risk a fielding side takes on its throws.
#[derive(Clone, Copy, PartialEq, Eq, Structural, Debug)]
pub enum FielderRiskTolerance {
    Conservative,
    Balanced,
    Aggressive,
}

/// Where the defence threw a ball in play and who took the throw.
#[derive(Clone, Copy, PartialEq, Eq, Structural, Debug)]
pub struct DefensePlayResult {
    pub throw_target_base: Base,
    pub play_type: PlayType,
    pub final_fielder_id: i64,
    pub final_fielder_position: Position,
    pub cutoff_fielder_id: Option<i64>,
    pub cutoff_fielder_position: Option<Position>,
}

/// The second throw of a double play.
#[derive(Clone, Copy, PartialEq, Eq, Structural, Debug)]
pub struct DoublePlayDefensePlayResult {
    pub throw_target_base: Base,
    pub thrower_fielder_id: i64,
    pub thrower_fielder_position: Position,
    pub final_fielder_id: i64,
    pub final_fielder_position: Position,
}

/// The catcher's throw on a stolen base attempt.
#[derive(Clone, Copy, PartialEq, Eq, Structural, Debug)]
pub struct StealDefensePlayResult {
    pub throw_target_base: Base,
    pub final_fielder_position: Position,
}

/// A fielder's mistake on a ball.
#[derive(Clone, Copy, PartialEq, Eq, Structural, Debug)]
pub enum FieldError {
    /// The ball is bobbled: it is fielded, later.
    Fumble,
    /// The ball gets by: another fielder has to back up the play.
    Passed,
}

/// How a fielder took the ball.
#[derive(Clone, Copy, PartialEq, Eq, Structural, Debug)]
pub enum CatchType {
    DirectFly,
    BounceCatch,
    FinalPickup,
    Fumble,
}

/// The handedness of the pitcher and of the batter.
#[derive(Clone, Copy, PartialEq, Eq, Structural, Debug)]
pub struct MatchupContext {
    pub throw_side: RL,
    pub batting_side: RL,
}

impl PlayType {
    /// Key of the name in the message catalogue.
    pub fn message_key(&self) -> (key: &'static str)
        ensures
            key@ == spec_play_type_key(*self),
    {
        proof {
            reveal_strlit("force_play");
            reveal_strlit("touch_play");
            reveal_strlit("catch_play");
            reveal_strlit("throw_play");
            reveal_strlit("cutoff_play");
        }
        match self {
            PlayType::ForcePlay => "force_play",
            PlayType::TouchPlay => "touch_play",
            PlayType::CatchPlay => "catch_play",
            PlayType::ThrowPlay => "throw_play",
            PlayType::CutOffPlay => "cutoff_play",
        }
    }
}

pub open spec fn spec_play_type_key(v: PlayType) -> Seq<char> {
    match v {
        PlayType::ForcePlay => "force_play"@,
        PlayType::TouchPlay => "touch_play"@,
        PlayType::CatchPlay => "catch_play"@,
        PlayType::ThrowPlay => "throw_play"@,
        PlayType::CutOffPlay => "cutoff_play"@,
    }
}

} // verus!
