use vstd::prelude::*;

verus! {

/// Where a batted ball left the field of play, if it did.
#[derive(Clone, Copy, PartialEq, Eq, Structural, Debug)]
pub enum OutboundResult {
    InField,
    HomeRun,
    GroundRuleDouble,
    Foul,
}

/// The flight of a batted ball.
#[derive(Clone, Copy, PartialEq, Eq, Structural, Debug)]
pub enum TrajectoryType {
    Grounder,
    Liner,
    Fly,
    PopUp,
    NA,
}

impl TrajectoryType {
    /// Key of the trajectory's name in the message catalogue.
    pub fn message_key(&self) -> (key: &'static str)
        ensures
            key@ == spec_trajectory_key(*self),
    {
        proof {
            reveal_strlit("grounder");
            reveal_strlit("liner");
            reveal_strlit("fly");
            reveal_strlit("popup");
            reveal_strlit("na");
        }
        match self {
            TrajectoryType::Grounder => "grounder",
            TrajectoryType::Liner => "liner",
            TrajectoryType::Fly => "fly",
            TrajectoryType::PopUp => "popup",
            TrajectoryType::NA => "na",
        }
    }
}

pub open spec fn spec_trajectory_key(t: TrajectoryType) -> Seq<char> {
    match t {
        TrajectoryType::Grounder => "grounder"@,
        TrajectoryType::Liner => "liner"@,
        TrajectoryType::Fly => "fly"@,
        TrajectoryType::PopUp => "popup"@,
        TrajectoryType::NA => "na"@,
    }
}

/// A rectangle of the strike zone, corners in quarters of the zone's half width and half
/// height from its center: (x1, y1) the upper left, (x2, y2) the lower right.
#[derive(Clone, Copy, PartialEq, Eq, Structural, Debug)]
pub struct QuarterZone {
    pub x1: i8,
    pub y1: i8,
    pub x2: i8,
    pub y2: i8,
}

impl QuarterZone {
    pub fn width(&self) -> (w: u8)
        requires
            -8 <= self.x1 <= 8,
            -8 <= self.x2 <= 8,
        ensures
            w == if self.x1 >= self.x2 {
                self.x1 - self.x2
            } else {
                self.x2 - self.x1
            },
    {
        if self.x1 >= self.x2 {
            (self.x1 - self.x2) as u8
        } else {
            (self.x2 - self.x1) as u8
        }
    }

    pub fn height(&self) -> (h: u8)
        requires
            -8 <= self.y1 <= 8,
            -8 <= self.y2 <= 8,
        ensures
            h == if self.y1 >= self.y2 {
                self.y1 - self.y2
            } else {
                self.y2 - self.y1
            },
    {
        if self.y1 >= self.y2 {
            (self.y1 - self.y2) as u8
        } else {
            (self.y2 - self.y1) as u8
        }
    }
}

} // verus!
