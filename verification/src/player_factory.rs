use vstd::prelude::*;
use crate::player::{FielderType, Position, spec_fielder_type_for_position};
use crate::random_provider::RandomProvider;

verus! {

/// Draws for a weighted choice range over hundredths: `1..=POSITION_DRAW_MAX`.
pub const POSITION_DRAW_MAX: usize = 100;

/// The position a new player of fielder type `t` is given for a draw from
/// `1..=POSITION_DRAW_MAX`, the weights in hundredths: an outfielder plays right,
/// center or left field (32 each) or is the designated hitter (4); a middle infielder
/// plays shortstop (48) or second base (52); a corner infielder plays first base (50),
/// third base (40) or is the designated hitter (10); pitchers pitch and catchers catch.
pub open spec fn spec_position_for_draw(t: FielderType, draw: int) -> Position {
    match t {
        FielderType::Outfielder => if draw <= 32 {
            Position::RF
        } else if draw <= 64 {
            Position::CF
        } else if draw <= 96 {
            Position::LF
        } else {
            Position::DH
        },
        FielderType::MiddleInfielder => if draw <= 48 {
            Position::SS
        } else {
            Position::SB
        },
        FielderType::CornerInfielder => if draw <= 50 {
            Position::FB
        } else if draw <= 90 {
            Position::TB
        } else {
            Position::DH
        },
        FielderType::Pitcher => Position::P,
        FielderType::Catcher => Position::C,
    }
}

/// The position for fielder type `t` and draw `draw`, as `spec_position_for_draw` gives it.
pub fn position_for_draw(t: FielderType, draw: usize) -> (p: Position)
    ensures
        p == spec_position_for_draw(t, draw as int),
{
    match t {
        FielderType::Outfielder => if draw <= 32 {
            Position::RF
        } else if draw <= 64 {
            Position::CF
        } else if draw <= 96 {
            Position::LF
        } else {
            Position::DH
        },
        FielderType::MiddleInfielder => if draw <= 48 {
            Position::SS
        } else {
            Position::SB
        },
        FielderType::CornerInfielder => if draw <= 50 {
            Position::FB
        } else if draw <= 90 {
            Position::TB
        } else {
            Position::DH
        },
        FielderType::Pitcher => Position::P,
        FielderType::Catcher => Position::C,
    }
}

/// The position of a new player of fielder type `t`: drawn by weight for outfielders
/// and infielders, fixed for pitchers and catchers, which take no draw. The position
/// is one that the fielder type plays, or the designated hitter.
pub fn assign_position<R: RandomProvider>(rng: &mut R, t: FielderType) -> (p: Position)
    ensures
        exists|d: int| 1 <= d <= POSITION_DRAW_MAX && p == spec_position_for_draw(t, d),
        p == Position::DH || spec_fielder_type_for_position(p) == t,
        t == FielderType::Pitcher || t == FielderType::Catcher ==> final(rng).draws() == old(
            rng,
        ).draws(),
        t != FielderType::Pitcher && t != FielderType::Catcher ==> {
            let d = final(rng).draws().last().2;
            &&& final(rng).draws() == old(rng).draws().push((1, POSITION_DRAW_MAX, d))
            &&& p == spec_position_for_draw(t, d as int)
        },
{
    match t {
        FielderType::Pitcher => {
            assert(Position::P == spec_position_for_draw(t, 1));
            Position::P
        },
        FielderType::Catcher => {
            assert(Position::C == spec_position_for_draw(t, 1));
            Position::C
        },
        _ => {
            let draw = rng.gen_range(1, POSITION_DRAW_MAX);
            position_for_draw(t, draw)
        },
    }
}

} // verus!
