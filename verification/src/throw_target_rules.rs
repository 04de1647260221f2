use vstd::prelude::*;
use crate::fielding::{DefensePlayResult, DoublePlayDefensePlayResult, PlayType};
use crate::game_state::GameError;
use crate::player::spec_position_key;
use crate::team::ActiveFielder;
use crate::player::Position;
use crate::running::RunnersOnBase;
use crate::stadium::Base;
use crate::random_provider::RandomProvider;

verus! {

/// Who covers a base, fixed or decided by where the ball was fielded.
#[derive(Clone, Copy, PartialEq, Eq, Structural, Debug)]
pub enum CoverAssignment {
    Fixed(Position),
    /// The shortstop or the second baseman, by a weighted draw.
    MiddleInfieldRandom,
    /// The second baseman when the shortstop fielded the ball, and the other way round;
    /// otherwise a draw as above.
    OppositeMiddleInfielder,
    /// The pitcher when the first baseman fielded the ball; otherwise the first baseman.
    OppositeFirstInfielder,
    /// The cutoff man on a throw from the outfield: the second baseman from right field,
    /// otherwise the shortstop.
    CutoffByOutfieldSide,
    /// The man taking the throw from the outfield: the shortstop from right field,
    /// otherwise the second baseman.
    FinalFielderByOutfieldSide,
}

/// Where to throw and who is to take the throw, before the covering fielders are named.
#[derive(Clone, Copy, PartialEq, Eq, Structural, Debug)]
pub struct ThrowTargetPlan {
    pub base: Base,
    pub play_type: PlayType,
    pub final_fielder_position: CoverAssignment,
    pub cutoff_fielder_position: Option<CoverAssignment>,
}

/// Where to throw and who takes the throw.
#[derive(Clone, Copy, PartialEq, Eq, Structural, Debug)]
pub struct ThrowTarget {
    pub base: Base,
    pub play_type: PlayType,
    pub final_fielder_position: Position,
    pub cutoff_fielder_position: Option<Position>,
}

/// The second throw of a double play, before the fielders are named.
#[derive(Clone, Copy, PartialEq, Eq, Structural, Debug)]
pub struct MultiPlayThrowTargetPlan {
    pub from_base: Base,
    pub to_base: Base,
    pub thrower_fielder_position: CoverAssignment,
    pub final_fielder_position: CoverAssignment,
}

/// The second throw of a double play: always a force play.
#[derive(Clone, Copy, PartialEq, Eq, Structural, Debug)]
pub struct MultiPlayThrowTarget {
    pub from_base: Base,
    pub to_base: Base,
    pub thrower_fielder_position: Position,
    pub final_fielder_position: Position,
}

/// What the throw rules read of a fielded ball: the runners, who fielded it, and how the
/// ball's distance and fielding time compare with the rules' thresholds.
#[derive(Clone, Copy, PartialEq, Eq, Structural, Debug)]
pub struct PlayContext {
    pub runners: RunnersOnBase,
    pub try_catch_position: Position,
    /// Fielded within the shallow-infield distance.
    pub shallow_infield: bool,
    /// Fielded within the distance from which a relay can still catch a runner from third.
    pub within_cutoff_for_third: bool,
    /// Fielded within the distance from which a relay can still catch a runner from first.
    pub within_cutoff_for_first: bool,
    /// Fielded within the time that leaves room for a relay.
    pub fielded_in_time: bool,
    /// Fielded at or beyond the deep-outfield distance.
    pub deep_outfield: bool,
}

/// The rule tables: one for ground balls, one for hits to the outfield, one for tag-ups.
#[derive(Clone, Copy, PartialEq, Eq, Structural, Debug)]
pub enum ThrowRules {
    InfieldGrounder,
    OutfieldHit,
    Tagup,
}

pub open spec fn plan(
    base: Base,
    play_type: PlayType,
    final_fielder: CoverAssignment,
    cutoff: Option<CoverAssignment>,
) -> ThrowTargetPlan {
    ThrowTargetPlan {
        base,
        play_type,
        final_fielder_position: final_fielder,
        cutoff_fielder_position: cutoff,
    }
}

/// The ground-ball rules, first match wins: bases loaded, force at home; runner on third
/// and a shallow ball, tag at home; first and second and the ball to the left side, force
/// at third; runner on first, a shallow ball to the pitcher, catcher or a corner, force at
/// first; runner on first and the ball up the middle, force at second; else first.
pub open spec fn spec_infield_grounder_target(ctx: PlayContext) -> ThrowTargetPlan {
    let r = ctx.runners;
    let pos = ctx.try_catch_position;
    if r.runner_1st is Some && r.runner_2nd is Some && r.runner_3rd is Some {
        plan(Base::Home, PlayType::ForcePlay, CoverAssignment::Fixed(Position::C), None)
    } else if r.runner_3rd is Some && ctx.shallow_infield {
        plan(Base::Home, PlayType::TouchPlay, CoverAssignment::Fixed(Position::C), None)
    } else if r.runner_1st is Some && r.runner_2nd is Some && (pos == Position::TB || pos == Position::SS) {
        plan(Base::Third, PlayType::ForcePlay, CoverAssignment::Fixed(Position::TB), None)
    } else if r.runner_1st is Some && ctx.shallow_infield && (pos == Position::P || pos == Position::C
        || pos == Position::FB || pos == Position::TB) {
        plan(Base::First, PlayType::ForcePlay, CoverAssignment::OppositeFirstInfielder, None)
    } else if r.runner_1st is Some && (pos == Position::SB || pos == Position::SS || pos == Position::P) {
        plan(Base::Second, PlayType::ForcePlay, CoverAssignment::OppositeMiddleInfielder, None)
    } else {
        plan(Base::First, PlayType::ForcePlay, CoverAssignment::Fixed(Position::FB), None)
    }
}

/// The outfield-hit rules, first match wins: runner on third and a ball fielded near and
/// quickly, relay home; runner on first and a ball within reach, relay to third; a deep
/// ball, relay to second; else straight to second.
pub open spec fn spec_outfield_hit_target(ctx: PlayContext) -> ThrowTargetPlan {
    let r = ctx.runners;
    if r.runner_3rd is Some && ctx.within_cutoff_for_third && ctx.fielded_in_time {
        plan(
            Base::Home,
            PlayType::TouchPlay,
            CoverAssignment::Fixed(Position::C),
            Some(CoverAssignment::CutoffByOutfieldSide),
        )
    } else if r.runner_1st is Some && ctx.within_cutoff_for_first {
        plan(
            Base::Third,
            PlayType::TouchPlay,
            CoverAssignment::Fixed(Position::TB),
            Some(CoverAssignment::MiddleInfieldRandom),
        )
    } else if ctx.deep_outfield {
        plan(
            Base::Second,
            PlayType::TouchPlay,
            CoverAssignment::FinalFielderByOutfieldSide,
            Some(CoverAssignment::CutoffByOutfieldSide),
        )
    } else {
        plan(Base::Second, PlayType::TouchPlay, CoverAssignment::MiddleInfieldRandom, None)
    }
}

/// The tag-up rules, first match wins: runner on third and the fly not too deep, relay
/// home; runner on second and the fly to center or right, relay to third; else second.
pub open spec fn spec_tagup_target(ctx: PlayContext) -> ThrowTargetPlan {
    let r = ctx.runners;
    let pos = ctx.try_catch_position;
    if r.runner_3rd is Some && !ctx.deep_outfield {
        plan(
            Base::Home,
            PlayType::TouchPlay,
            CoverAssignment::Fixed(Position::C),
            Some(CoverAssignment::CutoffByOutfieldSide),
        )
    } else if r.runner_2nd is Some && (pos == Position::CF || pos == Position::RF) {
        plan(
            Base::Third,
            PlayType::TouchPlay,
            CoverAssignment::Fixed(Position::TB),
            Some(CoverAssignment::CutoffByOutfieldSide),
        )
    } else {
        plan(Base::Second, PlayType::TouchPlay, CoverAssignment::MiddleInfieldRandom, None)
    }
}

pub open spec fn spec_select_throw_target(ctx: PlayContext, rules: ThrowRules) -> ThrowTargetPlan {
    match rules {
        ThrowRules::InfieldGrounder => spec_infield_grounder_target(ctx),
        ThrowRules::OutfieldHit => spec_outfield_hit_target(ctx),
        ThrowRules::Tagup => spec_tagup_target(ctx),
    }
}

/// The plan of the first rule of the table that applies.
pub fn select_throw_target(ctx: &PlayContext, rules: ThrowRules) -> (p: ThrowTargetPlan)
    ensures
        p == spec_select_throw_target(*ctx, rules),
{
    let r = &ctx.runners;
    let pos = ctx.try_catch_position;
    match rules {
        ThrowRules::InfieldGrounder => {
            if r.is_loaded() {
                ThrowTargetPlan {
                    base: Base::Home,
                    play_type: PlayType::ForcePlay,
                    final_fielder_position: CoverAssignment::Fixed(Position::C),
                    cutoff_fielder_position: None,
                }
            } else if r.has_runner_on(Base::Third) && ctx.shallow_infield {
                ThrowTargetPlan {
                    base: Base::Home,
                    play_type: PlayType::TouchPlay,
                    final_fielder_position: CoverAssignment::Fixed(Position::C),
                    cutoff_fielder_position: None,
                }
            } else if r.has_first_and_second() && (pos == Position::TB || pos == Position::SS) {
                ThrowTargetPlan {
                    base: Base::Third,
                    play_type: PlayType::ForcePlay,
                    final_fielder_position: CoverAssignment::Fixed(Position::TB),
                    cutoff_fielder_position: None,
                }
            } else if r.has_runner_on(Base::First) && ctx.shallow_infield && (pos == Position::P
                || pos == Position::C || pos == Position::FB || pos == Position::TB) {
                ThrowTargetPlan {
                    base: Base::First,
                    play_type: PlayType::ForcePlay,
                    final_fielder_position: CoverAssignment::OppositeFirstInfielder,
                    cutoff_fielder_position: None,
                }
            } else if r.has_runner_on(Base::First) && (pos == Position::SB || pos == Position::SS
                || pos == Position::P) {
                ThrowTargetPlan {
                    base: Base::Second,
                    play_type: PlayType::ForcePlay,
                    final_fielder_position: CoverAssignment::OppositeMiddleInfielder,
                    cutoff_fielder_position: None,
                }
            } else {
                ThrowTargetPlan {
                    base: Base::First,
                    play_type: PlayType::ForcePlay,
                    final_fielder_position: CoverAssignment::Fixed(Position::FB),
                    cutoff_fielder_position: None,
                }
            }
        },
        ThrowRules::OutfieldHit => {
            if r.has_runner_on(Base::Third) && ctx.within_cutoff_for_third && ctx.fielded_in_time {
                ThrowTargetPlan {
                    base: Base::Home,
                    play_type: PlayType::TouchPlay,
                    final_fielder_position: CoverAssignment::Fixed(Position::C),
                    cutoff_fielder_position: Some(CoverAssignment::CutoffByOutfieldSide),
                }
            } else if r.has_runner_on(Base::First) && ctx.within_cutoff_for_first {
                ThrowTargetPlan {
                    base: Base::Third,
                    play_type: PlayType::TouchPlay,
                    final_fielder_position: CoverAssignment::Fixed(Position::TB),
                    cutoff_fielder_position: Some(CoverAssignment::MiddleInfieldRandom),
                }
            } else if ctx.deep_outfield {
                ThrowTargetPlan {
                    base: Base::Second,
                    play_type: PlayType::TouchPlay,
                    final_fielder_position: CoverAssignment::FinalFielderByOutfieldSide,
                    cutoff_fielder_position: Some(CoverAssignment::CutoffByOutfieldSide),
                }
            } else {
                ThrowTargetPlan {
                    base: Base::Second,
                    play_type: PlayType::TouchPlay,
                    final_fielder_position: CoverAssignment::MiddleInfieldRandom,
                    cutoff_fielder_position: None,
                }
            }
        },
        ThrowRules::Tagup => {
            if r.has_runner_on(Base::Third) && !ctx.deep_outfield {
                ThrowTargetPlan {
                    base: Base::Home,
                    play_type: PlayType::TouchPlay,
                    final_fielder_position: CoverAssignment::Fixed(Position::C),
                    cutoff_fielder_position: Some(CoverAssignment::CutoffByOutfieldSide),
                }
            } else if r.has_runner_on(Base::Second) && (pos == Position::CF || pos == Position::RF) {
                ThrowTargetPlan {
                    base: Base::Third,
                    play_type: PlayType::TouchPlay,
                    final_fielder_position: CoverAssignment::Fixed(Position::TB),
                    cutoff_fielder_position: Some(CoverAssignment::CutoffByOutfieldSide),
                }
            } else {
                ThrowTargetPlan {
                    base: Base::Second,
                    play_type: PlayType::TouchPlay,
                    final_fielder_position: CoverAssignment::MiddleInfieldRandom,
                    cutoff_fielder_position: None,
                }
            }
        },
    }
}

/// The double-play rules on the first throw, first match wins: from the first baseman at
/// first, on to second; from second or third, on to first; from home with the first
/// baseman taking it, on to third; from home otherwise, on to first; else no second throw.
pub open spec fn spec_double_play_target(ctx: DefensePlayResult) -> Option<MultiPlayThrowTargetPlan> {
    let base = ctx.throw_target_base;
    let fin = ctx.final_fielder_position;
    if base == Base::First && fin == Position::FB {
        Some(
            MultiPlayThrowTargetPlan {
                from_base: Base::First,
                to_base: Base::Second,
                thrower_fielder_position: CoverAssignment::Fixed(Position::FB),
                final_fielder_position: CoverAssignment::MiddleInfieldRandom,
            },
        )
    } else if base == Base::Second {
        Some(
            MultiPlayThrowTargetPlan {
                from_base: Base::Second,
                to_base: Base::First,
                thrower_fielder_position: CoverAssignment::Fixed(fin),
                final_fielder_position: CoverAssignment::Fixed(Position::FB),
            },
        )
    } else if base == Base::Third {
        Some(
            MultiPlayThrowTargetPlan {
                from_base: Base::Third,
                to_base: Base::First,
                thrower_fielder_position: CoverAssignment::Fixed(fin),
                final_fielder_position: CoverAssignment::Fixed(Position::FB),
            },
        )
    } else if base == Base::Home && fin == Position::FB {
        Some(
            MultiPlayThrowTargetPlan {
                from_base: Base::Home,
                to_base: Base::Third,
                thrower_fielder_position: CoverAssignment::Fixed(Position::FB),
                final_fielder_position: CoverAssignment::Fixed(Position::TB),
            },
        )
    } else if base == Base::Home {
        Some(
            MultiPlayThrowTargetPlan {
                from_base: Base::Home,
                to_base: Base::First,
                thrower_fielder_position: CoverAssignment::Fixed(fin),
                final_fielder_position: CoverAssignment::Fixed(Position::FB),
            },
        )
    } else {
        None
    }
}

/// The second throw that the double-play rules call for, if any.
pub fn select_multiplay_throw_target(ctx: &DefensePlayResult) -> (p: Option<MultiPlayThrowTargetPlan>)
    ensures
        p == spec_double_play_target(*ctx),
{
    let base = ctx.throw_target_base;
    let fin = ctx.final_fielder_position;
    if base == Base::First && fin == Position::FB {
        Some(
            MultiPlayThrowTargetPlan {
                from_base: Base::First,
                to_base: Base::Second,
                thrower_fielder_position: CoverAssignment::Fixed(Position::FB),
                final_fielder_position: CoverAssignment::MiddleInfieldRandom,
            },
        )
    } else if base == Base::Second {
        Some(
            MultiPlayThrowTargetPlan {
                from_base: Base::Second,
                to_base: Base::First,
                thrower_fielder_position: CoverAssignment::Fixed(fin),
                final_fielder_position: CoverAssignment::Fixed(Position::FB),
            },
        )
    } else if base == Base::Third {
        Some(
            MultiPlayThrowTargetPlan {
                from_base: Base::Third,
                to_base: Base::First,
                thrower_fielder_position: CoverAssignment::Fixed(fin),
                final_fielder_position: CoverAssignment::Fixed(Position::FB),
            },
        )
    } else if base == Base::Home && fin == Position::FB {
        Some(
            MultiPlayThrowTargetPlan {
                from_base: Base::Home,
                to_base: Base::Third,
                thrower_fielder_position: CoverAssignment::Fixed(Position::FB),
                final_fielder_position: CoverAssignment::Fixed(Position::TB),
            },
        )
    } else if base == Base::Home {
        Some(
            MultiPlayThrowTargetPlan {
                from_base: Base::Home,
                to_base: Base::First,
                thrower_fielder_position: CoverAssignment::Fixed(fin),
                final_fielder_position: CoverAssignment::Fixed(Position::FB),
            },
        )
    } else {
        None
    }
}

/// Whether naming the fielder for `assignment` takes a draw between the shortstop and the
/// second baseman.
pub open spec fn needs_draw(assignment: CoverAssignment, final_fielder_position: Position) -> bool {
    match assignment {
        CoverAssignment::MiddleInfieldRandom => true,
        CoverAssignment::OppositeMiddleInfielder => final_fielder_position != Position::SS
            && final_fielder_position != Position::SB,
        _ => false,
    }
}

/// The fielder named for `assignment` when the ball was fielded at
/// `final_fielder_position`, where `shortstop_covers` is the draw's outcome.
pub open spec fn spec_resolve_cover(
    assignment: CoverAssignment,
    final_fielder_position: Position,
    shortstop_covers: bool,
) -> Position {
    let drawn = if shortstop_covers {
        Position::SS
    } else {
        Position::SB
    };
    match assignment {
        CoverAssignment::Fixed(position) => position,
        CoverAssignment::MiddleInfieldRandom => drawn,
        CoverAssignment::OppositeMiddleInfielder => if final_fielder_position == Position::SS {
            Position::SB
        } else if final_fielder_position == Position::SB {
            Position::SS
        } else {
            drawn
        },
        CoverAssignment::OppositeFirstInfielder => if final_fielder_position == Position::FB {
            Position::P
        } else {
            Position::FB
        },
        CoverAssignment::CutoffByOutfieldSide => if final_fielder_position == Position::RF {
            Position::SB
        } else {
            Position::SS
        },
        CoverAssignment::FinalFielderByOutfieldSide => if final_fielder_position == Position::RF {
            Position::SS
        } else {
            Position::SB
        },
    }
}

/// The fielder named for `assignment`, given the outcome of the draw between the
/// shortstop and the second baseman (read only where `needs_draw`).
pub fn resolve_cover(
    assignment: CoverAssignment,
    final_fielder_position: Position,
    shortstop_covers: bool,
) -> (p: Position)
    ensures
        p == spec_resolve_cover(assignment, final_fielder_position, shortstop_covers),
{
    let drawn = if shortstop_covers {
        Position::SS
    } else {
        Position::SB
    };
    match assignment {
        CoverAssignment::Fixed(position) => position,
        CoverAssignment::MiddleInfieldRandom => drawn,
        CoverAssignment::OppositeMiddleInfielder => match final_fielder_position {
            Position::SS => Position::SB,
            Position::SB => Position::SS,
            _ => drawn,
        },
        CoverAssignment::OppositeFirstInfielder => match final_fielder_position {
            Position::FB => Position::P,
            _ => Position::FB,
        },
        CoverAssignment::CutoffByOutfieldSide => match final_fielder_position {
            Position::RF => Position::SB,
            _ => Position::SS,
        },
        CoverAssignment::FinalFielderByOutfieldSide => match final_fielder_position {
            Position::RF => Position::SS,
            _ => Position::SB,
        },
    }
}

/// The draw between the shortstop and the second baseman for a base either may cover.
pub trait CoverDraw {
    /// Whether the shortstop covers.
    fn shortstop_covers(&mut self) -> bool;
}

/// The shortstop's share of the bases either middle infielder may cover, in hundredths.
pub const SHORTSTOP_COVER_WEIGHT: usize = 30;

/// Draws in hundredths of the range `1..=COVER_DRAW_MAX`.
pub const COVER_DRAW_MAX: usize = 100;

/// The cover draw by weight: the shortstop covers on a draw within his share
/// (`shortstop_weight` hundredths), the second baseman otherwise.
pub struct WeightedCoverDraw<R: RandomProvider> {
    pub rng: R,
    pub shortstop_weight: usize,
}

impl<R: RandomProvider> WeightedCoverDraw<R> {
    /// The cover draw with the shortstop's usual share.
    pub fn new(rng: R) -> (d: Self)
        ensures
            d.rng == rng,
            d.shortstop_weight == SHORTSTOP_COVER_WEIGHT,
    {
        WeightedCoverDraw { rng, shortstop_weight: SHORTSTOP_COVER_WEIGHT }
    }
}

impl<R: RandomProvider> CoverDraw for WeightedCoverDraw<R> {
    fn shortstop_covers(&mut self) -> (ss: bool)
        ensures
            ({
                let d = final(self).rng.draws().last().2;
                &&& final(self).rng.draws() == old(self).rng.draws().push((1, COVER_DRAW_MAX, d))
                &&& ss == (d <= old(self).shortstop_weight)
                &&& final(self).shortstop_weight == old(self).shortstop_weight
            }),
    {
        let d = self.rng.gen_range(1, COVER_DRAW_MAX);
        d <= self.shortstop_weight
    }
}

/// Names covering fielders, drawing where the assignment leaves a choice.
pub struct CoverDecision<D: CoverDraw> {
    pub draw: D,
}

impl<D: CoverDraw> CoverDecision<D> {
    /// The fielder named for `assignment`; a draw is made only where the assignment
    /// leaves the choice between the shortstop and the second baseman open.
    pub fn resolve(&mut self, assignment: CoverAssignment, final_fielder_position: Position) -> (p:
        Position)
        ensures
            exists|ss: bool| p == #[trigger] spec_resolve_cover(assignment, final_fielder_position, ss),
            !needs_draw(assignment, final_fielder_position) ==> p == spec_resolve_cover(
                assignment,
                final_fielder_position,
                false,
            ),
    {
        let needs = match assignment {
            CoverAssignment::MiddleInfieldRandom => true,
            CoverAssignment::OppositeMiddleInfielder => final_fielder_position != Position::SS
                && final_fielder_position != Position::SB,
            _ => false,
        };
        let ss = if needs {
            self.draw.shortstop_covers()
        } else {
            false
        };
        let p = resolve_cover(assignment, final_fielder_position, ss);
        assert(p == spec_resolve_cover(assignment, final_fielder_position, ss));
        p
    }
}

/// The throw target of `plan`, with `final_covers` and `cutoff_covers` as the draws for
/// the fielder taking the throw and for the cutoff man.
pub open spec fn spec_resolved_plan(
    final_fielder_position: Position,
    plan: ThrowTargetPlan,
    final_covers: bool,
    cutoff_covers: bool,
) -> ThrowTarget {
    ThrowTarget {
        base: plan.base,
        play_type: plan.play_type,
        final_fielder_position: spec_resolve_cover(
            plan.final_fielder_position,
            final_fielder_position,
            final_covers,
        ),
        cutoff_fielder_position: match plan.cutoff_fielder_position {
            Some(a) => Some(spec_resolve_cover(a, final_fielder_position, cutoff_covers)),
            None => None,
        },
    }
}

pub open spec fn spec_resolved_multiplay(
    final_fielder_position: Position,
    plan: MultiPlayThrowTargetPlan,
    thrower_covers: bool,
    final_covers: bool,
) -> MultiPlayThrowTarget {
    MultiPlayThrowTarget {
        from_base: plan.from_base,
        to_base: plan.to_base,
        thrower_fielder_position: spec_resolve_cover(
            plan.thrower_fielder_position,
            final_fielder_position,
            thrower_covers,
        ),
        final_fielder_position: spec_resolve_cover(
            plan.final_fielder_position,
            final_fielder_position,
            final_covers,
        ),
    }
}

/// Names the fielders of `plan` for a ball fielded at `final_fielder_position`.
pub fn resolve_throw_target_plan<D: CoverDraw>(
    final_fielder_position: Position,
    plan: ThrowTargetPlan,
    decision: &mut CoverDecision<D>,
) -> (t: ThrowTarget)
    ensures
        exists|a: bool, b: bool| t == #[trigger] spec_resolved_plan(final_fielder_position, plan, a, b),
        t.base == plan.base,
        t.play_type == plan.play_type,
        !needs_draw(plan.final_fielder_position, final_fielder_position) ==> t.final_fielder_position
            == spec_resolve_cover(plan.final_fielder_position, final_fielder_position, false),
{
    let fin = decision.resolve(plan.final_fielder_position, final_fielder_position);
    let ghost a = choose|ss: bool| fin == spec_resolve_cover(plan.final_fielder_position, final_fielder_position, ss);
    let cutoff = match plan.cutoff_fielder_position {
        Some(assignment) => Some(decision.resolve(assignment, final_fielder_position)),
        None => None,
    };
    let ghost b = match plan.cutoff_fielder_position {
        Some(assignment) => choose|ss: bool| cutoff == Some(spec_resolve_cover(assignment, final_fielder_position, ss)),
        None => false,
    };
    let t = ThrowTarget {
        base: plan.base,
        play_type: plan.play_type,
        final_fielder_position: fin,
        cutoff_fielder_position: cutoff,
    };
    assert(t == spec_resolved_plan(final_fielder_position, plan, a, b));
    t
}

/// Names the fielders of a double play's second throw.
pub fn resolve_multiplay_throw_target_plan<D: CoverDraw>(
    final_fielder_position: Position,
    plan: MultiPlayThrowTargetPlan,
    decision: &mut CoverDecision<D>,
) -> (t: MultiPlayThrowTarget)
    ensures
        exists|a: bool, b: bool| t == #[trigger] spec_resolved_multiplay(final_fielder_position, plan, a, b),
        t.from_base == plan.from_base,
        t.to_base == plan.to_base,
{
    let thrower = decision.resolve(plan.thrower_fielder_position, final_fielder_position);
    let ghost a = choose|ss: bool| thrower == spec_resolve_cover(plan.thrower_fielder_position, final_fielder_position, ss);
    let fin = decision.resolve(plan.final_fielder_position, final_fielder_position);
    let ghost b = choose|ss: bool| fin == spec_resolve_cover(plan.final_fielder_position, final_fielder_position, ss);
    let t = MultiPlayThrowTarget {
        from_base: plan.from_base,
        to_base: plan.to_base,
        thrower_fielder_position: thrower,
        final_fielder_position: fin,
    };
    assert(t == spec_resolved_multiplay(final_fielder_position, plan, a, b));
    t
}

/// Where the fielder throws on a ground ball, and who covers.
pub fn judge_infield_grounder_throw_target<D: CoverDraw>(ctx: &PlayContext, draw: D) -> (t: ThrowTarget)
    ensures
        exists|a: bool, b: bool| t == #[trigger] spec_resolved_plan(
            ctx.try_catch_position,
            spec_infield_grounder_target(*ctx),
            a,
            b,
        ),
{
    let plan = select_throw_target(ctx, ThrowRules::InfieldGrounder);
    let mut decision = CoverDecision { draw };
    resolve_throw_target_plan(ctx.try_catch_position, plan, &mut decision)
}

/// Where the outfielder throws on a hit, and who relays and covers.
pub fn judge_outfield_hit_throw_target<D: CoverDraw>(ctx: &PlayContext, draw: D) -> (t: ThrowTarget)
    ensures
        exists|a: bool, b: bool| t == #[trigger] spec_resolved_plan(
            ctx.try_catch_position,
            spec_outfield_hit_target(*ctx),
            a,
            b,
        ),
{
    let plan = select_throw_target(ctx, ThrowRules::OutfieldHit);
    let mut decision = CoverDecision { draw };
    resolve_throw_target_plan(ctx.try_catch_position, plan, &mut decision)
}

/// Where the outfielder throws after a catch with runners tagging up.
pub fn judge_tagup_throw_target<D: CoverDraw>(ctx: &PlayContext, draw: D) -> (t: ThrowTarget)
    ensures
        exists|a: bool, b: bool| t == #[trigger] spec_resolved_plan(
            ctx.try_catch_position,
            spec_tagup_target(*ctx),
            a,
            b,
        ),
{
    let plan = select_throw_target(ctx, ThrowRules::Tagup);
    let mut decision = CoverDecision { draw };
    resolve_throw_target_plan(ctx.try_catch_position, plan, &mut decision)
}

/// The second throw of a double play after the first throw `ctx`, if the rules call for one.
pub fn judge_double_play_throw_target<D: CoverDraw>(ctx: &DefensePlayResult, draw: D) -> (t: Option<
    MultiPlayThrowTarget,
>)
    ensures
        match spec_double_play_target(*ctx) {
            Some(plan) => t matches Some(target) && exists|a: bool, b: bool| target
                == #[trigger] spec_resolved_multiplay(ctx.final_fielder_position, plan, a, b),
            None => t is None,
        },
{
    match select_multiplay_throw_target(ctx) {
        Some(plan) => {
            let mut decision = CoverDecision { draw };
            Some(resolve_multiplay_throw_target_plan(ctx.final_fielder_position, plan, &mut decision))
        },
        None => None,
    }
}

/// The first fielder at `position`.
pub open spec fn fielder_index(fielders: Seq<ActiveFielder>, position: Position) -> Option<int>
    decreases fielders.len(),
{
    if fielders.len() == 0 {
        None
    } else {
        match fielder_index(fielders.drop_last(), position) {
            Some(i) => Some(i),
            None => if fielders.last().position == position {
                Some(fielders.len() - 1)
            } else {
                None
            },
        }
    }
}

proof fn lemma_fielder_index_prefix(fielders: Seq<ActiveFielder>, n: int, position: Position)
    requires
        0 < n <= fielders.len(),
        fielder_index(fielders.take(n - 1), position) is None,
        fielders[n - 1].position == position,
    ensures
        fielder_index(fielders, position) == Some(n - 1),
    decreases fielders.len(),
{
    assert(fielders.take(n).drop_last() =~= fielders.take(n - 1));
    if n < fielders.len() {
        assert(fielders.drop_last().take(n - 1) =~= fielders.take(n - 1));
        lemma_fielder_index_prefix(fielders.drop_last(), n, position);
    } else {
        assert(fielders.take(n - 1) =~= fielders.drop_last());
    }
}

/// The fielder playing `position`.
pub fn find_fielder_by_position(fielders: &Vec<ActiveFielder>, position: Position) -> (res: Result<
    ActiveFielder,
    GameError,
>)
    ensures
        match fielder_index(fielders@, position) {
            Some(i) => res == Ok::<ActiveFielder, GameError>(fielders@[i]),
            None => res matches Err(GameError::NoPlayerFor(s)) && s@ == spec_position_key(position),
        },
{
    let mut j: usize = 0;
    while j < fielders.len()
        invariant
            j <= fielders@.len(),
            fielder_index(fielders@.take(j as int), position) is None,
        decreases fielders@.len() - j,
    {
        proof {
            assert(fielders@.take(j + 1).drop_last() =~= fielders@.take(j as int));
        }
        if fielders[j].is(position) {
            proof {
                lemma_fielder_index_prefix(fielders@, j + 1, position);
            }
            return Ok(fielders[j]);
        }
        j += 1;
    }
    proof {
        assert(fielders@.take(fielders@.len() as int) =~= fielders@);
    }
    Err(GameError::NoPlayerFor(String::from_str(position.message_key())))
}

/// Who makes a double play's second throw and who takes it, by the fielders' positions.
pub fn double_play_defense_play(fielders: &Vec<ActiveFielder>, target: &MultiPlayThrowTarget) -> (res:
    Result<DoublePlayDefensePlayResult, GameError>)
    ensures
        match (
            fielder_index(fielders@, target.thrower_fielder_position),
            fielder_index(fielders@, target.final_fielder_position),
        ) {
            (Some(t), Some(f)) => res == Ok::<DoublePlayDefensePlayResult, GameError>(
                DoublePlayDefensePlayResult {
                    throw_target_base: target.to_base,
                    thrower_fielder_id: fielders@[t].id,
                    thrower_fielder_position: target.thrower_fielder_position,
                    final_fielder_id: fielders@[f].id,
                    final_fielder_position: target.final_fielder_position,
                },
            ),
            (None, _) => res matches Err(GameError::NoPlayerFor(s)) && s@ == spec_position_key(
                target.thrower_fielder_position,
            ),
            (Some(_), None) => res matches Err(GameError::NoPlayerFor(s)) && s@ == spec_position_key(
                target.final_fielder_position,
            ),
        },
{
    let thrower = match find_fielder_by_position(fielders, target.thrower_fielder_position) {
        Ok(f) => f,
        Err(e) => {
            return Err(e);
        },
    };
    let final_fielder = match find_fielder_by_position(fielders, target.final_fielder_position) {
        Ok(f) => f,
        Err(e) => {
            return Err(e);
        },
    };
    Ok(
        DoublePlayDefensePlayResult {
            throw_target_base: target.to_base,
            thrower_fielder_id: thrower.id,
            thrower_fielder_position: target.thrower_fielder_position,
            final_fielder_id: final_fielder.id,
            final_fielder_position: target.final_fielder_position,
        },
    )
}

/// Throws on hits to the outfield and on tag-ups are always tag plays, and every ground
/// ball is played as a force except the tag at home on a shallow ball with a runner on
/// third.
pub proof fn lemma_outfield_throws_are_tag_plays(ctx: PlayContext)
    ensures
        spec_outfield_hit_target(ctx).play_type == PlayType::TouchPlay,
        spec_tagup_target(ctx).play_type == PlayType::TouchPlay,
        spec_infield_grounder_target(ctx).play_type == PlayType::TouchPlay ==> ctx.runners.runner_3rd
            is Some && ctx.shallow_infield && spec_infield_grounder_target(ctx).base == Base::Home,
{
}

/// Whoever is named to take a throw, a draw only ever picks the shortstop or the second
/// baseman: where the choice is drawn, the two outcomes name those two fielders.
pub proof fn lemma_drawn_cover_is_middle_infielder(
    assignment: CoverAssignment,
    final_fielder_position: Position,
)
    requires
        needs_draw(assignment, final_fielder_position),
    ensures
        spec_resolve_cover(assignment, final_fielder_position, true) == Position::SS,
        spec_resolve_cover(assignment, final_fielder_position, false) == Position::SB,
{
}

/// Where a tag-up throw goes: home only with a runner on third, third only with a runner
/// on second, and third exactly when the fly was caught in center or right with a runner
/// on second and no throw home — never on a fly caught in left, where the third baseman
/// cannot take the throw; a throw to third is taken by the third baseman.
pub proof fn lemma_tagup_throws_to_third_from_center_or_right(ctx: PlayContext)
    ensures
        ({
            let p = spec_tagup_target(ctx);
            let home = ctx.runners.runner_3rd is Some && !ctx.deep_outfield;
            &&& p.base == Base::Home ==> ctx.runners.runner_3rd is Some
            &&& p.base == Base::Third ==> ctx.runners.runner_2nd is Some
            &&& ctx.try_catch_position == Position::LF ==> p.base != Base::Third
            &&& !home ==> (p.base == Base::Third <==> (ctx.runners.runner_2nd is Some && (
            ctx.try_catch_position == Position::CF || ctx.try_catch_position == Position::RF)))
            &&& p.base == Base::Third ==> p.final_fielder_position == CoverAssignment::Fixed(
                Position::TB,
            )
        }),
{
}

/// A grounder is thrown only to a base a runner is forced to or can be caught at: home
/// only with a runner on third, as a force exactly when the bases are loaded (and always
/// then); third only with runners on first and second, as a force taken by the third
/// baseman; second only with a runner on first, as a force.
pub proof fn lemma_grounder_throws_to_forced_bases(ctx: PlayContext)
    ensures
        ({
            let p = spec_infield_grounder_target(ctx);
            let r = ctx.runners;
            let loaded = r.runner_1st is Some && r.runner_2nd is Some && r.runner_3rd is Some;
            &&& p.base == Base::Home ==> r.runner_3rd is Some
            &&& p.base == Base::Home ==> (p.play_type == PlayType::ForcePlay <==> loaded)
            &&& loaded ==> p.base == Base::Home && p.play_type == PlayType::ForcePlay
            &&& p.base == Base::Third ==> r.runner_1st is Some && r.runner_2nd is Some
                && p.play_type == PlayType::ForcePlay && p.final_fielder_position
                == CoverAssignment::Fixed(Position::TB)
            &&& p.base == Base::Second ==> r.runner_1st is Some && p.play_type == PlayType::ForcePlay
            &&& p.base == Base::Home ==> p.final_fielder_position == CoverAssignment::Fixed(Position::C)
        }),
{
}

/// On a hit to the outfield the relay goes home only after a runner on third, and to
/// third only after a runner from first; a throw home is taken by the catcher and a throw
/// to third by the third baseman.
pub proof fn lemma_outfield_relays_chase_runners(ctx: PlayContext)
    ensures
        ({
            let p = spec_outfield_hit_target(ctx);
            &&& p.base == Base::Home ==> ctx.runners.runner_3rd is Some
                && p.final_fielder_position == CoverAssignment::Fixed(Position::C)
            &&& p.base == Base::Third ==> ctx.runners.runner_1st is Some
                && p.final_fielder_position == CoverAssignment::Fixed(Position::TB)
            &&& p.base != Base::First
        }),
{
}

/// The second throw of a double play starts from the base of the first throw and goes to
/// another base: to first, unless the first throw went to first (then to second) or home
/// with the first baseman fielding (then to third, from his own spot).
pub proof fn lemma_double_play_second_throw(ctx: DefensePlayResult)
    ensures
        spec_double_play_target(ctx) matches Some(p) ==> {
            &&& p.from_base == ctx.throw_target_base
            &&& p.to_base != p.from_base
            &&& p.to_base == (if ctx.throw_target_base == Base::First {
                Base::Second
            } else if ctx.throw_target_base == Base::Home && ctx.final_fielder_position
                == Position::FB {
                Base::Third
            } else {
                Base::First
            })
            &&& p.to_base == Base::First ==> p.final_fielder_position == CoverAssignment::Fixed(
                Position::FB,
            )
        },
        spec_double_play_target(ctx) is None <==> (ctx.throw_target_base == Base::First
            && ctx.final_fielder_position != Position::FB),
{
}

} // verus!
