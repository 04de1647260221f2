use saberbb::fielding::{DefensePlayResult, FielderRiskTolerance, PlayType};
use saberbb::game_state::GameError;
use saberbb::player::{Position, RL};
use saberbb::random_provider::{RandomProvider, RealRng};
use saberbb::running::RunnersOnBase;
use saberbb::stadium::Base;
use saberbb::team::ActiveFielder;
use saberbb::throw_target_rules::{
    double_play_defense_play, find_fielder_by_position, judge_double_play_throw_target,
    judge_infield_grounder_throw_target, judge_outfield_hit_throw_target, judge_tagup_throw_target,
    resolve_cover, CoverAssignment, CoverDecision, CoverDraw, PlayContext, ThrowTarget,
    WeightedCoverDraw, SHORTSTOP_COVER_WEIGHT,
};

const DEEP_OUTFIELD_DISTANCE: f64 = 90.0;
const SHALLOW_INFIELD_DISTANCE: f64 = 25.0;
const CUTOFF_NEEDED_DISTANCE_FOR_RUNNER_ON_THIRD: f64 = 80.0;
const CUTOFF_NEEDED_DISTANCE_FOR_RUNNER_ON_FIRST: f64 = 75.0;
const CUTOFF_NEEDED_TIME_TO_CATCH: f64 = 3.5;
const WEIGHT_SS_BASE_COVER: f64 = 0.3;

/// A draw with a fixed random number, as the weighted coin between shortstop and second
/// baseman makes it.
struct FixedDraw(f64);

impl CoverDraw for FixedDraw {
    fn shortstop_covers(&mut self) -> bool {
        self.0 < WEIGHT_SS_BASE_COVER
    }
}

fn fixed_rng() -> FixedDraw {
    FixedDraw(0.1)
}

fn runners_on_base(first: bool, second: bool, third: bool) -> RunnersOnBase {
    RunnersOnBase {
        batting_side: Some(RL::Right),
        batter_runner: Some(0),
        runner_1st: if first { Some(1) } else { None },
        runner_2nd: if second { Some(2) } else { None },
        runner_3rd: if third { Some(3) } else { None },
    }
}

fn ctx(runners: RunnersOnBase, position: Position, distance: f64, time_to_field: f64) -> PlayContext {
    PlayContext {
        runners,
        try_catch_position: position,
        shallow_infield: distance <= SHALLOW_INFIELD_DISTANCE,
        within_cutoff_for_third: distance <= CUTOFF_NEEDED_DISTANCE_FOR_RUNNER_ON_THIRD,
        within_cutoff_for_first: distance <= CUTOFF_NEEDED_DISTANCE_FOR_RUNNER_ON_FIRST,
        fielded_in_time: time_to_field <= CUTOFF_NEEDED_TIME_TO_CATCH,
        deep_outfield: distance >= DEEP_OUTFIELD_DISTANCE,
    }
}

fn assert_target(target: ThrowTarget, expected_base: Base, expected_play_type: PlayType) {
    assert_eq!(target.base, expected_base);
    assert_eq!(target.play_type, expected_play_type);
}

fn fielder(position: Position, id: i64) -> ActiveFielder {
    ActiveFielder { position, id, risk_tolerance: FielderRiskTolerance::Balanced }
}

#[test]
fn judge_optimal_target_general_chooses_home_force_with_bases_loaded_grounder() {
    let ctx = ctx(runners_on_base(true, true, true), Position::P, 18.0, 0.8);

    let target = judge_infield_grounder_throw_target(&ctx, fixed_rng());

    assert_target(target, Base::Home, PlayType::ForcePlay);
}

#[test]
fn judge_optimal_target_general_chooses_third_force_for_left_side_grounder() {
    let ctx = ctx(runners_on_base(true, true, false), Position::TB, 30.0, 1.0);

    let target = judge_infield_grounder_throw_target(&ctx, fixed_rng());

    assert_target(target, Base::Third, PlayType::ForcePlay);
}

#[test]
fn judge_optimal_target_general_throws_home_on_shallow_hit_with_lead_runner() {
    let ctx = ctx(runners_on_base(false, false, true), Position::CF, 70.0, 3.0);

    let target = judge_outfield_hit_throw_target(&ctx, fixed_rng());

    assert_target(target, Base::Home, PlayType::TouchPlay);
}

#[test]
fn judge_optimal_target_general_chooses_third_on_shallow_center_hit_with_runner_on_first() {
    let ctx = ctx(runners_on_base(true, false, false), Position::CF, 72.0, 3.8);

    let target = judge_outfield_hit_throw_target(&ctx, fixed_rng());

    assert_target(target, Base::Third, PlayType::TouchPlay);
}

#[test]
fn judge_optimal_target_general_chooses_second_for_deep_extra_base_hit() {
    let ctx = ctx(runners_on_base(false, false, false), Position::LF, 95.0, 5.0);

    let target = judge_outfield_hit_throw_target(&ctx, fixed_rng());

    assert_target(target, Base::Second, PlayType::TouchPlay);
}

#[test]
fn evaluate_double_play_returns_error_when_thrower_is_missing() {
    let fielders = vec![fielder(Position::SS, 0)];
    let first_play = DefensePlayResult {
        throw_target_base: Base::Second,
        play_type: PlayType::ForcePlay,
        final_fielder_id: 0,
        final_fielder_position: Position::SB,
        cutoff_fielder_id: None,
        cutoff_fielder_position: None,
    };

    let target = judge_double_play_throw_target(&first_play, fixed_rng()).unwrap();
    let result = double_play_defense_play(&fielders, &target);

    assert!(matches!(result, Err(GameError::NoPlayerFor(position)) if position == "sb"));
}

#[test]
fn double_play_after_force_at_second_goes_on_to_first() {
    let fielders = vec![fielder(Position::SS, 6), fielder(Position::FB, 3)];
    let first_play = DefensePlayResult {
        throw_target_base: Base::Second,
        play_type: PlayType::ForcePlay,
        final_fielder_id: 6,
        final_fielder_position: Position::SS,
        cutoff_fielder_id: None,
        cutoff_fielder_position: None,
    };

    let target = judge_double_play_throw_target(&first_play, fixed_rng()).unwrap();
    let result = double_play_defense_play(&fielders, &target).unwrap();

    assert_eq!(result.throw_target_base, Base::First);
    assert_eq!(result.final_fielder_position, Position::FB);
    assert_eq!(result.final_fielder_id, 3);
    assert_eq!(result.thrower_fielder_id, 6);
}

#[test]
fn no_second_throw_after_a_throw_to_first_by_anyone_but_the_first_baseman() {
    let first_play = DefensePlayResult {
        throw_target_base: Base::First,
        play_type: PlayType::ForcePlay,
        final_fielder_id: 1,
        final_fielder_position: Position::P,
        cutoff_fielder_id: None,
        cutoff_fielder_position: None,
    };
    assert!(judge_double_play_throw_target(&first_play, fixed_rng()).is_none());
}

#[test]
fn tagup_throw_goes_home_with_a_cutoff_by_outfield_side() {
    let ctx = ctx(runners_on_base(false, false, true), Position::RF, 70.0, 4.0);

    let target = judge_tagup_throw_target(&ctx, fixed_rng());

    assert_target(target, Base::Home, PlayType::TouchPlay);
    assert_eq!(target.final_fielder_position, Position::C);
    assert_eq!(target.cutoff_fielder_position, Some(Position::SB));
}

#[test]
fn middle_infield_cover_follows_the_draw() {
    let ctx = ctx(runners_on_base(false, false, false), Position::CF, 40.0, 2.0);

    let by_shortstop = judge_outfield_hit_throw_target(&ctx, FixedDraw(0.1));
    let by_second_baseman = judge_outfield_hit_throw_target(&ctx, FixedDraw(0.9));

    assert_eq!(by_shortstop.final_fielder_position, Position::SS);
    assert_eq!(by_second_baseman.final_fielder_position, Position::SB);
}

#[test]
fn resolve_cover_names_the_opposite_infielder() {
    assert_eq!(resolve_cover(CoverAssignment::OppositeMiddleInfielder, Position::SS, true), Position::SB);
    assert_eq!(resolve_cover(CoverAssignment::OppositeMiddleInfielder, Position::SB, false), Position::SS);
    assert_eq!(resolve_cover(CoverAssignment::OppositeMiddleInfielder, Position::P, true), Position::SS);
    assert_eq!(resolve_cover(CoverAssignment::OppositeFirstInfielder, Position::FB, true), Position::P);
    assert_eq!(resolve_cover(CoverAssignment::OppositeFirstInfielder, Position::C, true), Position::FB);
    assert_eq!(resolve_cover(CoverAssignment::FinalFielderByOutfieldSide, Position::RF, false), Position::SS);
    assert_eq!(resolve_cover(CoverAssignment::Fixed(Position::TB), Position::RF, false), Position::TB);
}

/// Counts the draws made.
struct CountingDraw(u32);

impl CoverDraw for CountingDraw {
    fn shortstop_covers(&mut self) -> bool {
        self.0 += 1;
        false
    }
}

#[test]
fn cover_decision_draws_only_when_the_choice_is_open() {
    let mut decision = CoverDecision { draw: CountingDraw(0) };
    decision.resolve(CoverAssignment::Fixed(Position::C), Position::SS);
    decision.resolve(CoverAssignment::OppositeMiddleInfielder, Position::SS);
    assert_eq!(decision.draw.0, 0);
    decision.resolve(CoverAssignment::MiddleInfieldRandom, Position::SS);
    decision.resolve(CoverAssignment::OppositeMiddleInfielder, Position::TB);
    assert_eq!(decision.draw.0, 2);
}

#[test]
fn find_fielder_by_position_takes_the_first_match() {
    let fielders = vec![fielder(Position::CF, 8), fielder(Position::CF, 9)];
    assert_eq!(find_fielder_by_position(&fielders, Position::CF).unwrap().id, 8);
    assert!(matches!(find_fielder_by_position(&fielders, Position::LF), Err(GameError::NoPlayerFor(p)) if p == "lf"));
}

/// Hands out the given draws in turn.
struct Draws(Vec<usize>);

impl RandomProvider for Draws {
    fn gen_range(&mut self, low: usize, high: usize) -> usize {
        let d = self.0.remove(0);
        assert!(low <= d && d <= high);
        d
    }
}

#[test]
fn weighted_cover_gives_shortstop_his_share_in_hundredths() {
    assert_eq!(SHORTSTOP_COVER_WEIGHT, 30);
    let mut draw = WeightedCoverDraw::new(Draws(vec![1, 30, 31, 100]));
    assert!(draw.shortstop_covers());
    assert!(draw.shortstop_covers());
    assert!(!draw.shortstop_covers());
    assert!(!draw.shortstop_covers());
}

#[test]
fn weighted_cover_decides_open_assignments_only() {
    let mut decision = CoverDecision { draw: WeightedCoverDraw::new(Draws(vec![10, 90])) };
    assert_eq!(decision.resolve(CoverAssignment::MiddleInfieldRandom, Position::CF), Position::SS);
    assert_eq!(decision.resolve(CoverAssignment::Fixed(Position::C), Position::CF), Position::C);
    assert_eq!(decision.resolve(CoverAssignment::OppositeMiddleInfielder, Position::LF), Position::SB);
    assert!(decision.draw.rng.0.is_empty());
}

#[test]
fn weighted_cover_with_seeded_generator_names_a_middle_infielder() {
    let mut decision = CoverDecision { draw: WeightedCoverDraw::new(RealRng::from_seed(5)) };
    for _ in 0..20 {
        let p = decision.resolve(CoverAssignment::MiddleInfieldRandom, Position::CF);
        assert!(p == Position::SS || p == Position::SB);
    }
}
