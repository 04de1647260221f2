use saberbb::fielding::{
    DefensePlayResult, DoublePlayDefensePlayResult, FielderRiskTolerance, PlayType,
};
use saberbb::running::{RunnerAdvanceResult, RunningEvent};
use saberbb::game::{GameType, PitchResult, BattingResult, TB};
use saberbb::game_state::{
    Ruling, GamePhase, GameProgress, GameState, GameStep, InningProgress, InningState, MAX_BALL, MAX_INNING, MAX_OUT, MAX_STRIKE,
};
use saberbb::player::{Player, PlayerInfo, Position, RL};
use saberbb::random_provider::RandomProvider;
use saberbb::schedule::GameSchedule;
use saberbb::stadium::Base;
use saberbb::team::Team;

/// 2026-04-01 as a day number, January 1 of year 1 being day 1.
const APRIL_1_2026: i32 = 739_707;

struct LowRng;

impl RandomProvider for LowRng {
    fn gen_range(&mut self, low: usize, _high: usize) -> usize {
        low
    }
}

fn swing_key(speed: f64) -> u64 {
    let bits = speed.to_bits();
    if bits >> 63 == 1 {
        !bits
    } else {
        bits | (1 << 63)
    }
}

fn player(id: i64, position: Position, batting_order: Option<u8>) -> Player {
    Player {
        info: PlayerInfo::new(id, format!("First{id}"), format!("Last{id}"), 25, id as u8),
        position,
        batter: batting_order.map(|order| swing_key(100.0 - f64::from(order))),
        has_pitcher: position == Position::P,
        has_catcher: position == Position::C,
        has_middle_infielder: matches!(position, Position::SB | Position::SS),
        has_corner_infielder: matches!(position, Position::FB | Position::TB),
        has_outfielder: matches!(position, Position::LF | Position::CF | Position::RF),
    }
}

fn team(id: u16, name: &str, first_player_id: i64) -> Team {
    let batter_positions = [
        Position::C,
        Position::FB,
        Position::SB,
        Position::TB,
        Position::SS,
        Position::LF,
        Position::CF,
        Position::RF,
        Position::DH,
    ];
    let mut players = vec![player(first_player_id, Position::P, None)];
    players.extend(batter_positions.into_iter().enumerate().map(|(index, position)| {
        player(first_player_id + index as i64 + 1, position, Some((index + 1) as u8))
    }));
    Team { id, name: name.into(), players }
}

fn game_state() -> GameState {
    GameState::new(
        &mut LowRng,
        GameSchedule {
            id: 1,
            season: 2026,
            round_seq: 1,
            seq: 4,
            planned_date: APRIL_1_2026,
            away_team: team(1, "AAA", 1),
            home_team: team(2, "BBB", 101),
            game_type: GameType::Regular,
        },
    )
    .unwrap()
}

fn assert_no_runners(inning_state: &InningState) {
    assert!(inning_state.runners.batter_runner.is_none());
    assert!(inning_state.active_batter.is_none());
    assert!(!inning_state.runners.has_runner_on(Base::First));
    assert!(!inning_state.runners.has_runner_on(Base::Second));
    assert!(!inning_state.runners.has_runner_on(Base::Third));
}

#[test]
fn new_initializes_game_before_first_inning() {
    let game = game_state();

    assert_eq!(game.inning_seq, 0);
    assert_eq!(game.inning_tb, TB::Bottom);
    assert_eq!(game.away_total_point, 0);
    assert_eq!(game.home_total_point, 0);
    assert_eq!(game.away_lineup.players.len(), 10);
    assert_eq!(game.home_lineup.players.len(), 10);
    assert_eq!(game.away_lineup.batters().len(), 9);
    assert_eq!(game.home_lineup.batters().len(), 9);
    assert_eq!(game.away_lineup.fielders().len(), 9);
    assert_eq!(game.home_lineup.fielders().len(), 9);
    assert_eq!(game.away_lineup.current_index, 0);
    assert_eq!(game.home_lineup.current_index, 0);
}

#[test]
fn advance_half_inning_cycles_top_and_bottom() {
    let mut game = game_state();

    game.advance_half_inning();
    assert_eq!(game.inning.seq, 1);
    assert_eq!(game.inning.tb, TB::Top);
    assert!(game.inning.counts.is_empty());
    assert_no_runners(&game.inning_state);
    assert_eq!(game.inning_state.out, 0);

    game.inning_state.add_out();
    game.advance_half_inning();
    assert_eq!(game.inning.seq, 1);
    assert_eq!(game.inning.tb, TB::Bottom);
    assert_no_runners(&game.inning_state);
    assert_eq!(game.inning_state.out, 0);

    game.advance_half_inning();
    assert_eq!(game.inning.seq, 2);
    assert_eq!(game.inning.tb, TB::Top);
}

#[test]
fn current_batter_uses_correct_lineup_and_wraps_after_nine_batters() {
    let mut game = game_state();

    game.advance_half_inning();
    for expected_id in 2..=10 {
        assert_eq!(game.current_batter().unwrap().id, expected_id as i64);
    }
    assert_eq!(game.current_batter().unwrap().id, 2);

    game.advance_half_inning();
    assert_eq!(game.current_batter().unwrap().id, 102);
}

#[test]
fn active_batter_for_count_reuses_batter_until_plate_appearance_finishes() {
    let mut game = game_state();

    game.advance_half_inning();

    let first_batter = game.active_batter_for_count().unwrap();
    assert_eq!(first_batter.id, 2);
    assert_eq!(game.away_lineup.current_index, 1);

    let same_batter = game.active_batter_for_count().unwrap();
    assert_eq!(same_batter.id, 2);
    assert_eq!(game.away_lineup.current_index, 1);

    game.finish_plate_appearance();

    let next_batter = game.active_batter_for_count().unwrap();
    assert_eq!(next_batter.id, 3);
    assert_eq!(game.away_lineup.current_index, 2);
}

#[test]
fn add_strike_increments_strike_without_finishing_plate_appearance() {
    let mut game = game_state();
    game.advance_half_inning();
    let batter = game.active_batter_for_count().unwrap();
    game.prepare_plate_appearance(batter.runner(), RL::Right);
    game.inning_state.ball = 2;

    game.add_strike();

    assert_eq!(game.inning_state.ball, 2);
    assert_eq!(game.inning_state.strike, 1);
    assert_eq!(game.inning_state.out, 0);
    assert_eq!(game.inning_state.active_batter.unwrap().id, batter.id);
    assert!(game.inning_state.runners.batter_runner.is_some());
}

#[test]
fn add_strike_records_out_and_resets_plate_appearance_on_third_strike() {
    let mut game = game_state();
    game.advance_half_inning();
    let batter = game.active_batter_for_count().unwrap();
    game.prepare_plate_appearance(batter.runner(), RL::Right);
    game.inning_state.ball = 3;
    game.inning_state.strike = MAX_STRIKE - 1;

    game.add_strike();

    assert_eq!(game.inning_state.ball, 0);
    assert_eq!(game.inning_state.strike, 0);
    assert_eq!(game.inning_state.out, 1);
    assert_no_runners(&game.inning_state);
}

#[test]
fn add_ball_increments_ball_without_finishing_plate_appearance() {
    let mut game = game_state();
    game.advance_half_inning();
    let batter = game.active_batter_for_count().unwrap();
    game.prepare_plate_appearance(batter.runner(), RL::Right);
    game.inning_state.ball = 2;
    game.inning_state.strike = 2;

    let point = game.add_ball();

    assert_eq!(point, 0);
    assert_eq!(game.inning_state.ball, 3);
    assert_eq!(game.inning_state.strike, 2);
    assert_eq!(game.inning_state.out, 0);
    assert_eq!(game.inning_state.active_batter.unwrap().id, batter.id);
    assert!(game.inning_state.runners.batter_runner.is_some());
}

#[test]
fn add_ball_walks_batter_and_resets_plate_appearance_on_fourth_ball() {
    let mut game = game_state();
    game.advance_half_inning();
    let batter = game.active_batter_for_count().unwrap();
    game.prepare_plate_appearance(batter.runner(), RL::Right);
    game.inning_state.ball = MAX_BALL - 1;
    game.inning_state.strike = 2;
    game.inning_state.runners.runner_2nd = Some(20);

    let point = game.add_ball();

    assert_eq!(point, 0);
    assert_eq!(game.inning_state.ball, 0);
    assert_eq!(game.inning_state.strike, 0);
    assert_eq!(game.inning_state.out, 0);
    assert!(game.inning_state.active_batter.is_none());
    assert!(game.inning_state.runners.batter_runner.is_none());
    assert_eq!(game.inning_state.runners.runner_1st.unwrap(), batter.id);
    assert_eq!(game.inning_state.runners.runner_2nd.unwrap(), 20);
    assert!(game.inning_state.runners.runner_3rd.is_none());
}

#[test]
fn add_ball_forces_runners_and_scores_when_bases_are_loaded() {
    let mut game = game_state();
    game.advance_half_inning();
    let batter = game.active_batter_for_count().unwrap();
    game.prepare_plate_appearance(batter.runner(), RL::Right);
    game.inning_state.ball = MAX_BALL - 1;
    game.inning_state.runners.runner_1st = Some(10);
    game.inning_state.runners.runner_2nd = Some(20);
    game.inning_state.runners.runner_3rd = Some(30);

    let point = game.add_ball();

    assert_eq!(point, 1);
    assert_eq!(game.inning_state.runners.runner_1st.unwrap(), batter.id);
    assert_eq!(game.inning_state.runners.runner_2nd.unwrap(), 10);
    assert_eq!(game.inning_state.runners.runner_3rd.unwrap(), 20);
    assert!(game.inning_state.active_batter.is_none());
    assert!(game.inning_state.runners.batter_runner.is_none());
}

#[test]
fn resolve_wild_pitch_advances_base_runners_without_moving_batter_before_walk() {
    let mut game = game_state();
    game.advance_half_inning();
    let batter = game.active_batter_for_count().unwrap();
    game.prepare_plate_appearance(batter.runner(), RL::Right);
    game.inning_state.ball = 1;
    game.inning_state.strike = 2;
    game.inning_state.runners.runner_1st = Some(10);
    game.inning_state.runners.runner_3rd = Some(30);

    let point = game.resolve_wild_pitch();

    assert_eq!(point, 1);
    assert_eq!(game.inning_state.ball, 2);
    assert_eq!(game.inning_state.strike, 2);
    assert_eq!(game.inning_state.active_batter.unwrap().id, batter.id);
    assert_eq!(game.inning_state.runners.batter_runner.unwrap(), batter.id);
    assert!(game.inning_state.runners.runner_1st.is_none());
    assert_eq!(game.inning_state.runners.runner_2nd.unwrap(), 10);
    assert!(game.inning_state.runners.runner_3rd.is_none());
}

#[test]
fn resolve_wild_pitch_on_ball_four_advances_runners_and_walks_batter() {
    let mut game = game_state();
    game.advance_half_inning();
    let batter = game.active_batter_for_count().unwrap();
    game.prepare_plate_appearance(batter.runner(), RL::Right);
    game.inning_state.ball = MAX_BALL - 1;
    game.inning_state.strike = 2;
    game.inning_state.runners.runner_1st = Some(10);
    game.inning_state.runners.runner_2nd = Some(20);
    game.inning_state.runners.runner_3rd = Some(30);

    let point = game.resolve_wild_pitch();

    assert_eq!(point, 1);
    assert_eq!(game.inning_state.ball, 0);
    assert_eq!(game.inning_state.strike, 0);
    assert!(game.inning_state.active_batter.is_none());
    assert!(game.inning_state.runners.batter_runner.is_none());
    assert_eq!(game.inning_state.runners.runner_1st.unwrap(), batter.id);
    assert_eq!(game.inning_state.runners.runner_2nd.unwrap(), 10);
    assert_eq!(game.inning_state.runners.runner_3rd.unwrap(), 20);
}

#[test]
fn current_pitcher_returns_fielding_teams_pitcher() {
    let mut game = game_state();

    game.advance_half_inning();
    assert_eq!(game.current_pitcher().id, 101);

    game.advance_half_inning();
    assert_eq!(game.current_pitcher().id, 1);
}

#[test]
fn change_risk_tolerance_updates_current_fielding_lineup() {
    let mut game = game_state();

    game.change_risk_tolerance(FielderRiskTolerance::Conservative);
    assert!(game
        .away_lineup
        .fielders()
        .iter()
        .all(|fielder| fielder.risk_tolerance == FielderRiskTolerance::Conservative));
    assert!(game
        .home_lineup
        .fielders()
        .iter()
        .all(|fielder| fielder.risk_tolerance == FielderRiskTolerance::Balanced));

    game.advance_half_inning();
    game.change_risk_tolerance(FielderRiskTolerance::Aggressive);
    assert!(game
        .home_lineup
        .fielders()
        .iter()
        .all(|fielder| fielder.risk_tolerance == FielderRiskTolerance::Aggressive));
    assert!(game
        .current_fielders()
        .iter()
        .all(|fielder| fielder.risk_tolerance == FielderRiskTolerance::Aggressive));
}

#[test]
fn progress_is_ongoing_before_ninth_inning_regardless_of_score() {
    let mut game = game_state();
    game.inning_seq = MAX_INNING - 1;
    game.inning_tb = TB::Bottom;
    game.home_total_point = 10;

    assert_eq!(game.progress(), GameProgress::Ongoing);
}

#[test]
fn progress_is_game_set_at_top_of_ninth_when_home_leads() {
    let mut game = game_state();
    game.inning_seq = MAX_INNING;
    game.inning_tb = TB::Top;
    game.home_total_point = 1;

    assert_eq!(game.progress(), GameProgress::GameSet);
}

#[test]
fn progress_is_ongoing_at_top_of_ninth_when_home_does_not_lead() {
    let mut game = game_state();
    game.inning_seq = MAX_INNING;
    game.inning_tb = TB::Top;

    assert_eq!(game.progress(), GameProgress::Ongoing);

    game.away_total_point = 1;
    assert_eq!(game.progress(), GameProgress::Ongoing);
}

#[test]
fn progress_is_walk_off_at_bottom_of_ninth_when_home_takes_lead() {
    let mut game = game_state();
    game.inning_seq = MAX_INNING;
    game.inning_tb = TB::Bottom;
    game.home_total_point = 1;

    assert_eq!(game.progress(), GameProgress::WalkOff);
}

#[test]
fn inning_state_initializes_empty_and_tracks_counts_and_outs() {
    let mut inning = InningState::new();

    assert_no_runners(&inning);
    assert_eq!(inning.ball, 0);
    assert_eq!(inning.strike, 0);
    assert_eq!(inning.out, 0);
    assert_eq!(inning.inning_progress(), InningProgress::Ongoing);

    inning.add_out();
    inning.add_out();
    assert_eq!(inning.out, 2);
    assert_eq!(inning.inning_progress(), InningProgress::Ongoing);

    inning.add_out();
    assert_eq!(inning.inning_progress(), InningProgress::Over);

    inning.add_out();
    assert_eq!(inning.inning_progress(), InningProgress::Over);
}

#[test]
fn runner_dependent_inning_state_rules_follow_current_runners() {
    let mut inning = InningState::new();

    assert!(!inning.allows_tagup());
    assert!(!inning.can_double_play());

    inning.runners.runner_1st = Some(1);
    assert!(!inning.allows_tagup());
    assert!(inning.can_double_play());

    inning.runners.runner_2nd = Some(1);
    assert!(inning.allows_tagup());
    assert!(inning.can_double_play());

    inning.out = 2;
    assert!(inning.allows_tagup());
    assert!(!inning.can_double_play());

    inning.out = MAX_OUT;
    assert!(!inning.allows_tagup());
}

#[test]
fn take_records_count_for_current_batting_team() {
    let mut game = game_state();
    game.advance_half_inning();
    let batter = game.active_batter_for_count().unwrap();
    game.prepare_plate_appearance(batter.runner(), RL::Right);

    game.resolve_take(101, batter.id, PitchResult::Ball);

    assert_eq!(game.count_seq, 2);
    assert_eq!(game.inning.counts.len(), 1);
    assert_eq!(game.inning.counts[0].seq, 1);
    assert_eq!(game.inning.counts[0].ball, 1);
    assert_eq!(game.away_lineup.current_index, 1);
    let last = game.game_result.player_battings.last().unwrap();
    assert_eq!(last.batter_id, batter.id);
    assert_eq!(last.result, BattingResult::Take);
}

#[test]
fn homerun_scores_every_runner_and_the_batter() {
    let mut game = game_state();
    game.advance_half_inning();
    let batter = game.active_batter_for_count().unwrap();
    game.prepare_plate_appearance(batter.runner(), RL::Right);
    game.inning_state.runners.runner_1st = Some(10);
    game.inning_state.runners.runner_3rd = Some(30);

    game.resolve_homerun(101, batter.id);

    assert_eq!(game.away_total_point, 3);
    assert_eq!(game.inning.counts.last().unwrap().point, 3);
    assert_no_runners(&game.inning_state);
    assert_eq!(game.game_result.player_battings.last().unwrap().result, BattingResult::HomeRun);
}

#[test]
fn strikeout_on_swing_and_miss_records_an_out() {
    let mut game = game_state();
    game.advance_half_inning();
    let batter = game.active_batter_for_count().unwrap();
    game.prepare_plate_appearance(batter.runner(), RL::Right);
    game.inning_state.strike = 2;

    game.resolve_swung_and_miss(101, batter.id);

    assert_eq!(game.inning_state.out, 1);
    assert_eq!(game.game_result.player_battings.last().unwrap().result, BattingResult::Strikeout);
}

#[test]
fn next_step_opens_first_half_inning_of_new_game() {
    let game = game_state();

    assert_eq!(game.next_step(GamePhase::BetweenHalfInnings), GameStep::OpenHalfInning);
}

#[test]
fn next_step_plays_counts_until_three_outs() {
    let mut game = game_state();
    game.advance_half_inning();

    assert_eq!(game.next_step(GamePhase::HalfInningOpened), GameStep::PlayCount);
    assert_eq!(game.next_step(GamePhase::CountPlayed), GameStep::PlayCount);

    game.inning_state.out = MAX_OUT;
    assert_eq!(game.next_step(GamePhase::CountPlayed), GameStep::CloseHalfInning);
    assert_eq!(game.next_step(GamePhase::HalfInningOpened), GameStep::CloseHalfInning);
}

#[test]
fn next_step_closes_half_inning_on_walk_off() {
    let mut game = game_state();
    game.inning_seq = MAX_INNING;
    game.inning_tb = TB::Bottom;
    game.home_total_point = 4;
    game.away_total_point = 3;

    assert_eq!(game.progress(), GameProgress::WalkOff);
    assert_eq!(game.next_step(GamePhase::CountPlayed), GameStep::CloseHalfInning);
    assert_eq!(game.next_step(GamePhase::BetweenHalfInnings), GameStep::FinishGame);
}

#[test]
fn next_step_finishes_game_once_set() {
    let mut game = game_state();
    game.inning_seq = MAX_INNING;
    game.inning_tb = TB::Top;
    game.home_total_point = 2;
    game.away_total_point = 1;

    assert_eq!(game.progress(), GameProgress::GameSet);
    assert_eq!(game.next_step(GamePhase::BetweenHalfInnings), GameStep::FinishGame);
    // A game set does not cut a half inning short: only a walk-off does.
    assert_eq!(game.next_step(GamePhase::CountPlayed), GameStep::PlayCount);
}

#[test]
fn phase_after_follows_each_step() {
    assert_eq!(GameStep::OpenHalfInning.phase_after(), Some(GamePhase::HalfInningOpened));
    assert_eq!(GameStep::PlayCount.phase_after(), Some(GamePhase::CountPlayed));
    assert_eq!(GameStep::CloseHalfInning.phase_after(), Some(GamePhase::BetweenHalfInnings));
    assert_eq!(GameStep::FinishGame.phase_after(), None);
}

fn fielding(
    seq: u8,
    catch: (i64, Position),
    final_fielder: Option<(i64, Position)>,
    play_type: saberbb::fielding::PlayType,
) -> saberbb::game_stats::PlayerGameFielding {
    saberbb::game_stats::PlayerGameFielding {
        count_seq: 1,
        seq,
        catch_fielder_id: catch.0,
        catch_fielder_position: catch.1,
        cutoff_fielder_id: None,
        cutoff_fielder_position: None,
        final_fielder_id: final_fielder.map(|f| f.0),
        final_fielder_position: final_fielder.map(|f| f.1),
        play_type,
    }
}

fn no_runners() -> saberbb::running::RunnersUnsaved {
    saberbb::running::RunnersUnsaved { runner_1st: None, runner_2nd: None, runner_3rd: None }
}

fn all_safe() -> saberbb::running::SafeAtTarget {
    saberbb::running::SafeAtTarget { batter: true, from_first: true, from_second: true, from_third: true }
}

#[test]
fn fly_catch_logs_a_catch_play_for_the_catcher() {
    let mut game = game_state();
    game.advance_half_inning();
    let defense = DefensePlayResult {
        throw_target_base: Base::Home,
        play_type: PlayType::CatchPlay,
        final_fielder_id: 108,
        final_fielder_position: Position::CF,
        cutoff_fielder_id: None,
        cutoff_fielder_position: None,
    };

    let res = game.resolve_fly_catch(101, 1, 108, Position::CF, Position::CF, &defense, all_safe());

    assert!(res.is_ok());
    assert_eq!(game.inning_state.out, 1);
    assert_eq!(
        game.game_result.player_fieldings,
        vec![fielding(1, (108, Position::CF), None, PlayType::CatchPlay)]
    );
    assert!(game.game_result.player_runnings.is_empty());
    assert!(game.game_result.player_pitchings.is_empty());
}

#[test]
fn ball_in_play_logs_the_fielding_play() {
    let mut game = game_state();
    game.advance_half_inning();
    let defense = DefensePlayResult {
        throw_target_base: Base::First,
        play_type: PlayType::ForcePlay,
        final_fielder_id: 103,
        final_fielder_position: Position::FB,
        cutoff_fielder_id: None,
        cutoff_fielder_position: None,
    };
    let first_play = RunnerAdvanceResult {
        throw_target_base: Base::First,
        play_type: PlayType::ForcePlay,
        ruling: Ruling::Out,
        batting_result: BattingResult::Out,
        runs_scored: 0,
        unsaved_runners: no_runners(),
    };

    game.record_ball_in_play(101, 1, Position::SS, 1, &defense, &first_play);

    assert_eq!(
        game.game_result.player_fieldings,
        vec![fielding(1, (103, Position::FB), Some((103, Position::FB)), PlayType::ForcePlay)]
    );
    assert_eq!(game.game_result.player_runnings.len(), 1);
    assert_eq!(game.inning_state.out, 1);
}

#[test]
fn double_play_logs_the_second_throw() {
    let mut game = game_state();
    game.advance_half_inning();
    game.inning_state.runners.runner_1st = Some(5);
    let first_play = RunnerAdvanceResult {
        throw_target_base: Base::Second,
        play_type: PlayType::ForcePlay,
        ruling: Ruling::Out,
        batting_result: BattingResult::Out,
        runs_scored: 0,
        unsaved_runners: saberbb::running::RunnersUnsaved {
            runner_1st: Some(1),
            runner_2nd: None,
            runner_3rd: None,
        },
    };
    let second_throw = DoublePlayDefensePlayResult {
        throw_target_base: Base::First,
        thrower_fielder_id: 104,
        thrower_fielder_position: Position::SB,
        final_fielder_id: 103,
        final_fielder_position: Position::FB,
    };
    let none_safe = saberbb::running::SafeAtTarget {
        batter: false,
        from_first: false,
        from_second: false,
        from_third: false,
    };

    let res = game.try_double_play(101, 1, Position::SS, 2, Some(second_throw), &first_play, none_safe);

    assert_eq!(
        game.game_result.player_fieldings,
        vec![fielding(2, (104, Position::SB), Some((103, Position::FB)), PlayType::ForcePlay)]
    );
    match res {
        Ok(true) => {
            let running = game.game_result.player_runnings.last().unwrap();
            assert_eq!(running.event, RunningEvent::DoublePlay);
            assert_eq!(running.seq, 2);
        },
        Err(_) => assert!(game.game_result.player_runnings.is_empty()),
        Ok(false) => panic!("a second throw was given"),
    }
}
