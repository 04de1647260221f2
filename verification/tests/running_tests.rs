use saberbb::fielding::PlayType;
use saberbb::game::BattingResult;
use saberbb::game_state::{GameError, Ruling};
use saberbb::player::RL;
use saberbb::running::{advance_count, RunnersOnBase, RunnersUnsaved, RunningPlan, SafeAtTarget};
use saberbb::stadium::Base;

fn runners(
    batting_side: RL,
    batter_runner: Option<i64>,
    runner_1st: Option<i64>,
    runner_2nd: Option<i64>,
    runner_3rd: Option<i64>,
) -> RunnersOnBase {
    RunnersOnBase { batting_side: Some(batting_side), batter_runner, runner_1st, runner_2nd, runner_3rd }
}

fn all(safe: bool) -> SafeAtTarget {
    SafeAtTarget { batter: safe, from_first: safe, from_second: safe, from_third: safe }
}

#[test]
fn after_homerun_scores_all_occupied_bases_and_clears_runners() {
    let mut runners = runners(RL::Left, Some(10), Some(11), Some(12), Some(13));

    let runs_scored = runners.after_homerun();

    assert_eq!(runs_scored, 4);
    assert!(runners.batting_side.is_none());
    assert!(runners.batter_runner.is_none());
    assert!(runners.runner_1st.is_none());
    assert!(runners.runner_2nd.is_none());
    assert!(runners.runner_3rd.is_none());
}

#[test]
fn after_infield_grounder_safe_at_first_records_single_and_forced_advances() {
    let runners = runners(RL::Left, Some(10), Some(11), Some(12), Some(13));

    let result = runners.after_infield_grounder(Base::First, PlayType::ForcePlay, all(true)).unwrap();

    assert_eq!(result.ruling, Ruling::Safe);
    assert_eq!(result.batting_result, BattingResult::Single);
    assert_eq!(result.runs_scored, 1);
    assert!(result.unsaved_runners.runner_1st.is_some());
    assert!(result.unsaved_runners.runner_2nd.is_some());
    assert!(result.unsaved_runners.runner_3rd.is_some());
}

#[test]
fn after_infield_grounder_out_at_home_keeps_force_advances_without_scoring() {
    let runners = runners(RL::Left, Some(10), Some(11), Some(12), Some(13));

    let result = runners.after_infield_grounder(Base::Home, PlayType::ForcePlay, all(false)).unwrap();

    assert_eq!(result.ruling, Ruling::Out);
    assert_eq!(result.batting_result, BattingResult::Out);
    assert_eq!(result.runs_scored, 0);
    assert!(result.unsaved_runners.runner_1st.is_some());
    assert!(result.unsaved_runners.runner_2nd.is_some());
    assert!(result.unsaved_runners.runner_3rd.is_some());
}

#[test]
fn after_outfield_hit_late_fielding_attempts_double_and_scores_existing_runners() {
    let runners = runners(RL::Left, Some(10), Some(11), Some(12), Some(13));
    // Fielded after the batter reached first: the batter tries for second.
    let plan = RunningPlan::set(false, true);

    let result = runners.after_outfield_hit(plan, Base::Second, PlayType::TouchPlay, all(true)).unwrap();

    assert_eq!(result.ruling, Ruling::Safe);
    assert_eq!(result.batting_result, BattingResult::Double);
    assert_eq!(result.runs_scored, 3);
    assert!(result.unsaved_runners.runner_1st.is_none());
    assert_eq!(result.unsaved_runners.runner_2nd, Some(10));
    assert!(result.unsaved_runners.runner_3rd.is_none());
}

#[test]
fn after_outfield_hit_batter_out_still_scores_existing_runner_from_third() {
    let runners = runners(RL::Left, Some(10), Some(11), None, Some(13));
    // Fielded before the batter reached first: a single, and the throw beats him there.
    let plan = RunningPlan::set(false, false);

    let result = runners.after_outfield_hit(plan, Base::First, PlayType::ForcePlay, all(false)).unwrap();

    assert_eq!(result.ruling, Ruling::Out);
    assert_eq!(result.batting_result, BattingResult::Out);
    assert_eq!(result.runs_scored, 1);
    assert!(result.unsaved_runners.runner_1st.is_none());
    assert_eq!(result.unsaved_runners.runner_2nd, Some(11));
    assert!(result.unsaved_runners.runner_3rd.is_none());
}

#[test]
fn after_tagup_safe_at_home_scores_and_holds_other_runners() {
    let runners = runners(RL::Left, Some(10), Some(11), Some(12), Some(13));

    let result = runners.after_tagup(Base::Home, PlayType::TouchPlay, all(true)).unwrap();

    assert_eq!(result.ruling, Ruling::Safe);
    assert_eq!(result.batting_result, BattingResult::Out);
    assert_eq!(result.runs_scored, 1);
    assert!(result.unsaved_runners.runner_1st.is_some());
    assert!(result.unsaved_runners.runner_2nd.is_some());
    assert!(result.unsaved_runners.runner_3rd.is_none());
}

#[test]
fn after_double_play_removes_runner_when_second_throw_wins() {
    let runners = runners(RL::Left, Some(10), Some(11), None, None);
    let previous_unsaved = RunnersUnsaved { runner_1st: None, runner_2nd: Some(11), runner_3rd: None };

    let result = runners.after_double_play(Base::Second, previous_unsaved, all(false)).unwrap();

    assert_eq!(result.ruling, Ruling::Out);
    assert!(result.unsaved_runners.runner_2nd.is_none());
}

#[test]
fn after_double_play_rejects_home_target() {
    let runners = runners(RL::Left, Some(10), None, None, None);

    assert!(matches!(
        runners.after_double_play(Base::Home, RunnersUnsaved::empty_bases(), all(true)),
        Err(GameError::DoublePlayTargetBase)
    ));
}

#[test]
fn after_base_stealing_safe_to_second_moves_runner() {
    let mut runners = runners(RL::Left, None, Some(11), None, None);

    let result = runners.after_base_stealing(Base::Second, all(true)).unwrap();

    assert_eq!(result.ruling, Ruling::Safe);
    assert!(runners.runner_1st.is_none());
    assert!(runners.runner_2nd.is_some());
}

#[test]
fn after_base_stealing_out_to_third_keeps_runner_on_second() {
    let mut runners = runners(RL::Left, None, None, Some(12), None);

    let result = runners.after_base_stealing(Base::Third, all(false)).unwrap();

    assert_eq!(result.ruling, Ruling::Out);
    assert!(runners.runner_2nd.is_some());
    assert!(runners.runner_3rd.is_none());
}

#[test]
fn after_base_stealing_rejects_unsupported_target() {
    let mut runners = runners(RL::Left, None, Some(11), None, None);

    assert!(matches!(runners.after_base_stealing(Base::Home, all(true)), Err(GameError::StealTargetBase)));
}

#[test]
fn grounder_runners_and_outs_account_for_everyone() {
    let runners = runners(RL::Right, Some(10), Some(11), None, Some(13));
    for target in [Base::First, Base::Second, Base::Home] {
        for safe in [true, false] {
            let result = runners.after_infield_grounder(target, PlayType::ForcePlay, all(safe)).unwrap();
            let on_base = [
                result.unsaved_runners.runner_1st,
                result.unsaved_runners.runner_2nd,
                result.unsaved_runners.runner_3rd,
            ]
            .iter()
            .filter(|r| r.is_some())
            .count();
            let outs = if result.ruling == Ruling::Out { 1 } else { 0 };
            assert_eq!(on_base + usize::from(result.runs_scored) + outs, 3);
        }
    }
}

#[test]
fn grounder_throw_to_empty_base_is_refused() {
    let runners = runners(RL::Right, Some(10), None, None, None);
    assert!(matches!(
        runners.after_infield_grounder(Base::Third, PlayType::ForcePlay, all(true)),
        Err(GameError::Runner2nd)
    ));
}

#[test]
fn walk_with_bases_loaded_forces_in_a_run() {
    let mut runners = runners(RL::Right, Some(10), Some(11), Some(12), Some(13));
    assert_eq!(runners.after_walk(), 1);
    assert_eq!(runners.runner_1st, Some(10));
    assert_eq!(runners.runner_2nd, Some(11));
    assert_eq!(runners.runner_3rd, Some(12));
}

#[test]
fn advance_count_measures_paths() {
    assert_eq!(advance_count(Base::Home, Base::Third).unwrap(), 3);
    assert_eq!(advance_count(Base::First, Base::Home).unwrap(), 3);
    assert!(matches!(advance_count(Base::Second, Base::First), Err(GameError::UnsupportedPath)));
    assert!(matches!(advance_count(Base::Home, Base::Home), Err(GameError::UnsupportedPath)));
}

#[test]
fn runner_on_reports_the_missing_runner() {
    let runners = runners(RL::Right, Some(10), None, Some(12), None);
    assert_eq!(runners.runner_on(Base::Home).unwrap(), 10);
    assert_eq!(runners.runner_on(Base::Second).unwrap(), 12);
    assert!(matches!(runners.runner_on(Base::First), Err(GameError::Runner1st)));
    assert!(matches!(runners.runner_on(Base::Third), Err(GameError::Runner3rd)));
}
