use saberbb::game::{GameType, TOTAL_GAMES};
use saberbb::schedule::{next_playable_date, schedule_league, GameSchedule, GameSeason, ScheduleError};
use saberbb::team::{League, Team};

/// 2026-04-01 as a day number, January 1 of year 1 being day 1.
const APRIL_1_2026: i32 = 739_707;
const APRIL_6_2026: i32 = 739_712;
const APRIL_7_2026: i32 = 739_713;
const APRIL_12_2026: i32 = 739_718;

fn league(id: u16, first_team_id: u16) -> League {
    League {
        id,
        name: format!("League{id}"),
        teams: (first_team_id..first_team_id + 6)
            .map(|team_id| Team::min(team_id, &format!("Team{team_id}")))
            .collect(),
    }
}

fn season() -> GameSeason {
    GameSeason { start_date: APRIL_1_2026, season: 2026 }
}

fn team_game_count(schedules: &[GameSchedule], team_id: u16) -> usize {
    schedules
        .iter()
        .filter(|schedule| schedule.home_team.id == team_id || schedule.away_team.id == team_id)
        .count()
}

#[test]
fn schedule_season_saves_regular_games_for_loaded_season() {
    let schedules = schedule_league(&league(1, 1), &season()).unwrap();

    assert!(!schedules.is_empty());
    for schedule in &schedules {
        assert_eq!(schedule.id, 0);
        assert_eq!(schedule.season, 2027); // 2026 + 1
        assert!(matches!(schedule.game_type, GameType::Regular));
    }
}

#[test]
fn schedule_season_reaches_required_games_per_team() {
    let schedules = schedule_league(&league(1, 1), &season()).unwrap();

    for team_id in 1..=6 {
        let count = team_game_count(&schedules, team_id);
        assert!(count >= TOTAL_GAMES as usize);
        assert!(count <= TOTAL_GAMES as usize + 2);
    }
}

#[test]
fn schedule_season_generates_three_game_series() {
    let schedules = schedule_league(&league(1, 1), &season()).unwrap();

    let first_round: Vec<_> = schedules.iter().filter(|schedule| schedule.round_seq == 1).collect();
    assert_eq!(first_round.len(), 9);
    assert_eq!(
        first_round.iter().map(|schedule| schedule.seq).collect::<Vec<_>>(),
        vec![1, 1, 1, 2, 2, 2, 3, 3, 3]
    );
}

#[test]
fn schedule_season_skips_monday_start_date() {
    let game_season = GameSeason { start_date: APRIL_6_2026, season: 2026 };

    let schedules = schedule_league(&league(1, 1), &game_season).unwrap();

    assert_eq!(schedules[0].planned_date, APRIL_7_2026);
}

#[test]
fn schedule_season_saves_once_for_each_league() {
    let first = schedule_league(&league(1, 1), &season()).unwrap();
    let second = schedule_league(&league(2, 101), &season()).unwrap();

    assert!(first.iter().all(|schedule| schedule.home_team.id < 100 && schedule.away_team.id < 100));
    assert!(second.iter().all(|schedule| schedule.home_team.id >= 100 && schedule.away_team.id >= 100));
}

#[test]
#[should_panic]
fn schedule_season_panics_for_empty_league() {
    let empty_league = League { id: 1, name: "Empty".into(), teams: Vec::new() };

    schedule_league(&empty_league, &season()).unwrap();
}

#[test]
fn next_playable_date_keeps_non_monday_date() {
    assert_eq!(next_playable_date(APRIL_7_2026), APRIL_7_2026);
    assert_eq!(next_playable_date(APRIL_12_2026), APRIL_12_2026);
}

#[test]
fn next_playable_date_moves_monday_to_tuesday() {
    assert_eq!(next_playable_date(APRIL_6_2026), APRIL_7_2026);
}

#[test]
fn single_team_league_is_refused() {
    let lonely = League { id: 9, name: "One".into(), teams: vec![Team::min(1, "Solo")] };

    assert!(matches!(schedule_league(&lonely, &season()), Err(ScheduleError::TooFewTeams(9))));
}

#[test]
fn home_and_away_swap_between_rounds() {
    let schedules = schedule_league(&league(1, 1), &season()).unwrap();
    let first: Vec<_> = schedules.iter().filter(|s| s.round_seq == 1 && s.seq == 1).collect();
    // Round 1: the fixed first team meets the middle of the others, and plays away.
    assert_eq!(first[0].away_team.id, 1);
    assert_eq!(first[0].home_team.id, 4);
    let second: Vec<_> = schedules.iter().filter(|s| s.round_seq == 2 && s.seq == 1).collect();
    assert_eq!(second[0].home_team.id, 1);
}

#[test]
fn rounds_start_three_days_apart_skipping_mondays() {
    let schedules = schedule_league(&league(1, 1), &season()).unwrap();
    // April 1, 2026 is a Wednesday: rounds start on the 1st and the 4th; the 7th is a
    // Tuesday, so the third round starts then.
    let starts: Vec<i32> = (1..=3)
        .map(|round| schedules.iter().find(|s| s.round_seq == round).unwrap().planned_date)
        .collect();
    assert_eq!(starts, vec![APRIL_1_2026, APRIL_1_2026 + 3, APRIL_1_2026 + 6]);
    let fourth = schedules.iter().find(|s| s.round_seq == 4).unwrap().planned_date;
    // April 10 (Friday), then April 13 is a Monday and moves to the 14th.
    assert_eq!(fourth, APRIL_1_2026 + 9);
    let fifth = schedules.iter().find(|s| s.round_seq == 5).unwrap().planned_date;
    assert_eq!(fifth, APRIL_1_2026 + 13);
}

fn league_of(size: u16) -> League {
    League {
        id: 9,
        name: "League9".to_string(),
        teams: (1..=size).map(|team_id| Team::min(team_id, &format!("Team{team_id}"))).collect(),
    }
}

/// Whether some team appears in two games of one date.
fn someone_plays_twice_a_day(schedules: &[GameSchedule]) -> bool {
    schedules.iter().enumerate().any(|(i, a)| {
        schedules[i + 1..].iter().any(|b| {
            a.planned_date == b.planned_date
                && (a.home_team.id == b.home_team.id
                    || a.home_team.id == b.away_team.id
                    || a.away_team.id == b.home_team.id
                    || a.away_team.id == b.away_team.id)
        })
    })
}

#[test]
fn even_sized_leagues_give_each_team_one_game_a_day() {
    for size in [2u16, 4, 6, 8] {
        let schedules = schedule_league(&league_of(size), &season()).unwrap();
        assert!(!schedules.is_empty());
        assert!(!someone_plays_twice_a_day(&schedules), "league of {size}");
    }
}

#[test]
fn odd_sized_league_has_a_team_playing_twice_a_day() {
    let schedules = schedule_league(&league_of(3), &season()).unwrap();
    assert!(someone_plays_twice_a_day(&schedules));
}

#[test]
fn even_sized_leagues_give_every_team_a_full_season() {
    for size in [2u16, 4, 6, 8] {
        let schedules = schedule_league(&league_of(size), &season()).unwrap();
        for team_id in 1..=size {
            assert_eq!(team_game_count(&schedules, team_id), 141, "league of {size}");
        }
    }
}

#[test]
fn odd_sized_league_gives_uneven_seasons() {
    let schedules = schedule_league(&league_of(3), &season()).unwrap();
    let counts: Vec<usize> = (1..=3).map(|team_id| team_game_count(&schedules, team_id)).collect();
    assert_eq!(counts, vec![117, 162, 141]);
}
