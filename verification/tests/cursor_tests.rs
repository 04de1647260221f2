use saberbb::cursor::GameCursor;
use saberbb::game::{BattingResult, Count, GameDetail, GameType, Inning, TB};
use saberbb::game_stats::{PlayerGameBattingView, PlayerGameEntryView};
use saberbb::player::{Player, PlayerInfo, Position};
use saberbb::team::Team;

/// 2026-07-20 as a day number, January 1 of year 1 being day 1.
const GAME_DAY: i32 = 739_817;

fn game_detail(innings: Vec<Inning>) -> GameDetail {
    GameDetail {
        id: 1,
        actual_date: GAME_DAY,
        away_team: Team::min(1, "away"),
        home_team: Team::min(2, "home"),
        game_type: GameType::Exhibition,
        innings,
        away_points: 0,
        home_points: 0,
        player_entries: Vec::new(),
        player_battings: Vec::new(),
        player_runnings: Vec::new(),
    }
}

fn inning(seq: u8, tb: TB, count_seqs: &[u16]) -> Inning {
    Inning {
        seq,
        tb,
        counts: count_seqs
            .iter()
            .map(|seq| Count { seq: *seq, point: 0, ball: 0, strike: 0, out: 0 })
            .collect(),
    }
}

fn player(id: i64) -> Player {
    Player::from_player_info(PlayerInfo::new_min(id, format!("First{id}"), format!("Last{id}")))
}

fn player_entry(team_id: u16, batting_order: u8, player_id: i64) -> PlayerGameEntryView {
    PlayerGameEntryView {
        start_count_seq: 1,
        end_count_seq: 3,
        team_id,
        position: Position::DH,
        batting_order,
        player: PlayerInfo::new_min(player_id, format!("First{player_id}"), format!("Last{player_id}")),
    }
}

fn batting_view(count_seq: u16, batter_id: i64) -> PlayerGameBattingView {
    PlayerGameBattingView {
        count_seq,
        pitcher: PlayerInfo::new_min(1, "Pitcher".to_string(), "One".to_string()),
        batter: PlayerInfo::new_min(batter_id, format!("First{batter_id}"), format!("Last{batter_id}")),
        fielder_position: None,
        result: BattingResult::Single,
    }
}

#[test]
fn next_moves_to_first_game_wide_count_seq_in_next_inning() {
    let mut cursor = GameCursor::new(game_detail(vec![
        inning(1, TB::Top, &[1, 2]),
        inning(1, TB::Bottom, &[3, 4]),
    ]));
    cursor.count_seq = 2;

    cursor.next();

    assert_eq!(cursor.inning_seq, 1);
    assert_eq!(cursor.inning_tb, TB::Bottom);
    assert_eq!(cursor.count_seq, 3);
}

#[test]
fn prev_moves_to_last_game_wide_count_seq_in_previous_inning() {
    let mut cursor = GameCursor::new(game_detail(vec![
        inning(1, TB::Top, &[1, 2]),
        inning(1, TB::Bottom, &[3, 4]),
    ]));
    cursor.inning_tb = TB::Bottom;
    cursor.count_seq = 3;

    cursor.prev();

    assert_eq!(cursor.inning_seq, 1);
    assert_eq!(cursor.inning_tb, TB::Top);
    assert_eq!(cursor.count_seq, 2);
}

#[test]
fn next_stays_on_last_game_wide_count_seq_in_current_inning() {
    let mut cursor = GameCursor::new(game_detail(vec![inning(1, TB::Bottom, &[3, 4])]));
    cursor.inning_tb = TB::Bottom;
    cursor.count_seq = 4;

    cursor.next();

    assert_eq!(cursor.inning_seq, 1);
    assert_eq!(cursor.inning_tb, TB::Bottom);
    assert_eq!(cursor.count_seq, 4);
}

#[test]
fn next_does_not_enter_empty_skipped_bottom_inning() {
    let mut game = game_detail(vec![inning(9, TB::Top, &[17, 18]), inning(9, TB::Bottom, &[])]);
    game.away_points = 1;
    game.home_points = 2;
    let mut cursor = GameCursor::new(game);
    cursor.inning_seq = 9;
    cursor.count_seq = 18;

    cursor.next();

    assert_eq!(cursor.inning_seq, 9);
    assert_eq!(cursor.inning_tb, TB::Top);
    assert_eq!(cursor.count_seq, 18);
    assert!(cursor.is_last_bottom_inning_skiped);
}

#[test]
fn current_batter_uses_exact_batting_view_when_available() {
    let mut game = game_detail(vec![inning(1, TB::Top, &[1, 2, 3])]);
    game.away_team.players = vec![player(10), player(11)];
    game.player_battings = vec![batting_view(1, 10), batting_view(3, 11)];
    let mut cursor = GameCursor::new(game);
    cursor.count_seq = 3;

    let batter = cursor.current_batter().unwrap();

    assert_eq!(batter.info.id, 11);
    assert_eq!(cursor.current_batting_view().unwrap().count_seq, 3);
}

#[test]
fn current_batter_falls_back_to_most_recent_batting_view() {
    let mut game = game_detail(vec![inning(1, TB::Top, &[1, 2])]);
    game.away_team.players = vec![player(10)];
    game.player_battings = vec![batting_view(1, 10)];
    let mut cursor = GameCursor::new(game);
    cursor.count_seq = 2;

    let batter = cursor.current_batter().unwrap();

    assert_eq!(batter.info.id, 10);
    assert!(matches!(
        cursor.current_batting_result(),
        Err(saberbb::cursor::GameViewError::CurrentBattingResult)
    ));
    assert!(cursor.current_batting_view().is_none());
}

#[test]
fn current_batting_stats_returns_battings_up_to_current_count() {
    let mut game = game_detail(vec![inning(1, TB::Top, &[1, 2, 3])]);
    game.player_battings = vec![batting_view(1, 10), batting_view(2, 11), batting_view(3, 12)];
    let mut cursor = GameCursor::new(game);
    cursor.count_seq = 2;

    let stats = cursor.current_batting_stats();

    assert_eq!(stats.len(), 2);
    assert_eq!(stats[0].batter.id, 10);
    assert_eq!(stats[1].batter.id, 11);
}

#[test]
fn current_batting_stats_for_team_lists_opening_lineup_and_updates_by_count() {
    let mut game = game_detail(vec![inning(1, TB::Top, &[1, 2, 3])]);
    game.player_entries = vec![player_entry(1, 1, 10), player_entry(1, 2, 11)];
    game.player_battings = vec![batting_view(1, 10), batting_view(2, 11)];
    let mut cursor = GameCursor::new(game);
    cursor.count_seq = 1;

    let stats = cursor.current_batting_stats_for_team(1);

    assert_eq!(stats.len(), 2);
    assert_eq!(stats[0].player.id, 10);
    assert_eq!(stats[0].position, Position::DH);
    assert_eq!(stats[0].plate_appearances, 1);
    assert_eq!(stats[0].hits, 1);
    assert_eq!(stats[1].player.id, 11);
    assert_eq!(stats[1].plate_appearances, 0);
    assert_eq!(stats[1].hits, 0);

    cursor.count_seq = 2;
    let stats = cursor.current_batting_stats_for_team(1);

    assert_eq!(stats[1].plate_appearances, 1);
    assert_eq!(stats[1].hits, 1);
}

fn scored_inning(seq: u8, tb: TB, counts: &[(u16, u8)]) -> Inning {
    Inning {
        seq,
        tb,
        counts: counts
            .iter()
            .map(|(seq, point)| Count { seq: *seq, point: *point, ball: 0, strike: 0, out: 0 })
            .collect(),
    }
}

#[test]
fn scoreboard_counts_runs_up_to_the_cursor() {
    let game = game_detail(vec![
        scored_inning(1, TB::Top, &[(1, 1), (2, 2)]),
        scored_inning(1, TB::Bottom, &[(3, 0), (4, 3), (5, 1)]),
        scored_inning(2, TB::Top, &[(6, 4)]),
    ]);
    let mut cursor = GameCursor::new(game);
    cursor.inning_tb = TB::Bottom;
    cursor.count_seq = 4;

    let board = cursor.current_scoreboard();

    assert_eq!(board.away_innning_points, vec![3]);
    assert_eq!(board.home_innning_points, vec![3]);
    assert_eq!(board.away_total_point, 3);
    assert_eq!(board.home_total_point, 3);
    assert_eq!(board.max_inning_num, 2);
    assert_eq!(board.away_team_name, "away");
}

#[test]
fn scoreboard_takes_in_every_inning_when_the_cursor_is_off_the_record() {
    let game = game_detail(vec![
        scored_inning(1, TB::Top, &[(1, 1)]),
        scored_inning(1, TB::Bottom, &[(2, 2)]),
    ]);
    let mut cursor = GameCursor::new(game);
    cursor.count_seq = 99;

    let board = cursor.current_scoreboard();

    assert_eq!(board.away_innning_points, vec![1]);
    assert_eq!(board.home_innning_points, vec![2]);
    assert_eq!(board.away_total_point + board.home_total_point, 3);
}

#[test]
fn batting_stats_count_walks_and_strikeouts() {
    let mut game = game_detail(vec![inning(1, TB::Top, &[1, 2, 3, 4])]);
    game.player_entries = vec![player_entry(1, 1, 10)];
    let mut walk = batting_view(1, 10);
    walk.result = BattingResult::Walk;
    let mut strikeout = batting_view(2, 10);
    strikeout.result = BattingResult::Strikeout;
    let mut homer = batting_view(3, 10);
    homer.result = BattingResult::HomeRun;
    let mut take = batting_view(4, 10);
    take.result = BattingResult::Take;
    game.player_battings = vec![walk, strikeout, homer, take];
    let mut cursor = GameCursor::new(game);
    cursor.count_seq = 4;

    let stats = cursor.current_batting_stats_for_team(1);

    assert_eq!(stats.len(), 1);
    assert_eq!(stats[0].plate_appearances, 3);
    assert_eq!(stats[0].at_bats, 2);
    assert_eq!(stats[0].hits, 1);
    assert_eq!(stats[0].home_runs, 1);
}

#[test]
fn current_position_reads_the_fielding_team() {
    let mut game = game_detail(vec![inning(1, TB::Top, &[1, 2])]);
    game.home_team.players = vec![player(20)];
    let mut pitcher_entry = player_entry(2, 0, 20);
    pitcher_entry.position = Position::P;
    game.player_entries = vec![pitcher_entry];
    let mut cursor = GameCursor::new(game);

    assert_eq!(cursor.current_pitcher().unwrap().info.id, 20);
    assert!(cursor.current_catcher().is_err());
    cursor.inning_tb = TB::Bottom;
    assert!(cursor.current_pitcher().is_err());
}

#[test]
fn stepping_through_a_game_and_back_visits_every_count_in_order() {
    // Innings stored out of order, with an empty half inning in between.
    let mut cursor = GameCursor::new(game_detail(vec![
        inning(2, TB::Top, &[5, 6]),
        inning(1, TB::Top, &[1, 2]),
        inning(1, TB::Bottom, &[]),
        inning(2, TB::Bottom, &[7]),
    ]));
    cursor.count_seq = 1;

    let mut forward = vec![(cursor.inning_seq, cursor.inning_tb, cursor.count_seq)];
    for _ in 0..6 {
        cursor.next();
        forward.push((cursor.inning_seq, cursor.inning_tb, cursor.count_seq));
    }
    assert_eq!(
        forward,
        vec![
            (1, TB::Top, 1),
            (1, TB::Top, 2),
            (2, TB::Top, 5),
            (2, TB::Top, 6),
            (2, TB::Bottom, 7),
            (2, TB::Bottom, 7),
            (2, TB::Bottom, 7),
        ]
    );

    let mut backward = Vec::new();
    for _ in 0..4 {
        cursor.prev();
        backward.push((cursor.inning_seq, cursor.inning_tb, cursor.count_seq));
    }
    assert_eq!(
        backward,
        vec![(2, TB::Top, 6), (2, TB::Top, 5), (1, TB::Top, 2), (1, TB::Top, 1)]
    );
}
