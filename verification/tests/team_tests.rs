use saberbb::game_state::GameError;
use saberbb::player::{FielderType, Player, PlayerInfo, Position};
use saberbb::random_provider::{RandomProvider, RealRng};
use saberbb::team::Team;

/// Always draws the low end of the range.
struct LowRng;

impl RandomProvider for LowRng {
    fn gen_range(&mut self, low: usize, _high: usize) -> usize {
        low
    }
}

/// An order key for a swing speed: a faster swing gets a larger key.
fn swing_key(speed: f64) -> u64 {
    let bits = speed.to_bits();
    if bits >> 63 == 1 {
        !bits
    } else {
        bits | (1 << 63)
    }
}

fn player(id: i64, position: Position, batting_order: Option<u8>) -> Player {
    let speed = match batting_order {
        Some(order) => 200.0 - f64::from(order),
        None => 150.0,
    };
    Player {
        info: PlayerInfo::new_min(id, format!("First{id}"), format!("Last{id}")),
        position,
        batter: if position != Position::P { Some(swing_key(speed)) } else { None },
        has_pitcher: position == Position::P,
        has_catcher: position == Position::C,
        has_middle_infielder: matches!(position, Position::SB | Position::SS),
        has_corner_infielder: matches!(position, Position::FB | Position::TB),
        has_outfielder: matches!(position, Position::LF | Position::CF | Position::RF),
    }
}

fn team_with_positions(positions: Vec<Position>) -> Team {
    Team {
        id: 1,
        name: "Test".into(),
        players: positions
            .into_iter()
            .enumerate()
            .map(|(index, position)| player(index as i64 + 1, position, None))
            .collect(),
    }
}

const NINE: [Position; 9] = [
    Position::P,
    Position::C,
    Position::FB,
    Position::SB,
    Position::TB,
    Position::SS,
    Position::LF,
    Position::CF,
    Position::RF,
];

#[test]
fn lineup_prefers_dedicated_dh() {
    let mut positions = NINE.to_vec();
    positions.push(Position::DH);
    positions.push(Position::RF);
    let mut team = team_with_positions(positions);
    let mut rng = LowRng;

    let lineup = team.lineup(&mut rng).unwrap();
    let dh = lineup
        .players
        .iter()
        .find(|player| player.fielding_position.is_none())
        .unwrap();

    assert_eq!(dh.id, 10);
    assert_eq!(lineup.batters().len(), 9);
    assert_eq!(lineup.fielders().len(), 9);
}

#[test]
fn lineup_uses_bench_batter_when_dedicated_dh_is_missing() {
    let mut positions = NINE.to_vec();
    positions.push(Position::RF);
    let mut team = team_with_positions(positions);
    let mut rng = LowRng;

    let lineup = team.lineup(&mut rng).unwrap();
    let dh = lineup
        .players
        .iter()
        .find(|player| player.fielding_position.is_none())
        .unwrap();

    assert_eq!(dh.id, 10);
    assert_eq!(lineup.batters().len(), 9);
    assert_eq!(lineup.fielders().len(), 9);
}

#[test]
fn lineup_fails_without_a_catcher() {
    let positions: Vec<Position> = NINE.iter().copied().filter(|p| *p != Position::C).collect();
    let mut team = team_with_positions(positions);

    match team.lineup(&mut LowRng) {
        Err(GameError::NoPlayerFor(key)) => assert_eq!(key, "c"),
        other => panic!("unexpected {other:?}"),
    }
}

#[test]
fn lineup_fails_without_any_designated_hitter() {
    let mut team = team_with_positions(NINE.to_vec());

    match team.lineup(&mut LowRng) {
        Err(GameError::NoPlayerFor(key)) => assert_eq!(key, "dh"),
        other => panic!("unexpected {other:?}"),
    }
}

#[test]
fn lineup_reports_missing_fielding_record() {
    let mut positions = NINE.to_vec();
    positions.push(Position::DH);
    let mut team = team_with_positions(positions);
    team.players[3].has_middle_infielder = false;

    assert!(matches!(team.lineup(&mut LowRng), Err(GameError::FielderInfo)));
}

#[test]
fn lineup_reports_dedicated_dh_without_batting_record() {
    let mut positions = NINE.to_vec();
    positions.push(Position::DH);
    let mut team = team_with_positions(positions);
    team.players[9].batter = None;

    assert!(matches!(team.lineup(&mut LowRng), Err(GameError::BatterInfo)));
}

#[test]
fn lineup_orders_batters_by_swing_speed() {
    let mut players = vec![player(1, Position::P, None)];
    let batting = [
        (Position::C, 9),
        (Position::FB, 3),
        (Position::SB, 1),
        (Position::TB, 5),
        (Position::SS, 2),
        (Position::LF, 8),
        (Position::CF, 4),
        (Position::RF, 7),
        (Position::DH, 6),
    ];
    for (index, (position, order)) in batting.iter().enumerate() {
        players.push(player(index as i64 + 2, *position, Some(*order)));
    }
    let mut team = Team { id: 3, name: "Order".into(), players };

    let lineup = team.lineup(&mut LowRng).unwrap();

    for (index, (_, order)) in batting.iter().enumerate() {
        let id = index as i64 + 2;
        let entry = lineup.players.iter().find(|p| p.id == id).unwrap();
        assert_eq!(entry.batting_order, Some(*order));
    }
    let pitcher = lineup.players.iter().find(|p| p.id == 1).unwrap();
    assert_eq!(pitcher.batting_order, None);
    let order: Vec<i64> = lineup.batters().iter().map(|b| b.id).collect();
    assert_eq!(order, vec![4, 6, 3, 8, 5, 10, 9, 7, 2]);
}

#[test]
fn lineup_with_seeded_rng_draws_from_roster() {
    let mut positions = NINE.to_vec();
    positions.extend(NINE.iter().copied());
    positions.push(Position::DH);
    let mut team = team_with_positions(positions);
    let mut rng = RealRng::from_seed(7);

    let lineup = team.lineup(&mut rng).unwrap();

    assert_eq!(lineup.players.len(), 10);
    for (slot, position) in NINE.iter().enumerate() {
        let entry = &lineup.players[slot];
        assert_eq!(entry.fielding_position, Some(*position));
        let rostered = team.players.iter().find(|p| p.info.id == entry.id).unwrap();
        assert_eq!(rostered.position, *position);
    }
    assert_eq!(lineup.players[9].id, 19);
}

#[test]
fn player_fielder_names_the_record_for_the_position() {
    assert_eq!(player(1, Position::SS, None).fielder().unwrap(), FielderType::MiddleInfielder);
    assert_eq!(player(1, Position::TB, None).fielder().unwrap(), FielderType::CornerInfielder);
    assert_eq!(player(1, Position::LF, None).fielder().unwrap(), FielderType::Outfielder);
    assert!(matches!(player(1, Position::DH, None).fielder(), Err(GameError::FielderInfo)));
    assert!(matches!(player(1, Position::SS, None).catcher(), Err(GameError::PitcherInfo)));
}
