use saberbb::player::{fielder_type_for_position, FielderType, Position};
use saberbb::player_factory::{assign_position, position_for_draw, POSITION_DRAW_MAX};
use saberbb::random_provider::{RandomProvider, RealRng};
use saberbb::stats::{games_behind_halves, WinLoss};
use saberbb::team::ActivePlayer;

/// Hands out the draws it was given, then the high end of the range.
struct ScriptedRng(Vec<usize>);

impl RandomProvider for ScriptedRng {
    fn gen_range(&mut self, _low: usize, high: usize) -> usize {
        if self.0.is_empty() {
            high
        } else {
            self.0.remove(0)
        }
    }
}

fn active(batting_order: Option<u8>, fielding_position: Option<Position>) -> ActivePlayer {
    ActivePlayer {
        id: 7,
        batting_order,
        has_batter: batting_order.is_some(),
        fielding_position,
        has_fielder: fielding_position.is_some(),
        has_pitcher: false,
        has_catcher: false,
    }
}

#[test]
fn active_player_is_batter_and_fielder_by_order_and_position() {
    let dh = active(Some(3), None);
    assert!(dh.is_batter());
    assert!(!dh.is_fielder());

    let pitcher = active(None, Some(Position::P));
    assert!(!pitcher.is_batter());
    assert!(pitcher.is_fielder());

    let starter = active(Some(1), Some(Position::SS));
    assert!(starter.is_batter());
    assert!(starter.is_fielder());
}

#[test]
fn games_behind_counts_half_games_from_leader() {
    let rows = vec![
        WinLoss { wins: 80, losses: 60 },
        WinLoss { wins: 78, losses: 61 },
        WinLoss { wins: 70, losses: 70 },
        WinLoss { wins: 80, losses: 60 },
    ];

    // 2 + 1 = 3 half games is 1.5 games; 10 + 10 = 20 half games is 10 games.
    assert_eq!(games_behind_halves(&rows), vec![0, 3, 20, 0]);
}

#[test]
fn games_behind_of_lone_leader_is_zero() {
    assert_eq!(games_behind_halves(&vec![WinLoss { wins: 0, losses: 0 }]), vec![0]);
}

#[test]
fn position_for_draw_follows_weights() {
    assert_eq!(position_for_draw(FielderType::Outfielder, 1), Position::RF);
    assert_eq!(position_for_draw(FielderType::Outfielder, 32), Position::RF);
    assert_eq!(position_for_draw(FielderType::Outfielder, 33), Position::CF);
    assert_eq!(position_for_draw(FielderType::Outfielder, 64), Position::CF);
    assert_eq!(position_for_draw(FielderType::Outfielder, 65), Position::LF);
    assert_eq!(position_for_draw(FielderType::Outfielder, 96), Position::LF);
    assert_eq!(position_for_draw(FielderType::Outfielder, 97), Position::DH);
    assert_eq!(position_for_draw(FielderType::Outfielder, 100), Position::DH);

    assert_eq!(position_for_draw(FielderType::MiddleInfielder, 48), Position::SS);
    assert_eq!(position_for_draw(FielderType::MiddleInfielder, 49), Position::SB);

    assert_eq!(position_for_draw(FielderType::CornerInfielder, 50), Position::FB);
    assert_eq!(position_for_draw(FielderType::CornerInfielder, 51), Position::TB);
    assert_eq!(position_for_draw(FielderType::CornerInfielder, 90), Position::TB);
    assert_eq!(position_for_draw(FielderType::CornerInfielder, 91), Position::DH);

    assert_eq!(position_for_draw(FielderType::Pitcher, 50), Position::P);
    assert_eq!(position_for_draw(FielderType::Catcher, 50), Position::C);
}

#[test]
fn assign_position_draws_only_for_fielders_with_a_choice() {
    let mut rng = ScriptedRng(vec![40, 95]);

    assert_eq!(assign_position(&mut rng, FielderType::Pitcher), Position::P);
    assert_eq!(assign_position(&mut rng, FielderType::Catcher), Position::C);
    // The scripted draws were not used by the pitcher and catcher.
    assert_eq!(assign_position(&mut rng, FielderType::Outfielder), Position::CF);
    assert_eq!(assign_position(&mut rng, FielderType::CornerInfielder), Position::DH);
    assert_eq!(assign_position(&mut rng, FielderType::MiddleInfielder), Position::SB);
}

#[test]
fn assigned_position_is_played_by_fielder_type_or_is_designated_hitter() {
    let mut rng = RealRng::from_seed(11);
    let kinds = [
        FielderType::Outfielder,
        FielderType::MiddleInfielder,
        FielderType::CornerInfielder,
        FielderType::Pitcher,
        FielderType::Catcher,
    ];
    for _ in 0..50 {
        for kind in kinds {
            let position = assign_position(&mut rng, kind);
            assert!(position == Position::DH || fielder_type_for_position(position) == kind);
        }
    }
    assert_eq!(POSITION_DRAW_MAX, 100);
}
