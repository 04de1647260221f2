pub mod ball;
pub mod batting;
pub mod batting_strategy;
pub mod cursor;
pub mod fielding;
pub mod game;
pub mod game_history;
pub mod game_state;
pub mod game_stats;
pub mod i18n;
pub mod pitch_call;
pub mod pitching_strategy;
pub mod player;
pub mod player_factory;
pub mod presenter;
pub mod random_provider;
pub mod running;
pub mod schedule;
pub mod stadium;
pub mod stats;
pub mod team;
pub mod throw_target_rules;
pub mod types;
pub mod util;
pub mod utils;
