use vstd::prelude::*;
use crate::game::BattingResult;
use crate::player::{PlayerInfo, Position};

verus! {

/// A fielder's stint at a position, with the player named.
#[derive(Clone, Debug)]
pub struct ActiveFielderView {
    pub start_count_seq: u16,
    pub end_count_seq: u16,
    pub team_id: u16,
    pub position: Position,
    pub player: PlayerInfo,
}

impl ActiveFielderView {
    /// Whether this stint has the team's `position` filled at count `count_seq`.
    pub fn is_position(&self, team_id: u16, position: Position, count_seq: u16) -> (b: bool)
        ensures
            b == (self.team_id == team_id && self.position == position && self.start_count_seq
                <= count_seq && self.end_count_seq >= count_seq),
    {
        self.team_id == team_id && self.position == position && self.start_count_seq <= count_seq
            && self.end_count_seq >= count_seq
    }
}

/// The result of a count, with the players named.
#[derive(Clone, Debug)]
pub struct BattingResultView {
    pub count_seq: u16,
    pub pitcher: PlayerInfo,
    pub batter: PlayerInfo,
    pub result: BattingResult,
}

impl BattingResultView {
    pub fn is(&self, count_seq: u16) -> (b: bool)
        ensures
            b == (self.count_seq == count_seq),
    {
        self.count_seq == count_seq
    }
}

/// A fielder's stint at a position, by player id.
#[derive(Clone, Copy, PartialEq, Eq, Structural, Debug)]
pub struct ActiveFielderHistory {
    pub start_count_seq: u16,
    pub end_count_seq: u16,
    pub team_id: u16,
    pub position: Position,
    pub player_id: i64,
}

impl ActiveFielderHistory {
    pub fn new(start_count_seq: u16, end_count_seq: u16, team_id: u16, position: Position, player_id: i64) -> (h:
        Self)
        ensures
            h == (ActiveFielderHistory { start_count_seq, end_count_seq, team_id, position, player_id }),
    {
        Self { start_count_seq, end_count_seq, team_id, position, player_id }
    }
}

/// The result of a count, by player id.
#[derive(Clone, Copy, PartialEq, Eq, Structural, Debug)]
pub struct BattingResultHistory {
    pub count_seq: u16,
    pub pitcher_id: i64,
    pub batter_id: i64,
    pub result: BattingResult,
}

impl BattingResultHistory {
    /// An empty record: count 0, no players, an out.
    pub fn new() -> (h: Self)
        ensures
            h == (BattingResultHistory { count_seq: 0, pitcher_id: 0, batter_id: 0, result: BattingResult::Out }),
    {
        Self { count_seq: 0, pitcher_id: 0, batter_id: 0, result: BattingResult::Out }
    }
}

} // verus!
