use vstd::prelude::*;
use crate::fielding::PlayType;
use crate::game::BattingResult;
use crate::game_state::Ruling;
use crate::player::{PlayerInfo, Position};
use crate::running::RunningEvent;
use crate::stadium::Base;

verus! {

/// A player's time on the field in a stored game, with their team and batting order.
#[derive(Clone, Debug)]
pub struct PlayerGameEntryView {
    pub start_count_seq: u16,
    pub end_count_seq: u16,
    pub team_id: u16,
    pub position: Position,
    pub batting_order: u8,
    pub player: PlayerInfo,
}

impl PlayerGameEntryView {
    pub open spec fn spec_is_position(&self, team_id: u16, position: Position, count_seq: u16) -> bool {
        self.team_id == team_id && self.position == position && self.start_count_seq <= count_seq
            && self.end_count_seq >= count_seq
    }

    /// Whether this entry has the team's `position` filled at count `count_seq`.
    #[verifier::when_used_as_spec(spec_is_position)]
    pub fn is_position(&self, team_id: u16, position: Position, count_seq: u16) -> (b: bool)
        ensures
            b == self.spec_is_position(team_id, position, count_seq),
    {
        self.team_id == team_id && self.position == position && self.start_count_seq <= count_seq
            && self.end_count_seq >= count_seq
    }
}

/// A stored plate-appearance event with the players named.
#[derive(Clone, Debug)]
pub struct PlayerGameBattingView {
    pub count_seq: u16,
    pub pitcher: PlayerInfo,
    pub batter: PlayerInfo,
    pub fielder_position: Option<Position>,
    pub result: BattingResult,
}

fn duplicate_info(p: &Option<PlayerInfo>) -> (q: Option<PlayerInfo>)
    ensures
        q == *p,
{
    match p {
        Some(info) => Some(info.duplicate()),
        None => None,
    }
}

impl PlayerGameBattingView {
    /// A copy of the record.
    pub fn duplicate(&self) -> (v: Self)
        ensures
            v == *self,
    {
        PlayerGameBattingView {
            count_seq: self.count_seq,
            pitcher: self.pitcher.duplicate(),
            batter: self.batter.duplicate(),
            fielder_position: self.fielder_position,
            result: self.result,
        }
    }

    pub open spec fn spec_is(&self, count_seq: u16) -> bool {
        self.count_seq == count_seq
    }

    #[verifier::when_used_as_spec(spec_is)]
    pub fn is(&self, count_seq: u16) -> (b: bool)
        ensures
            b == self.spec_is(count_seq),
    {
        self.count_seq == count_seq
    }
}

/// A stored running play with the runners named.
#[derive(Clone, Debug)]
pub struct PlayerGameRunningView {
    pub count_seq: u16,
    pub seq: u8,
    pub throw_target_base: Base,
    pub target_runner: Option<PlayerInfo>,
    pub event: RunningEvent,
    pub play_type: PlayType,
    pub ruling: Ruling,
    pub runs_scored: u8,
    pub runner_1st: Option<PlayerInfo>,
    pub runner_2nd: Option<PlayerInfo>,
    pub runner_3rd: Option<PlayerInfo>,
}

impl PlayerGameRunningView {
    /// A copy of the record.
    pub fn duplicate(&self) -> (v: Self)
        ensures
            v == *self,
    {
        PlayerGameRunningView {
            count_seq: self.count_seq,
            seq: self.seq,
            throw_target_base: self.throw_target_base,
            target_runner: duplicate_info(&self.target_runner),
            event: self.event,
            play_type: self.play_type,
            ruling: self.ruling,
            runs_scored: self.runs_scored,
            runner_1st: duplicate_info(&self.runner_1st),
            runner_2nd: duplicate_info(&self.runner_2nd),
            runner_3rd: duplicate_info(&self.runner_3rd),
        }
    }

    pub fn is(&self, count_seq: u16, seq: u8) -> (b: bool)
        ensures
            b == (self.count_seq == count_seq && self.seq == seq),
    {
        self.count_seq == count_seq && self.seq == seq
    }
}

/// A player's time on the field in a game being played; the end is open until the game ends.
#[derive(Clone, Copy, PartialEq, Eq, Structural, Debug)]
pub struct PlayerGameEntry {
    pub start_count_seq: u16,
    pub end_count_seq: Option<u16>,
    pub position: Position,
    pub player_id: i64,
}

impl PlayerGameEntry {
    pub fn new(start_count_seq: u16, end_count_seq: Option<u16>, position: Position, player_id: i64) -> (e:
        Self)
        ensures
            e.start_count_seq == start_count_seq,
            e.end_count_seq == end_count_seq,
            e.position == position,
            e.player_id == player_id,
    {
        Self { start_count_seq, end_count_seq, position, player_id }
    }
}

/// The pitcher on the mound at a count.
#[derive(Clone, Copy, PartialEq, Eq, Structural, Debug)]
pub struct PlayerGamePitching {
    pub count_seq: u16,
    pub pitcher_id: i64,
}

/// What a pitch or batted ball amounted to for the batter.
#[derive(Clone, Copy, PartialEq, Eq, Structural, Debug)]
pub struct PlayerGameBatting {
    pub count_seq: u16,
    pub pitcher_id: i64,
    pub batter_id: i64,
    pub fielder_position: Option<Position>,
    pub result: BattingResult,
}

/// A fielding play: who caught the ball, who relayed it, who took the throw.
#[derive(Clone, Copy, PartialEq, Eq, Structural, Debug)]
pub struct PlayerGameFielding {
    pub count_seq: u16,
    pub seq: u8,
    pub catch_fielder_id: i64,
    pub catch_fielder_position: Position,
    pub cutoff_fielder_id: Option<i64>,
    pub cutoff_fielder_position: Option<Position>,
    pub final_fielder_id: Option<i64>,
    pub final_fielder_position: Option<Position>,
    pub play_type: PlayType,
}

/// A running play and the runners left on base after it.
#[derive(Clone, Copy, PartialEq, Eq, Structural, Debug)]
pub struct PlayerGameRunning {
    pub count_seq: u16,
    pub seq: u8,
    pub throw_target_base: Base,
    pub target_runner_id: Option<i64>,
    pub event: RunningEvent,
    pub play_type: PlayType,
    pub ruling: Ruling,
    pub runs_scored: u8,
    pub runner_1st_id: Option<i64>,
    pub runner_2nd_id: Option<i64>,
    pub runner_3rd_id: Option<i64>,
}

} // verus!
