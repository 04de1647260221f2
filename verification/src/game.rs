use vstd::prelude::*;
use crate::fielding::{DefensePlayResult, DoublePlayDefensePlayResult, PlayType};
use crate::game_stats::{
    PlayerGameBattingView, PlayerGameEntryView, PlayerGameRunningView, PlayerGameBatting, PlayerGameEntry, PlayerGameFielding, PlayerGamePitching, PlayerGameRunning,
};
use crate::player::Position;
use crate::running::{
    DoublePlayRunnerAdvanceResult, RunnerAdvanceResult, RunnersUnsaved, RunningEvent,
    StealRunnerAdvanceResult,
};
use crate::stadium::Base;
use crate::team::{ActiveFielder, Team};

verus! {

/// Number of games each team plays in a regular season.
pub const TOTAL_GAMES: u16 = 140;

/// The kind of a scheduled game.
#[derive(Clone, Copy, PartialEq, Eq, Structural, Debug)]
pub enum GameType {
    Exhibition,
    Regular,
    Postseason,
}

impl GameType {
    /// Key of the game type's name in the message catalogue.
    pub fn message_key(&self) -> (key: &'static str)
        ensures
            key@ == spec_game_type_key(*self),
    {
        proof {
            reveal_strlit("exhibition");
            reveal_strlit("regular");
            reveal_strlit("postseason");
        }
        match self {
            GameType::Exhibition => "exhibition",
            GameType::Regular => "regular",
            GameType::Postseason => "postseason",
        }
    }
}

pub open spec fn spec_game_type_key(t: GameType) -> Seq<char> {
    match t {
        GameType::Exhibition => "exhibition"@,
        GameType::Regular => "regular"@,
        GameType::Postseason => "postseason"@,
    }
}

/// Top or bottom half of an inning.
#[derive(Clone, Copy, PartialEq, Eq, Structural, Debug, Hash)]
pub enum TB {
    Top,
    Bottom,
}

/// What a pitch or a batted ball amounted to for the batter.
#[derive(Clone, Copy, PartialEq, Eq, Structural, Debug)]
pub enum BattingResult {
    Single,
    Double,
    Triple,
    HomeRun,
    Foul,
    FieldersChoice,
    Out,
    DoublePlay,
    Walk,
    HitByPitch,
    Strikeout,
    StrikeSwung,
    WildPitch,
    Take,
}

impl BattingResult {
    /// A batted ball turned into an out (strikeouts and double plays are recorded apart).
    pub fn is_out(&self) -> (b: bool)
        ensures
            b == (*self == BattingResult::Out),
    {
        match self {
            BattingResult::Out => true,
            _ => false,
        }
    }
}

/// A base as a bit position in a packed occupancy byte.
#[derive(Clone, Copy, PartialEq, Eq, Structural, Debug)]
pub enum BaseCode {
    First,
    Second,
    Third,
}

/// How a fielder handled a ball.
#[derive(Clone, Copy, PartialEq, Eq, Structural, Debug)]
pub enum FieldingResult {
    Success,
    FieldersChoice,
    Error,
}

/// The state recorded after one pitch: balls, strikes and outs, and the runs it scored.
#[derive(Clone, Copy, PartialEq, Eq, Structural, Debug)]
pub struct Count {
    pub seq: u16,
    pub point: u8,
    pub ball: u8,
    pub strike: u8,
    pub out: u8,
}

/// A half inning and the counts played in it.
#[derive(Clone, Debug)]
pub struct Inning {
    pub seq: u8,
    pub tb: TB,
    pub counts: Vec<Count>,
}

impl Inning {
    /// The placeholder half inning before the first pitch of a game.
    pub fn new() -> (i: Self)
        ensures
            i.seq == 0,
            i.tb == TB::Bottom,
            i.counts@.len() == 0,
    {
        Self { seq: 0, tb: TB::Bottom, counts: Vec::new() }
    }

    pub open spec fn spec_is(&self, seq: u8, tb: TB) -> bool {
        self.seq == seq && self.tb == tb
    }

    /// Whether this is half inning `tb` of inning `seq`.
    #[verifier::when_used_as_spec(spec_is)]
    pub fn is(&self, seq: u8, tb: TB) -> (b: bool)
        ensures
            b == self.spec_is(seq, tb),
    {
        self.seq == seq && self.tb == tb
    }

    /// Appends a count at the end of the half inning.
    pub fn add_count(&mut self, count: Count)
        ensures
            final(self).seq == old(self).seq,
            final(self).tb == old(self).tb,
            final(self).counts@ == old(self).counts@.push(count),
    {
        self.counts.push(count);
    }
}

/// The umpire's call on a pitch the batter let go by.
#[derive(Clone, Copy, PartialEq, Eq, Structural, Debug)]
pub enum PitchResult {
    Ball,
    Strike,
    HitByPitch,
    WildPitch,
}

impl Inning {
    /// A copy of the half inning with the same counts.
    pub fn duplicate(&self) -> (i: Inning)
        ensures
            i.seq == self.seq,
            i.tb == self.tb,
            i.counts@ == self.counts@,
    {
        let counts = self.counts.clone();
        proof {
            assert(counts@ =~= self.counts@);
        }
        Inning { seq: self.seq, tb: self.tb, counts }
    }
}

pub open spec fn opening_entry(f: ActiveFielder) -> PlayerGameEntry {
    PlayerGameEntry { start_count_seq: 1, end_count_seq: None, position: f.position, player_id: f.id }
}

pub open spec fn closed_entry(e: PlayerGameEntry, count_seq: u16) -> PlayerGameEntry {
    match e.end_count_seq {
        Some(_) => e,
        None => PlayerGameEntry { end_count_seq: Some(count_seq), ..e },
    }
}

/// The fielding record of a caught fly: play 1 of the count, by the catcher alone.
pub open spec fn fly_catch_fielding(
    count_seq: u16,
    fielder_id: i64,
    fielder_position: Position,
    play_type: PlayType,
) -> PlayerGameFielding {
    PlayerGameFielding {
        count_seq,
        seq: 1,
        catch_fielder_id: fielder_id,
        catch_fielder_position: fielder_position,
        cutoff_fielder_id: None,
        cutoff_fielder_position: None,
        final_fielder_id: None,
        final_fielder_position: None,
        play_type,
    }
}

/// The fielding record of the play on a ball in play: play 1 of the count.
pub open spec fn play_fielding(count_seq: u16, result: DefensePlayResult) -> PlayerGameFielding {
    PlayerGameFielding {
        count_seq,
        seq: 1,
        catch_fielder_id: result.final_fielder_id,
        catch_fielder_position: result.final_fielder_position,
        cutoff_fielder_id: result.cutoff_fielder_id,
        cutoff_fielder_position: result.cutoff_fielder_position,
        final_fielder_id: Some(result.final_fielder_id),
        final_fielder_position: Some(result.final_fielder_position),
        play_type: result.play_type,
    }
}

/// The fielding record of the second throw of a double play: play 2 of the count.
pub open spec fn double_play_fielding(count_seq: u16, result: DoublePlayDefensePlayResult) -> PlayerGameFielding {
    PlayerGameFielding {
        count_seq,
        seq: 2,
        catch_fielder_id: result.thrower_fielder_id,
        catch_fielder_position: result.thrower_fielder_position,
        cutoff_fielder_id: None,
        cutoff_fielder_position: None,
        final_fielder_id: Some(result.final_fielder_id),
        final_fielder_position: Some(result.final_fielder_position),
        play_type: PlayType::ForcePlay,
    }
}

/// The running record of the second throw of a double play, as running play `seq`.
pub open spec fn double_play_running(
    count_seq: u16,
    seq: u8,
    result: DoublePlayRunnerAdvanceResult,
) -> PlayerGameRunning {
    PlayerGameRunning {
        count_seq,
        seq,
        throw_target_base: result.throw_target_base,
        target_runner_id: None,
        event: RunningEvent::DoublePlay,
        play_type: PlayType::TouchPlay,
        ruling: result.ruling,
        runs_scored: 0,
        runner_1st_id: result.unsaved_runners.runner_1st,
        runner_2nd_id: result.unsaved_runners.runner_2nd,
        runner_3rd_id: result.unsaved_runners.runner_3rd,
    }
}

/// Everything recorded while a game is played.
#[derive(Clone, Debug)]
pub struct GameResult {
    pub id: u32,
    pub actual_date: i32,
    pub innings: Vec<Inning>,
    pub away_total_point: u8,
    pub home_total_point: u8,
    pub player_entries: Vec<PlayerGameEntry>,
    pub player_pitchings: Vec<PlayerGamePitching>,
    pub player_battings: Vec<PlayerGameBatting>,
    pub player_fieldings: Vec<PlayerGameFielding>,
    pub player_runnings: Vec<PlayerGameRunning>,
}

impl GameResult {
    /// An empty record of game `id` on day `actual_date`, with every starting fielder
    /// on the field from the first count, away team first.
    pub fn new(
        id: u32,
        actual_date: i32,
        away_fielders: &Vec<ActiveFielder>,
        home_fielders: &Vec<ActiveFielder>,
    ) -> (r: Self)
        ensures
            r.id == id,
            r.actual_date == actual_date,
            r.innings@.len() == 0,
            r.away_total_point == 0,
            r.home_total_point == 0,
            r.player_entries@ == (away_fielders@ + home_fielders@).map_values(
                |f: ActiveFielder| opening_entry(f),
            ),
            r.player_pitchings@.len() == 0,
            r.player_battings@.len() == 0,
            r.player_fieldings@.len() == 0,
            r.player_runnings@.len() == 0,
    {
        let player_entries = Self::init_player_game_entries(away_fielders, home_fielders);
        Self {
            id,
            actual_date,
            innings: Vec::new(),
            away_total_point: 0,
            home_total_point: 0,
            player_entries,
            player_pitchings: Vec::new(),
            player_battings: Vec::new(),
            player_fieldings: Vec::new(),
            player_runnings: Vec::new(),
        }
    }

    fn init_player_game_entries(
        away_team_players: &Vec<ActiveFielder>,
        home_team_players: &Vec<ActiveFielder>,
    ) -> (entries: Vec<PlayerGameEntry>)
        ensures
            entries@ == (away_team_players@ + home_team_players@).map_values(
                |f: ActiveFielder| opening_entry(f),
            ),
    {
        let ghost all = away_team_players@ + home_team_players@;
        let mut records: Vec<PlayerGameEntry> = Vec::new();
        let mut i: usize = 0;
        while i < away_team_players.len()
            invariant
                i <= away_team_players@.len(),
                all == away_team_players@ + home_team_players@,
                records@ =~= all.take(i as int).map_values(|f: ActiveFielder| opening_entry(f)),
            decreases away_team_players@.len() - i,
        {
            let f = away_team_players[i];
            records.push(PlayerGameEntry::new(1, None, f.position, f.id));
            proof {
                assert(all.take(i + 1) =~= all.take(i as int).push(f));
            }
            i += 1;
        }
        let mut j: usize = 0;
        while j < home_team_players.len()
            invariant
                j <= home_team_players@.len(),
                all == away_team_players@ + home_team_players@,
                records@ =~= all.take(away_team_players@.len() + j).map_values(
                    |f: ActiveFielder| opening_entry(f),
                ),
            decreases home_team_players@.len() - j,
        {
            let f = home_team_players[j];
            records.push(PlayerGameEntry::new(1, None, f.position, f.id));
            proof {
                assert(all.take(away_team_players@.len() + j + 1) =~= all.take(
                    away_team_players@.len() + j,
                ).push(f));
            }
            j += 1;
        }
        proof {
            assert(all.take(all.len() as int) =~= all);
        }
        records
    }

    /// Records what a pitch or batted ball amounted to for the batter.
    pub fn add_player_batting(
        &mut self,
        count_seq: u16,
        pitcher_id: i64,
        batter_id: i64,
        fielder_position: Option<Position>,
        batting_result: BattingResult,
    )
        ensures
            final(self).player_battings@ == old(self).player_battings@.push(
                PlayerGameBatting { count_seq, pitcher_id, batter_id, fielder_position, result: batting_result },
            ),
            final(self).innings == old(self).innings,
            final(self).player_entries == old(self).player_entries,
            final(self).player_fieldings == old(self).player_fieldings,
            final(self).player_runnings == old(self).player_runnings,
            final(self).id == old(self).id,
            final(self).player_pitchings == old(self).player_pitchings,
    {
        self.player_battings.push(
            PlayerGameBatting { count_seq, pitcher_id, batter_id, fielder_position, result: batting_result },
        );
    }

    /// Records the second throw of a double play as fielding play 2 of the count.
    pub fn add_player_fielding_from_double_play(
        &mut self,
        count_seq: u16,
        result: &DoublePlayDefensePlayResult,
    )
        ensures
            final(self).player_fieldings@ == old(self).player_fieldings@.push(
                PlayerGameFielding {
                    count_seq,
                    seq: 2,
                    catch_fielder_id: result.thrower_fielder_id,
                    catch_fielder_position: result.thrower_fielder_position,
                    cutoff_fielder_id: None,
                    cutoff_fielder_position: None,
                    final_fielder_id: Some(result.final_fielder_id),
                    final_fielder_position: Some(result.final_fielder_position),
                    play_type: PlayType::ForcePlay,
                },
            ),
            final(self).player_battings == old(self).player_battings,
            final(self).player_runnings == old(self).player_runnings,
            final(self).innings == old(self).innings,
            final(self).player_entries == old(self).player_entries,
            final(self).id == old(self).id,
            final(self).player_pitchings == old(self).player_pitchings,
    {
        self.player_fieldings.push(
            PlayerGameFielding {
                count_seq,
                seq: 2,
                catch_fielder_id: result.thrower_fielder_id,
                catch_fielder_position: result.thrower_fielder_position,
                cutoff_fielder_id: None,
                cutoff_fielder_position: None,
                final_fielder_id: Some(result.final_fielder_id),
                final_fielder_position: Some(result.final_fielder_position),
                play_type: PlayType::ForcePlay,
            },
        );
    }

    /// Records the play on a ball in play as fielding play 1 of the count.
    pub fn add_player_fielding(&mut self, count_seq: u16, result: &DefensePlayResult)
        ensures
            final(self).player_fieldings@ == old(self).player_fieldings@.push(
                PlayerGameFielding {
                    count_seq,
                    seq: 1,
                    catch_fielder_id: result.final_fielder_id,
                    catch_fielder_position: result.final_fielder_position,
                    cutoff_fielder_id: result.cutoff_fielder_id,
                    cutoff_fielder_position: result.cutoff_fielder_position,
                    final_fielder_id: Some(result.final_fielder_id),
                    final_fielder_position: Some(result.final_fielder_position),
                    play_type: result.play_type,
                },
            ),
            final(self).player_battings == old(self).player_battings,
            final(self).player_runnings == old(self).player_runnings,
            final(self).innings == old(self).innings,
            final(self).player_entries == old(self).player_entries,
            final(self).id == old(self).id,
            final(self).player_pitchings == old(self).player_pitchings,
    {
        self.player_fieldings.push(
            PlayerGameFielding {
                count_seq,
                seq: 1,
                catch_fielder_id: result.final_fielder_id,
                catch_fielder_position: result.final_fielder_position,
                cutoff_fielder_id: result.cutoff_fielder_id,
                cutoff_fielder_position: result.cutoff_fielder_position,
                final_fielder_id: Some(result.final_fielder_id),
                final_fielder_position: Some(result.final_fielder_position),
                play_type: result.play_type,
            },
        );
    }

    /// Records a caught fly as fielding play 1 of the count.
    pub fn add_player_fielding_from_fly_catch(
        &mut self,
        count_seq: u16,
        fielder_id: i64,
        fielder_position: Position,
        play_type: PlayType,
    )
        ensures
            final(self).player_fieldings@ == old(self).player_fieldings@.push(
                PlayerGameFielding {
                    count_seq,
                    seq: 1,
                    catch_fielder_id: fielder_id,
                    catch_fielder_position: fielder_position,
                    cutoff_fielder_id: None,
                    cutoff_fielder_position: None,
                    final_fielder_id: None,
                    final_fielder_position: None,
                    play_type,
                },
            ),
            final(self).player_battings == old(self).player_battings,
            final(self).player_runnings == old(self).player_runnings,
            final(self).innings == old(self).innings,
            final(self).player_entries == old(self).player_entries,
            final(self).id == old(self).id,
            final(self).player_pitchings == old(self).player_pitchings,
    {
        self.player_fieldings.push(
            PlayerGameFielding {
                count_seq,
                seq: 1,
                catch_fielder_id: fielder_id,
                catch_fielder_position: fielder_position,
                cutoff_fielder_id: None,
                cutoff_fielder_position: None,
                final_fielder_id: None,
                final_fielder_position: None,
                play_type,
            },
        );
    }

    /// Records the second throw of a double play as running play `seq`.
    pub fn add_player_running_from_double_play(
        &mut self,
        count_seq: u16,
        seq: u8,
        result: &DoublePlayRunnerAdvanceResult,
    )
        ensures
            final(self).player_runnings@ == old(self).player_runnings@.push(
                PlayerGameRunning {
                    count_seq,
                    seq,
                    throw_target_base: result.throw_target_base,
                    target_runner_id: None,
                    event: RunningEvent::DoublePlay,
                    play_type: PlayType::TouchPlay,
                    ruling: result.ruling,
                    runs_scored: 0,
                    runner_1st_id: result.unsaved_runners.runner_1st,
                    runner_2nd_id: result.unsaved_runners.runner_2nd,
                    runner_3rd_id: result.unsaved_runners.runner_3rd,
                },
            ),
            final(self).player_battings == old(self).player_battings,
            final(self).player_fieldings == old(self).player_fieldings,
            final(self).innings == old(self).innings,
            final(self).player_entries == old(self).player_entries,
            final(self).id == old(self).id,
            final(self).player_pitchings == old(self).player_pitchings,
    {
        self.player_runnings.push(
            PlayerGameRunning {
                count_seq,
                seq,
                throw_target_base: result.throw_target_base,
                target_runner_id: None,
                event: RunningEvent::DoublePlay,
                play_type: PlayType::TouchPlay,
                ruling: result.ruling,
                runs_scored: 0,
                runner_1st_id: result.unsaved_runners.runner_id_on(Base::First),
                runner_2nd_id: result.unsaved_runners.runner_id_on(Base::Second),
                runner_3rd_id: result.unsaved_runners.runner_id_on(Base::Third),
            },
        );
    }

    /// Records a stolen base attempt as running play 1, with the runners as they
    /// stood before the throw.
    pub fn add_player_running_from_stolen_base(
        &mut self,
        count_seq: u16,
        runners: RunnersUnsaved,
        result: &StealRunnerAdvanceResult,
    )
        ensures
            final(self).player_runnings@ == old(self).player_runnings@.push(
                PlayerGameRunning {
                    count_seq,
                    seq: 1,
                    throw_target_base: result.throw_target_base,
                    target_runner_id: None,
                    event: RunningEvent::StolenBase,
                    play_type: PlayType::TouchPlay,
                    ruling: result.ruling,
                    runs_scored: 0,
                    runner_1st_id: runners.runner_1st,
                    runner_2nd_id: runners.runner_2nd,
                    runner_3rd_id: runners.runner_3rd,
                },
            ),
            final(self).player_battings == old(self).player_battings,
            final(self).player_fieldings == old(self).player_fieldings,
            final(self).innings == old(self).innings,
            final(self).player_entries == old(self).player_entries,
            final(self).id == old(self).id,
            final(self).player_pitchings == old(self).player_pitchings,
    {
        self.player_runnings.push(
            PlayerGameRunning {
                count_seq,
                seq: 1,
                throw_target_base: result.throw_target_base,
                target_runner_id: None,
                event: RunningEvent::StolenBase,
                play_type: PlayType::TouchPlay,
                ruling: result.ruling,
                runs_scored: 0,
                runner_1st_id: runners.runner_id_on(Base::First),
                runner_2nd_id: runners.runner_id_on(Base::Second),
                runner_3rd_id: runners.runner_id_on(Base::Third),
            },
        );
    }

    /// Records the running on a ball in play as running play `seq`.
    pub fn add_player_running(
        &mut self,
        count_seq: u16,
        seq: u8,
        event: RunningEvent,
        result: &RunnerAdvanceResult,
    )
        ensures
            final(self).player_runnings@ == old(self).player_runnings@.push(
                PlayerGameRunning {
                    count_seq,
                    seq,
                    throw_target_base: result.throw_target_base,
                    target_runner_id: None,
                    event,
                    play_type: result.play_type,
                    ruling: result.ruling,
                    runs_scored: result.runs_scored,
                    runner_1st_id: result.unsaved_runners.runner_1st,
                    runner_2nd_id: result.unsaved_runners.runner_2nd,
                    runner_3rd_id: result.unsaved_runners.runner_3rd,
                },
            ),
            final(self).player_battings == old(self).player_battings,
            final(self).player_fieldings == old(self).player_fieldings,
            final(self).innings == old(self).innings,
            final(self).player_entries == old(self).player_entries,
            final(self).id == old(self).id,
            final(self).player_pitchings == old(self).player_pitchings,
    {
        self.player_runnings.push(
            PlayerGameRunning {
                count_seq,
                seq,
                throw_target_base: result.throw_target_base,
                target_runner_id: None,
                event,
                play_type: result.play_type,
                ruling: result.ruling,
                runs_scored: result.runs_scored,
                runner_1st_id: result.unsaved_runners.runner_id_on(Base::First),
                runner_2nd_id: result.unsaved_runners.runner_id_on(Base::Second),
                runner_3rd_id: result.unsaved_runners.runner_id_on(Base::Third),
            },
        );
    }

    /// Closes every open stint on the field at count `count_seq`.
    pub fn update_player_game_entry_at_game_end(&mut self, count_seq: u16)
        ensures
            final(self).player_entries@ == old(self).player_entries@.map_values(
                |e: PlayerGameEntry| closed_entry(e, count_seq),
            ),
            final(self).innings == old(self).innings,
            final(self).player_battings == old(self).player_battings,
            final(self).id == old(self).id,
            final(self).away_total_point == old(self).away_total_point,
            final(self).home_total_point == old(self).home_total_point,
    {
        let mut entries: Vec<PlayerGameEntry> = Vec::new();
        let mut i: usize = 0;
        while i < self.player_entries.len()
            invariant
                i <= self.player_entries@.len(),
                entries@ =~= self.player_entries@.take(i as int).map_values(
                    |e: PlayerGameEntry| closed_entry(e, count_seq),
                ),
            decreases self.player_entries@.len() - i,
        {
            let e = self.player_entries[i];
            let closed = match e.end_count_seq {
                Some(_) => e,
                None => PlayerGameEntry::new(e.start_count_seq, Some(count_seq), e.position, e.player_id),
            };
            entries.push(closed);
            proof {
                assert(self.player_entries@.take(i + 1) =~= self.player_entries@.take(i as int).push(e));
            }
            i += 1;
        }
        proof {
            assert(self.player_entries@.take(self.player_entries@.len() as int) =~= self.player_entries@);
        }
        self.player_entries = entries;
    }
}

/// A stored game with its teams and its play-by-play record.
#[derive(Clone, Debug)]
pub struct GameDetail {
    pub id: u32,
    pub actual_date: i32,
    pub away_team: Team,
    pub home_team: Team,
    pub game_type: GameType,
    pub innings: Vec<Inning>,
    pub away_points: u8,
    pub home_points: u8,
    pub player_entries: Vec<PlayerGameEntryView>,
    pub player_battings: Vec<PlayerGameBattingView>,
    pub player_runnings: Vec<PlayerGameRunningView>,
}

impl TB {
    /// Key of the name in the message catalogue.
    pub fn message_key(&self) -> (key: &'static str)
        ensures
            key@ == spec_tb_key(*self),
    {
        proof {
            reveal_strlit("inning_top");
            reveal_strlit("inning_bottom");
        }
        match self {
            TB::Top => "inning_top",
            TB::Bottom => "inning_bottom",
        }
    }
}

pub open spec fn spec_tb_key(v: TB) -> Seq<char> {
    match v {
        TB::Top => "inning_top"@,
        TB::Bottom => "inning_bottom"@,
    }
}

impl BattingResult {
    /// Key of the name in the message catalogue.
    pub fn message_key(&self) -> (key: &'static str)
        ensures
            key@ == spec_batting_result_key(*self),
    {
        proof {
            reveal_strlit("single");
            reveal_strlit("double");
            reveal_strlit("triple");
            reveal_strlit("homerun");
            reveal_strlit("foul");
            reveal_strlit("fielders_choice");
            reveal_strlit("out");
            reveal_strlit("double_play");
            reveal_strlit("walk");
            reveal_strlit("hit_by_pitch");
            reveal_strlit("strikeout");
            reveal_strlit("strike_swung");
            reveal_strlit("wild_pitch");
            reveal_strlit("take");
        }
        match self {
            BattingResult::Single => "single",
            BattingResult::Double => "double",
            BattingResult::Triple => "triple",
            BattingResult::HomeRun => "homerun",
            BattingResult::Foul => "foul",
            BattingResult::FieldersChoice => "fielders_choice",
            BattingResult::Out => "out",
            BattingResult::DoublePlay => "double_play",
            BattingResult::Walk => "walk",
            BattingResult::HitByPitch => "hit_by_pitch",
            BattingResult::Strikeout => "strikeout",
            BattingResult::StrikeSwung => "strike_swung",
            BattingResult::WildPitch => "wild_pitch",
            BattingResult::Take => "take",
        }
    }
}

pub open spec fn spec_batting_result_key(v: BattingResult) -> Seq<char> {
    match v {
        BattingResult::Single => "single"@,
        BattingResult::Double => "double"@,
        BattingResult::Triple => "triple"@,
        BattingResult::HomeRun => "homerun"@,
        BattingResult::Foul => "foul"@,
        BattingResult::FieldersChoice => "fielders_choice"@,
        BattingResult::Out => "out"@,
        BattingResult::DoublePlay => "double_play"@,
        BattingResult::Walk => "walk"@,
        BattingResult::HitByPitch => "hit_by_pitch"@,
        BattingResult::Strikeout => "strikeout"@,
        BattingResult::StrikeSwung => "strike_swung"@,
        BattingResult::WildPitch => "wild_pitch"@,
        BattingResult::Take => "take"@,
    }
}

} // verus!
