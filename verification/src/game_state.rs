use vstd::prelude::*;
use crate::fielding::{
    DefensePlayResult, DoublePlayDefensePlayResult, FielderRiskTolerance, PlayType,
    StealDefensePlayResult,
};
use crate::game::{
    double_play_fielding, double_play_running, fly_catch_fielding, play_fielding, BattingResult,
    Count, GameResult, Inning, PitchResult, TB,
};
use crate::game_stats::PlayerGameBatting;
use crate::player::{Position, RL};
use crate::running::{
    RunnerAdvanceResult, RunnersOnBase, RunnersUnsaved, RunningEvent, RunningPlan, SafeAtTarget,
};
use crate::stadium::Base;
use crate::random_provider::RandomProvider;
use crate::schedule::GameSchedule;
use crate::team::{
    lemma_outcome_lineup_wf, lineup_draws, lineup_outcome, spec_batters, spec_catcher, spec_fielders, spec_pitcher,
    ActiveBatter, ActiveCatcher, ActiveFielder, ActivePitcher, Lineup,
};
use crate::batting::CountStatus;

verus! {

/// Innings in a regulation game.
pub const MAX_INNING: u8 = 9;

/// Outs that end a half inning.
pub const MAX_OUT: u8 = 3;

/// Balls that walk the batter.
pub const MAX_BALL: u8 = 4;

/// Strikes that retire the batter.
pub const MAX_STRIKE: u8 = 3;

/// Why a step of the game could not be played.
#[derive(Clone, Debug)]
pub enum GameError {
    NoPlayerFor(String),
    BatterInfo,
    PitcherInfo,
    FielderInfo,
    Lineup(String),
    CurrentBatter,
    BatterRunner,
    Runner1st,
    Runner2nd,
    Runner3rd,
    BatterRunnerTargetBase,
    StealTargetBase,
    DoublePlayTargetBase,
    SameTargetBase,
    UnsupportedPath,
    StadiumHasNoFenceIntersection,
    TimeOut,
    NoFieldersToPickUp,
}

/// The umpire's call on a runner.
#[derive(Clone, Copy, PartialEq, Eq, Structural, Debug)]
pub enum Ruling {
    Safe,
    Out,
}

/// What a pitch came to.
#[derive(Clone, Copy, PartialEq, Eq, Structural, Debug)]
pub enum PitchOutcome {
    InPlay,
    Foul,
    StrikeSwung,
    StrikeLooking,
    Ball,
}

/// Whether a game goes on, and if not, how it ended.
#[derive(Clone, Copy, PartialEq, Eq, Structural, Debug)]
pub enum GameProgress {
    Ongoing,
    WalkOff,
    GameSet,
    Postponed,
}

/// Whether a half inning goes on.
#[derive(Clone, Copy, PartialEq, Eq, Structural, Debug)]
pub enum InningProgress {
    Ongoing,
    Over,
}

/// Where a game being played stands between two steps of its loop.
#[derive(Clone, Copy, PartialEq, Eq, Structural, Debug)]
pub enum GamePhase {
    /// Before the first half inning, or after a half inning was filed.
    BetweenHalfInnings,
    /// A half inning was just opened and no count has been played in it yet.
    HalfInningOpened,
    /// A count was just played.
    CountPlayed,
}

/// What the game loop does next.
#[derive(Clone, Copy, PartialEq, Eq, Structural, Debug)]
pub enum GameStep {
    /// Open the next half inning.
    OpenHalfInning,
    /// Play one count of the half inning.
    PlayCount,
    /// File the half inning just played.
    CloseHalfInning,
    /// The game is over: close it.
    FinishGame,
}

/// The step that follows `phase`, given how the game and the half inning stand: a
/// new half inning opens while the game goes on; counts are played until three are
/// out, or until a count ends the game with a walk-off; after that the half inning is
/// filed; once the game no longer goes on between half innings, it is closed.
pub open spec fn spec_next_step(phase: GamePhase, game: GameProgress, inning: InningProgress) -> GameStep {
    match phase {
        GamePhase::BetweenHalfInnings => if game == GameProgress::Ongoing {
            GameStep::OpenHalfInning
        } else {
            GameStep::FinishGame
        },
        GamePhase::HalfInningOpened => if inning == InningProgress::Ongoing {
            GameStep::PlayCount
        } else {
            GameStep::CloseHalfInning
        },
        GamePhase::CountPlayed => if game == GameProgress::WalkOff {
            GameStep::CloseHalfInning
        } else if inning == InningProgress::Ongoing {
            GameStep::PlayCount
        } else {
            GameStep::CloseHalfInning
        },
    }
}

impl GameStep {
    /// The phase the game is in once this step has been taken (`None` once the game is
    /// closed).
    pub fn phase_after(&self) -> (p: Option<GamePhase>)
        ensures
            p == (match *self {
                GameStep::OpenHalfInning => Some(GamePhase::HalfInningOpened),
                GameStep::PlayCount => Some(GamePhase::CountPlayed),
                GameStep::CloseHalfInning => Some(GamePhase::BetweenHalfInnings),
                GameStep::FinishGame => None,
            }),
    {
        match *self {
            GameStep::OpenHalfInning => Some(GamePhase::HalfInningOpened),
            GameStep::PlayCount => Some(GamePhase::CountPlayed),
            GameStep::CloseHalfInning => Some(GamePhase::BetweenHalfInnings),
            GameStep::FinishGame => None,
        }
    }
}

/// Where a ball in play leaves the count once the first play is recorded.
#[derive(Clone, Copy, PartialEq, Eq, Structural, Debug)]
pub enum BallInPlayStep {
    /// The count is recorded and the plate appearance is over.
    Finished,
    /// An infielder fielded the ball with a runner on first and fewer than two out:
    /// a double play may be tried before the count is recorded.
    DoublePlayChance,
    /// Nothing more to try: the count is to be recorded as the first play left it.
    Commit,
}

/// The situation of the half inning being played.
#[derive(Clone, Copy, PartialEq, Eq, Structural, Debug)]
pub struct InningState {
    pub runners: RunnersOnBase,
    pub ball: u8,
    pub strike: u8,
    pub out: u8,
    pub active_batter: Option<ActiveBatter>,
}

impl InningState {
    /// A count that can still be pitched to: at most three balls and two strikes.
    pub open spec fn wf(&self) -> bool {
        self.ball < MAX_BALL && self.strike < MAX_STRIKE
    }

    pub open spec fn initial() -> InningState {
        InningState {
            runners: RunnersOnBase {
                batting_side: None,
                batter_runner: None,
                runner_1st: None,
                runner_2nd: None,
                runner_3rd: None,
            },
            ball: 0,
            strike: 0,
            out: 0,
            active_batter: None,
        }
    }

    /// An empty half inning: no runners, no count, nobody out.
    pub fn new() -> (s: InningState)
        ensures
            s == InningState::initial(),
    {
        InningState {
            runners: RunnersOnBase::new(),
            ball: 0,
            strike: 0,
            out: 0,
            active_batter: None,
        }
    }

    pub open spec fn spec_inning_progress(&self) -> InningProgress {
        if self.out >= MAX_OUT {
            InningProgress::Over
        } else {
            InningProgress::Ongoing
        }
    }

    /// Over at three outs.
    pub fn inning_progress(&self) -> (p: InningProgress)
        ensures
            p == self.spec_inning_progress(),
    {
        if self.out >= MAX_OUT {
            return InningProgress::Over;
        }
        InningProgress::Ongoing
    }

    pub open spec fn spec_allows_tagup(&self) -> bool {
        self.out <= 2 && (self.runners.runner_3rd is Some || self.runners.runner_2nd is Some)
    }

    /// Runners may tag up on a caught fly: fewer than three out and someone on second or third.
    pub fn allows_tagup(&self) -> (b: bool)
        ensures
            b == self.spec_allows_tagup(),
    {
        self.out <= 2 && (self.runners.has_runner_on(Base::Third) || self.runners.has_runner_on(
            Base::Second,
        ))
    }

    pub open spec fn spec_can_double_play(&self) -> bool {
        self.out < 2 && self.runners.runner_1st is Some
    }

    /// A double play is on: fewer than two out and a runner on first.
    pub fn can_double_play(&self) -> (b: bool)
        ensures
            b == self.spec_can_double_play(),
    {
        self.out < 2 && self.runners.has_runner_on(Base::First)
    }

    /// A steal is tried when a runner is on first and the running side chose to go
    /// (`attempt`, drawn outside the library).
    pub fn can_steal_base(&self, attempt: bool) -> (b: bool)
        ensures
            b == (self.runners.runner_1st is Some && attempt),
    {
        if self.runners.has_runner_on(Base::First) {
            attempt
        } else {
            false
        }
    }

    pub fn add_out(&mut self)
        requires
            old(self).out < 255,
        ensures
            final(self).out == old(self).out + 1,
            final(self).runners == old(self).runners,
            final(self).ball == old(self).ball,
            final(self).strike == old(self).strike,
            final(self).active_batter == old(self).active_batter,
    {
        self.out += 1;
    }
}

/// A game being played.
#[derive(Clone, Debug)]
pub struct GameState {
    pub inning_seq: u8,
    pub inning_tb: TB,
    pub count_seq: u16,
    pub away_total_point: u8,
    pub home_total_point: u8,
    pub away_lineup: Lineup,
    pub home_lineup: Lineup,
    pub inning_state: InningState,
    pub inning: Inning,
    pub game_result: GameResult,
}


/// The count recorded after a pitch, from the situation after it.
pub open spec fn count_after(seq: u16, point: nat, s: InningState) -> Count {
    Count { seq, point: point as u8, ball: s.ball, strike: s.strike, out: s.out }
}

pub open spec fn batting(
    count_seq: u16,
    pitcher_id: i64,
    batter_id: i64,
    fielder_position: Option<Position>,
    result: BattingResult,
) -> PlayerGameBatting {
    PlayerGameBatting { count_seq, pitcher_id, batter_id, fielder_position, result }
}

impl GameState {
    /// Both lineups playable and a count that can be pitched to.
    pub open spec fn wf(&self) -> bool {
        &&& self.away_lineup.wf()
        &&& self.home_lineup.wf()
        &&& self.inning_state.wf()
    }

    /// Room for one more count and four more runs without overflow.
    pub open spec fn has_room(&self) -> bool {
        &&& self.count_seq < u16::MAX
        &&& self.away_total_point <= 251
        &&& self.home_total_point <= 251
    }

    /// A half inning in progress: fewer than three out.
    pub open spec fn in_play(&self) -> bool {
        self.inning_state.out < MAX_OUT
    }

    /// What the batting side has scored.
    pub open spec fn batting_points(&self) -> int {
        if self.inning_tb == TB::Top {
            self.away_total_point as int
        } else {
            self.home_total_point as int
        }
    }

    /// What the fielding side has scored.
    pub open spec fn fielding_points(&self) -> int {
        if self.inning_tb == TB::Top {
            self.home_total_point as int
        } else {
            self.away_total_point as int
        }
    }

    /// `new` follows `old` by one recorded count worth `point` runs to the batting side.
    pub open spec fn counted(old: &GameState, new: &GameState, point: nat) -> bool {
        &&& new.count_seq == old.count_seq + 1
        &&& new.inning_seq == old.inning_seq
        &&& new.inning_tb == old.inning_tb
        &&& new.inning.seq == old.inning.seq
        &&& new.inning.tb == old.inning.tb
        &&& new.inning.counts@ == old.inning.counts@.push(
            count_after(old.count_seq, point, new.inning_state),
        )
        &&& new.batting_points() == old.batting_points() + point
        &&& new.fielding_points() == old.fielding_points()
        &&& new.game_result.innings == old.game_result.innings
        &&& new.game_result.player_entries == old.game_result.player_entries
    }

    /// The plate appearance is over: no batter up and no batter-runner.
    pub open spec fn plate_appearance_over(&self) -> bool {
        self.inning_state.active_batter is None && self.inning_state.runners.batter_runner is None
    }

    pub open spec fn spec_progress(&self) -> GameProgress {
        if self.inning_seq >= MAX_INNING && self.inning_tb == TB::Bottom && self.home_total_point
            > self.away_total_point {
            GameProgress::WalkOff
        } else if self.inning_seq >= MAX_INNING && ((self.inning_tb == TB::Top
            && self.away_total_point < self.home_total_point) || self.inning_tb == TB::Bottom) {
            GameProgress::GameSet
        } else {
            GameProgress::Ongoing
        }
    }

    pub open spec fn batting_lineup(&self) -> Lineup {
        if self.inning_tb == TB::Top {
            self.away_lineup
        } else {
            self.home_lineup
        }
    }

    pub open spec fn fielding_lineup(&self) -> Lineup {
        if self.inning_tb == TB::Top {
            self.home_lineup
        } else {
            self.away_lineup
        }
    }

    /// A game before its first pitch: the placeholder bottom of inning 0, so that the
    /// first call of `advance_half_inning` opens the top of the first.
    pub fn with_lineups(id: u32, planned_date: i32, away_lineup: Lineup, home_lineup: Lineup) -> (g:
        GameState)
        requires
            away_lineup.wf(),
            home_lineup.wf(),
        ensures
            g.wf(),
            g.inning_seq == 0,
            g.inning_tb == TB::Bottom,
            g.count_seq == 1,
            g.away_total_point == 0,
            g.home_total_point == 0,
            g.away_lineup == away_lineup,
            g.home_lineup == home_lineup,
            g.inning_state == InningState::initial(),
            g.inning.seq == 0 && g.inning.tb == TB::Bottom && g.inning.counts@.len() == 0,
            g.game_result.id == id,
            g.game_result.actual_date == planned_date,
            g.game_result.innings@.len() == 0,
            g.game_result.away_total_point == 0,
            g.game_result.home_total_point == 0,
            g.game_result.player_pitchings@.len() == 0,
            g.game_result.player_battings@.len() == 0,
            g.game_result.player_fieldings@.len() == 0,
            g.game_result.player_runnings@.len() == 0,
            g.game_result.player_entries@ == (spec_fielders(away_lineup.players@, away_lineup.risk_tolerance)
                + spec_fielders(home_lineup.players@, home_lineup.risk_tolerance)).map_values(
                |f: ActiveFielder| crate::game::opening_entry(f),
            ),
    {
        let away_fielders = away_lineup.fielders();
        let home_fielders = home_lineup.fielders();
        GameState {
            inning_seq: 0,
            inning_tb: TB::Bottom,
            count_seq: 1,
            away_total_point: 0,
            home_total_point: 0,
            inning_state: InningState::new(),
            inning: Inning::new(),
            game_result: GameResult::new(id, planned_date, &away_fielders, &home_fielders),
            away_lineup,
            home_lineup,
        }
    }

    fn is_top(&self) -> (b: bool)
        ensures
            b == (self.inning_tb == TB::Top),
    {
        self.inning_tb == TB::Top
    }

    fn is_bottom(&self) -> (b: bool)
        ensures
            b == (self.inning_tb == TB::Bottom),
    {
        self.inning_tb == TB::Bottom
    }

    /// Walk-off when the home side leads in the bottom of the ninth or later; game
    /// set after the top of the ninth or later with the home side ahead, or after any
    /// bottom half from the ninth on; otherwise the game goes on.
    pub fn progress(&self) -> (p: GameProgress)
        ensures
            p == self.spec_progress(),
    {
        if self.is_walk_off_condition() {
            return GameProgress::WalkOff;
        }
        if self.is_game_set_condition() {
            return GameProgress::GameSet;
        }
        if self.is_postponed() {
            return GameProgress::Postponed;
        }
        GameProgress::Ongoing
    }

    /// The next step of the game loop from `phase`, read from the game's progress and
    /// the half inning's.
    pub fn next_step(&self, phase: GamePhase) -> (step: GameStep)
        ensures
            step == spec_next_step(phase, self.spec_progress(), self.inning_state.spec_inning_progress()),
    {
        let game = self.progress();
        let inning = self.inning_state.inning_progress();
        match phase {
            GamePhase::BetweenHalfInnings => if game == GameProgress::Ongoing {
                GameStep::OpenHalfInning
            } else {
                GameStep::FinishGame
            },
            GamePhase::HalfInningOpened => if inning == InningProgress::Ongoing {
                GameStep::PlayCount
            } else {
                GameStep::CloseHalfInning
            },
            GamePhase::CountPlayed => if game == GameProgress::WalkOff {
                GameStep::CloseHalfInning
            } else if inning == InningProgress::Ongoing {
                GameStep::PlayCount
            } else {
                GameStep::CloseHalfInning
            },
        }
    }

    fn is_walk_off_condition(&self) -> (b: bool)
        ensures
            b == (self.inning_seq >= MAX_INNING && self.inning_tb == TB::Bottom
                && self.home_total_point > self.away_total_point),
    {
        self.inning_seq >= MAX_INNING && self.is_bottom() && self.home_total_point
            > self.away_total_point
    }

    fn is_game_set_condition(&self) -> (b: bool)
        ensures
            b == (self.inning_seq >= MAX_INNING && ((self.inning_tb == TB::Top
                && self.away_total_point < self.home_total_point) || self.inning_tb == TB::Bottom)),
    {
        self.inning_seq >= MAX_INNING && ((self.is_top() && self.away_total_point
            < self.home_total_point) || self.is_bottom())
    }

    fn is_postponed(&self) -> (b: bool)
        ensures
            !b,
    {
        false
    }

    /// Opens the next half inning: the bottom after a top, the top of the next inning
    /// after a bottom, with an empty situation and no counts yet.
    pub fn advance_half_inning(&mut self)
        requires
            old(self).inning_tb == TB::Bottom ==> old(self).inning_seq < u8::MAX,
        ensures
            final(self).inning_state == InningState::initial(),
            final(self).inning_tb == (if old(self).inning_tb == TB::Top { TB::Bottom } else { TB::Top }),
            final(self).inning_seq == (if old(self).inning_tb == TB::Top {
                old(self).inning_seq as int
            } else {
                old(self).inning_seq + 1
            }),
            final(self).inning.seq == final(self).inning_seq,
            final(self).inning.tb == final(self).inning_tb,
            final(self).inning.counts@.len() == 0,
            final(self).count_seq == old(self).count_seq,
            final(self).away_total_point == old(self).away_total_point,
            final(self).home_total_point == old(self).home_total_point,
            final(self).away_lineup == old(self).away_lineup,
            final(self).home_lineup == old(self).home_lineup,
            final(self).game_result == old(self).game_result,
    {
        self.inning_state = InningState::new();
        self.inning_tb = match self.inning_tb {
            TB::Top => TB::Bottom,
            TB::Bottom => {
                self.inning_seq += 1;
                TB::Top
            },
        };
        self.inning = Inning { seq: self.inning_seq, tb: self.inning_tb, counts: Vec::new() };
    }

    /// Files the half inning just played with the game's innings.
    pub fn finish_half_inning(&mut self)
        ensures
            final(self).game_result.innings@.len() == old(self).game_result.innings@.len() + 1,
            final(self).game_result.innings@.drop_last() == old(self).game_result.innings@,
            final(self).game_result.innings@.last().seq == old(self).inning.seq,
            final(self).game_result.innings@.last().tb == old(self).inning.tb,
            final(self).game_result.innings@.last().counts@ == old(self).inning.counts@,
            final(self).game_result.player_battings == old(self).game_result.player_battings,
            final(self).game_result.player_entries == old(self).game_result.player_entries,
            final(self).inning_state == old(self).inning_state,
            final(self).inning_seq == old(self).inning_seq,
            final(self).inning_tb == old(self).inning_tb,
            final(self).count_seq == old(self).count_seq,
            final(self).away_total_point == old(self).away_total_point,
            final(self).home_total_point == old(self).home_total_point,
            final(self).away_lineup == old(self).away_lineup,
            final(self).home_lineup == old(self).home_lineup,
    {
        let inning = self.inning.duplicate();
        self.game_result.innings.push(inning);
        proof {
            assert(self.game_result.innings@.drop_last() =~= old(self).game_result.innings@);
        }
    }

    /// The fielding side's pitcher.
    pub fn current_pitcher(&self) -> (p: ActivePitcher)
        requires
            self.wf(),
        ensures
            Some(p) == spec_pitcher(self.fielding_lineup().players@),
    {
        if self.inning_tb == TB::Top {
            match self.home_lineup.pitcher() {
                Ok(p) => p,
                Err(_) => ActivePitcher { id: 0 },
            }
        } else {
            match self.away_lineup.pitcher() {
                Ok(p) => p,
                Err(_) => ActivePitcher { id: 0 },
            }
        }
    }

    /// The fielding side's catcher.
    pub fn current_catcher(&self) -> (c: ActiveCatcher)
        requires
            self.wf(),
        ensures
            Some(c) == spec_catcher(self.fielding_lineup().players@),
    {
        if self.inning_tb == TB::Top {
            match self.home_lineup.catcher() {
                Ok(c) => c,
                Err(_) => ActiveCatcher { id: 0 },
            }
        } else {
            match self.away_lineup.catcher() {
                Ok(c) => c,
                Err(_) => ActiveCatcher { id: 0 },
            }
        }
    }

    /// The batting side's next batter; their batting order moves on.
    pub fn current_batter(&mut self) -> (res: Result<ActiveBatter, GameError>)
        requires
            old(self).wf(),
        ensures
            final(self).wf(),
            res matches Ok(b) && b == spec_batters(old(self).batting_lineup().players@)[old(
                self,
            ).batting_lineup().current_index as int],
            final(self).batting_lineup().current_index == (old(self).batting_lineup().current_index
                + 1) % 9,
            final(self).batting_lineup().players == old(self).batting_lineup().players,
            final(self).fielding_lineup() == old(self).fielding_lineup(),
            final(self).inning_tb == old(self).inning_tb,
            final(self).inning_seq == old(self).inning_seq,
            final(self).inning_state == old(self).inning_state,
            final(self).inning == old(self).inning,
            final(self).count_seq == old(self).count_seq,
            final(self).away_total_point == old(self).away_total_point,
            final(self).home_total_point == old(self).home_total_point,
            final(self).game_result == old(self).game_result,
    {
        if self.inning_tb == TB::Top {
            self.away_lineup.next()
        } else {
            self.home_lineup.next()
        }
    }

    /// The fielding side's fielders.
    pub fn current_fielders(&self) -> (f: Vec<ActiveFielder>)
        ensures
            f@ == spec_fielders(self.fielding_lineup().players@, self.fielding_lineup().risk_tolerance),
    {
        if self.inning_tb == TB::Top {
            self.home_lineup.fielders()
        } else {
            self.away_lineup.fielders()
        }
    }

    /// Sets the risk tolerance of the fielding side.
    pub fn change_risk_tolerance(&mut self, risk_tolerance: FielderRiskTolerance)
        requires
            old(self).wf(),
        ensures
            final(self).wf(),
            final(self).fielding_lineup().risk_tolerance == risk_tolerance,
            final(self).fielding_lineup().players == old(self).fielding_lineup().players,
            final(self).fielding_lineup().current_index == old(self).fielding_lineup().current_index,
            final(self).batting_lineup() == old(self).batting_lineup(),
            final(self).inning_tb == old(self).inning_tb,
            final(self).inning_state == old(self).inning_state,
    {
        if self.inning_tb == TB::Top {
            self.home_lineup.change_risk_tolerance(risk_tolerance);
        } else {
            self.away_lineup.change_risk_tolerance(risk_tolerance);
        }
    }
}


/// Ball four or a hit batsman: the batter on first, forced runners on, a fresh count.
pub open spec fn walked(s: InningState) -> InningState {
    InningState {
        runners: s.runners.spec_walked(),
        ball: 0,
        strike: 0,
        out: s.out,
        active_batter: None,
    }
}

/// A called or swinging strike: on the third the batter is out and the count starts over.
pub open spec fn struck(s: InningState) -> InningState {
    if s.strike + 1 < MAX_STRIKE {
        InningState { strike: (s.strike + 1) as u8, ..s }
    } else {
        InningState {
            runners: RunnersOnBase { batter_runner: None, ..s.runners },
            ball: 0,
            strike: 0,
            out: (s.out + 1) as u8,
            active_batter: None,
        }
    }
}

/// A ball, and the runs it forces in.
pub open spec fn balled(s: InningState) -> (InningState, nat) {
    if s.ball + 1 < MAX_BALL {
        (InningState { ball: (s.ball + 1) as u8, ..s }, 0)
    } else {
        (walked(s), s.runners.walk_runs())
    }
}

/// A wild pitch: every runner moves up; on ball four the batter takes first.
pub open spec fn wild_pitched(s: InningState) -> (InningState, nat) {
    if s.ball + 1 < MAX_BALL {
        (
            InningState {
                runners: s.runners.spec_wild_pitched(false),
                ball: (s.ball + 1) as u8,
                ..s
            },
            crate::running::present(s.runners.runner_3rd),
        )
    } else {
        (
            InningState {
                runners: s.runners.spec_wild_pitched(true),
                ball: 0,
                strike: 0,
                out: s.out,
                active_batter: None,
            },
            crate::running::present(s.runners.runner_3rd),
        )
    }
}

/// What a pitch the batter took is recorded as.
pub open spec fn take_result(s: InningState, pitch: PitchResult) -> BattingResult {
    match pitch {
        PitchResult::Ball => if s.ball + 1 >= MAX_BALL {
            BattingResult::Walk
        } else {
            BattingResult::Take
        },
        PitchResult::WildPitch => if s.ball + 1 >= MAX_BALL {
            BattingResult::Walk
        } else {
            BattingResult::WildPitch
        },
        PitchResult::Strike => if s.strike + 1 >= MAX_STRIKE {
            BattingResult::Strikeout
        } else {
            BattingResult::Take
        },
        PitchResult::HitByPitch => BattingResult::HitByPitch,
    }
}

/// The situation after a pitch the batter took, and the runs it brought in.
pub open spec fn after_take(s: InningState, pitch: PitchResult) -> (InningState, nat) {
    match pitch {
        PitchResult::HitByPitch => (walked(s), s.runners.walk_runs()),
        PitchResult::WildPitch => wild_pitched(s),
        PitchResult::Ball => balled(s),
        PitchResult::Strike => (struck(s), 0),
    }
}

/// The plate appearance ends: nobody at bat, no batter-runner.
pub open spec fn finished(s: InningState) -> InningState {
    InningState {
        runners: RunnersOnBase { batter_runner: None, ..s.runners },
        active_batter: None,
        ..s
    }
}

impl GameState {
    /// `new` records one more batting entry `b` than `old`, and nothing else in the play log.
    pub open spec fn logged(old: &GameState, new: &GameState, b: PlayerGameBatting) -> bool {
        &&& GameState::batting_logged(old, new, b)
        &&& new.game_result.player_fieldings == old.game_result.player_fieldings
        &&& new.game_result.player_runnings == old.game_result.player_runnings
    }

    /// `new` records one more batting entry `b` than `old`; the game's id, its innings, the
    /// stints on the field and the pitching log are unchanged.
    pub open spec fn batting_logged(old: &GameState, new: &GameState, b: PlayerGameBatting) -> bool {
        &&& new.game_result.player_battings@ == old.game_result.player_battings@.push(b)
        &&& new.game_result.id == old.game_result.id
        &&& new.game_result.innings == old.game_result.innings
        &&& new.game_result.player_entries == old.game_result.player_entries
        &&& new.game_result.player_pitchings == old.game_result.player_pitchings
    }

    pub open spec fn same_lineups(old: &GameState, new: &GameState) -> bool {
        new.away_lineup == old.away_lineup && new.home_lineup == old.home_lineup
    }

    /// The batter-runner enters the play: the runner's id and batting side.
    pub fn prepare_plate_appearance(&mut self, batter_runner: i64, batting_side: RL)
        ensures
            *final(self) == (GameState {
                inning_state: InningState {
                    runners: RunnersOnBase {
                        batter_runner: Some(batter_runner),
                        batting_side: Some(batting_side),
                        ..old(self).inning_state.runners
                    },
                    ..old(self).inning_state
                },
                ..*old(self)
            }),
    {
        self.inning_state.runners.batter_runner = Some(batter_runner);
        self.inning_state.runners.batting_side = Some(batting_side);
    }

    /// The batter of the plate appearance under way, or else the batting side's next batter.
    pub fn active_batter_for_count(&mut self) -> (res: Result<ActiveBatter, GameError>)
        requires
            old(self).wf(),
        ensures
            final(self).wf(),
            match old(self).inning_state.active_batter {
                Some(b) => res == Ok::<ActiveBatter, GameError>(b) && *final(self) == *old(self),
                None => res matches Ok(b) && b == spec_batters(
                    old(self).batting_lineup().players@,
                )[old(self).batting_lineup().current_index as int]
                    && final(self).inning_state.active_batter == Some(b)
                    && final(self).batting_lineup().current_index == (
                    old(self).batting_lineup().current_index + 1) % 9,
            },
            final(self).inning_state.runners == old(self).inning_state.runners,
            final(self).inning_state.ball == old(self).inning_state.ball,
            final(self).inning_state.strike == old(self).inning_state.strike,
            final(self).inning_state.out == old(self).inning_state.out,
            final(self).inning == old(self).inning,
            final(self).inning_tb == old(self).inning_tb,
            final(self).inning_seq == old(self).inning_seq,
            final(self).count_seq == old(self).count_seq,
            final(self).away_total_point == old(self).away_total_point,
            final(self).home_total_point == old(self).home_total_point,
            final(self).game_result == old(self).game_result,
            final(self).fielding_lineup() == old(self).fielding_lineup(),
    {
        match self.inning_state.active_batter {
            Some(active_batter) => {
                return Ok(active_batter);
            },
            None => {},
        }
        let active_batter = match self.current_batter() {
            Ok(b) => b,
            Err(e) => {
                return Err(e);
            },
        };
        self.inning_state.active_batter = Some(active_batter);
        Ok(active_batter)
    }

    /// Ends the plate appearance.
    pub fn finish_plate_appearance(&mut self)
        ensures
            *final(self) == (GameState { inning_state: finished(old(self).inning_state), ..*old(self) }),
    {
        self.inning_state.active_batter = None;
        self.inning_state.runners.batter_runner = None;
    }

    /// The count before the next pitch.
    pub fn count_status(&self) -> (c: CountStatus)
        requires
            self.inning_state.wf(),
        ensures
            c == crate::batting::spec_count_status(self.inning_state.ball, self.inning_state.strike),
            c.balls() == self.inning_state.ball,
            c.strikes() == self.inning_state.strike,
    {
        let b = self.inning_state.ball;
        let s = self.inning_state.strike;
        if s == 0 {
            if b == 0 { CountStatus::C00 } else if b == 1 { CountStatus::C10 } else if b == 2 { CountStatus::C20 } else { CountStatus::C30 }
        } else if s == 1 {
            if b == 0 { CountStatus::C01 } else if b == 1 { CountStatus::C11 } else if b == 2 { CountStatus::C21 } else { CountStatus::C31 }
        } else {
            if b == 0 { CountStatus::C02 } else if b == 1 { CountStatus::C12 } else if b == 2 { CountStatus::C22 } else { CountStatus::C32 }
        }
    }

    /// Ball four or a hit batsman: the batter takes first, forced runners move up, and
    /// the count starts over. Returns the runs forced in.
    pub fn resolve_walk(&mut self) -> (point: u8)
        ensures
            point == old(self).inning_state.runners.walk_runs(),
            *final(self) == (GameState { inning_state: walked(old(self).inning_state), ..*old(self) }),
    {
        let point = self.inning_state.runners.after_walk();
        self.inning_state.ball = 0;
        self.inning_state.strike = 0;
        self.finish_plate_appearance();
        point
    }

    /// A wild pitch counts as a ball and moves every runner up; on ball four the batter
    /// takes first. Returns the runs that scored.
    pub fn resolve_wild_pitch(&mut self) -> (point: u8)
        requires
            old(self).inning_state.wf(),
        ensures
            (final(self).inning_state, point as nat) == wild_pitched(old(self).inning_state),
            *final(self) == (GameState { inning_state: final(self).inning_state, ..*old(self) }),
    {
        if self.inning_state.ball < MAX_BALL {
            self.inning_state.ball += 1;
        }
        let walk = self.inning_state.ball >= MAX_BALL;
        let point = self.inning_state.runners.after_wild_pitch(walk);
        if walk {
            self.inning_state.ball = 0;
            self.inning_state.strike = 0;
            self.finish_plate_appearance();
        }
        point
    }

    /// A ball; ball four walks the batter. Returns the runs forced in.
    pub fn add_ball(&mut self) -> (point: u8)
        requires
            old(self).inning_state.wf(),
        ensures
            (final(self).inning_state, point as nat) == balled(old(self).inning_state),
            *final(self) == (GameState { inning_state: final(self).inning_state, ..*old(self) }),
    {
        if self.inning_state.ball < MAX_BALL {
            self.inning_state.ball += 1;
        }
        if self.inning_state.ball < MAX_BALL {
            return 0;
        }
        self.resolve_walk()
    }

    /// A strike; the third strikes the batter out and the count starts over.
    pub fn add_strike(&mut self)
        requires
            old(self).inning_state.wf(),
            old(self).inning_state.out < u8::MAX,
        ensures
            *final(self) == (GameState { inning_state: struck(old(self).inning_state), ..*old(self) }),
    {
        if self.inning_state.strike < MAX_STRIKE {
            self.inning_state.strike += 1;
        }
        if self.inning_state.strike >= MAX_STRIKE {
            self.inning_state.add_out();
            self.inning_state.ball = 0;
            self.inning_state.strike = 0;
            self.finish_plate_appearance();
        }
    }

    /// Records the count: `point` runs to the batting side, and the balls, strikes and
    /// outs as they stand, under the next count number.
    pub fn add_count(&mut self, point: u8)
        requires
            old(self).count_seq < u16::MAX,
            old(self).batting_points() + point <= u8::MAX,
        ensures
            GameState::counted(old(self), final(self), point as nat),
            final(self).inning_state == old(self).inning_state,
            final(self).game_result == old(self).game_result,
            GameState::same_lineups(old(self), final(self)),
    {
        match self.inning_tb {
            TB::Top => self.away_total_point += point,
            TB::Bottom => self.home_total_point += point,
        };
        self.inning.add_count(
            Count {
                seq: self.count_seq,
                ball: self.inning_state.ball,
                strike: self.inning_state.strike,
                out: self.inning_state.out,
                point: point,
            },
        );
        self.count_seq += 1;
    }

    /// The batter took the pitch: the umpire's call decides a ball, a strike, a hit
    /// batsman or a wild pitch, and the count is recorded.
    pub fn resolve_take(&mut self, pitcher_id: i64, batter_id: i64, pitch_result: PitchResult)
        requires
            old(self).wf(),
            old(self).has_room(),
            old(self).in_play(),
        ensures
            final(self).wf(),
            final(self).inning_state == after_take(old(self).inning_state, pitch_result).0,
            GameState::counted(old(self), final(self), after_take(old(self).inning_state, pitch_result).1),
            GameState::logged(
                old(self),
                final(self),
                batting(
                    old(self).count_seq,
                    pitcher_id,
                    batter_id,
                    None,
                    take_result(old(self).inning_state, pitch_result),
                ),
            ),
            GameState::same_lineups(old(self), final(self)),
    {
        let batting_result = match pitch_result {
            PitchResult::Ball => if self.inning_state.ball + 1 >= MAX_BALL {
                BattingResult::Walk
            } else {
                BattingResult::Take
            },
            PitchResult::WildPitch => if self.inning_state.ball + 1 >= MAX_BALL {
                BattingResult::Walk
            } else {
                BattingResult::WildPitch
            },
            PitchResult::Strike => if self.inning_state.strike + 1 >= MAX_STRIKE {
                BattingResult::Strikeout
            } else {
                BattingResult::Take
            },
            PitchResult::HitByPitch => BattingResult::HitByPitch,
        };
        self.game_result.add_player_batting(self.count_seq, pitcher_id, batter_id, None, batting_result);
        let point = match pitch_result {
            PitchResult::HitByPitch => self.resolve_walk(),
            PitchResult::WildPitch => self.resolve_wild_pitch(),
            PitchResult::Ball => self.add_ball(),
            PitchResult::Strike => {
                self.add_strike();
                0
            },
        };
        self.add_count(point);
    }

    /// The batter swung and missed: a strike, or strike three, and the count is recorded.
    pub fn resolve_swung_and_miss(&mut self, pitcher_id: i64, batter_id: i64)
        requires
            old(self).wf(),
            old(self).has_room(),
            old(self).in_play(),
        ensures
            final(self).wf(),
            final(self).inning_state == struck(old(self).inning_state),
            GameState::counted(old(self), final(self), 0),
            GameState::logged(
                old(self),
                final(self),
                batting(
                    old(self).count_seq,
                    pitcher_id,
                    batter_id,
                    None,
                    if old(self).inning_state.strike + 1 >= MAX_STRIKE {
                        BattingResult::Strikeout
                    } else {
                        BattingResult::StrikeSwung
                    },
                ),
            ),
            GameState::same_lineups(old(self), final(self)),
    {
        let batting_result = if self.inning_state.strike + 1 >= MAX_STRIKE {
            BattingResult::Strikeout
        } else {
            BattingResult::StrikeSwung
        };
        self.game_result.add_player_batting(self.count_seq, pitcher_id, batter_id, None, batting_result);
        self.add_strike();
        self.add_count(0);
    }

    /// A batted ball ruled foul where it was fielded: a strike unless the batter has two.
    pub fn resolve_fielded_foul(&mut self, pitcher_id: i64, batter_id: i64)
        requires
            old(self).wf(),
            old(self).has_room(),
            old(self).in_play(),
        ensures
            final(self).wf(),
            final(self).inning_state == (if old(self).inning_state.strike < 2 {
                struck(old(self).inning_state)
            } else {
                old(self).inning_state
            }),
            GameState::counted(old(self), final(self), 0),
            GameState::logged(
                old(self),
                final(self),
                batting(old(self).count_seq, pitcher_id, batter_id, None, BattingResult::Foul),
            ),
            GameState::same_lineups(old(self), final(self)),
    {
        self.game_result.add_player_batting(
            self.count_seq,
            pitcher_id,
            batter_id,
            None,
            BattingResult::Foul,
        );
        if self.inning_state.strike < 2 {
            self.add_strike();
        }
        self.add_count(0);
    }

    /// A ball hit out of play in foul territory: recorded, with the count unchanged.
    pub fn resolve_foul(&mut self, pitcher_id: i64, batter_id: i64)
        requires
            old(self).has_room(),
        ensures
            final(self).inning_state == old(self).inning_state,
            GameState::counted(old(self), final(self), 0),
            GameState::logged(
                old(self),
                final(self),
                batting(old(self).count_seq, pitcher_id, batter_id, None, BattingResult::Foul),
            ),
            GameState::same_lineups(old(self), final(self)),
    {
        self.game_result.add_player_batting(
            self.count_seq,
            pitcher_id,
            batter_id,
            None,
            BattingResult::Foul,
        );
        self.add_count(0);
    }

    /// A home run: the batter and every runner score and the bases are cleared.
    pub fn resolve_homerun(&mut self, pitcher_id: i64, batter_id: i64)
        requires
            old(self).has_room(),
        ensures
            final(self).inning_state == finished(
                InningState {
                    runners: old(self).inning_state.runners.spec_cleared(),
                    ..old(self).inning_state
                },
            ),
            GameState::counted(old(self), final(self), 1 + old(self).inning_state.runners.count()),
            GameState::logged(
                old(self),
                final(self),
                batting(old(self).count_seq, pitcher_id, batter_id, None, BattingResult::HomeRun),
            ),
            GameState::same_lineups(old(self), final(self)),
    {
        let point = self.inning_state.runners.after_homerun();
        self.game_result.add_player_batting(
            self.count_seq,
            pitcher_id,
            batter_id,
            None,
            BattingResult::HomeRun,
        );
        self.add_count(point);
        self.finish_plate_appearance();
    }

    /// A ground-rule double: the batter takes second and every runner two bases.
    pub fn resolve_ground_rule_double(&mut self, pitcher_id: i64, batter_id: i64)
        requires
            old(self).has_room(),
        ensures
            final(self).inning_state == finished(
                InningState {
                    runners: old(self).inning_state.runners.spec_ground_rule_doubled(),
                    ..old(self).inning_state
                },
            ),
            GameState::counted(
                old(self),
                final(self),
                crate::running::present(old(self).inning_state.runners.runner_2nd)
                    + crate::running::present(old(self).inning_state.runners.runner_3rd),
            ),
            GameState::logged(
                old(self),
                final(self),
                batting(old(self).count_seq, pitcher_id, batter_id, None, BattingResult::Double),
            ),
            GameState::same_lineups(old(self), final(self)),
    {
        let point = self.inning_state.runners.after_ground_rule_double();
        self.game_result.add_player_batting(
            self.count_seq,
            pitcher_id,
            batter_id,
            None,
            BattingResult::Double,
        );
        self.add_count(point);
        self.finish_plate_appearance();
    }

    /// Writes the final score to the game record and closes the fielders' stints.
    pub fn finish_game(&mut self)
        ensures
            final(self).game_result.away_total_point == old(self).away_total_point,
            final(self).game_result.home_total_point == old(self).home_total_point,
            final(self).game_result.player_entries@ == old(self).game_result.player_entries@.map_values(
                |e: crate::game_stats::PlayerGameEntry| crate::game::closed_entry(e, old(self).count_seq),
            ),
            final(self).game_result.innings == old(self).game_result.innings,
            final(self).game_result.player_battings == old(self).game_result.player_battings,
    {
        self.game_result.away_total_point = self.away_total_point;
        self.game_result.home_total_point = self.home_total_point;
        self.game_result.update_player_game_entry_at_game_end(self.count_seq);
    }
}


pub open spec fn running_record(
    count_seq: u16,
    seq: u8,
    event: RunningEvent,
    r: RunnerAdvanceResult,
) -> crate::game_stats::PlayerGameRunning {
    crate::game_stats::PlayerGameRunning {
        count_seq,
        seq,
        throw_target_base: r.throw_target_base,
        target_runner_id: None,
        event,
        play_type: r.play_type,
        ruling: r.ruling,
        runs_scored: r.runs_scored,
        runner_1st_id: r.unsaved_runners.runner_1st,
        runner_2nd_id: r.unsaved_runners.runner_2nd,
        runner_3rd_id: r.unsaved_runners.runner_3rd,
    }
}

impl GameState {
    /// Records the count that a play ended: the runners it left go on the bases, the
    /// batter's result is logged with the fielder who handled the ball, and the plate
    /// appearance is over.
    pub fn commit_count_result(
        &mut self,
        pitcher_id: i64,
        batter_id: i64,
        fielded_by: Position,
        batting_result: BattingResult,
        point: u8,
        unsaved_runners: RunnersUnsaved,
    )
        requires
            old(self).count_seq < u16::MAX,
            old(self).batting_points() + point <= u8::MAX,
        ensures
            final(self).inning_state == finished(
                InningState {
                    runners: RunnersOnBase {
                        runner_1st: unsaved_runners.runner_1st,
                        runner_2nd: unsaved_runners.runner_2nd,
                        runner_3rd: unsaved_runners.runner_3rd,
                        ..old(self).inning_state.runners
                    },
                    ..old(self).inning_state
                },
            ),
            GameState::counted(old(self), final(self), point as nat),
            GameState::logged(
                old(self),
                final(self),
                batting(old(self).count_seq, pitcher_id, batter_id, Some(fielded_by), batting_result),
            ),
            final(self).game_result.player_fieldings == old(self).game_result.player_fieldings,
            final(self).game_result.player_runnings == old(self).game_result.player_runnings,
            GameState::same_lineups(old(self), final(self)),
    {
        self.inning_state.runners.commit_unsaved_runners(unsaved_runners);
        self.game_result.add_player_batting(
            self.count_seq,
            pitcher_id,
            batter_id,
            Some(fielded_by),
            batting_result,
        );
        self.add_count(point);
        self.finish_plate_appearance();
    }

    /// A fly caught on the fly: the batter is out; if an outfielder caught it and a
    /// runner stands on second or third with fewer than three out, the runners tag up
    /// against the defence's throw (`defense`, with `safe` the race at the base). The
    /// tag-up's runs count; a runner thrown out is one more out. The tag-up's new bases
    /// are logged but the runners are not moved on the bases.
    pub fn resolve_fly_catch(
        &mut self,
        pitcher_id: i64,
        batter_id: i64,
        catch_fielder_id: i64,
        catch_fielder_position: Position,
        fielded_by: Position,
        defense: &DefensePlayResult,
        safe: SafeAtTarget,
    ) -> (res: Result<(), GameError>)
        requires
            old(self).wf(),
            old(self).has_room(),
            old(self).in_play(),
        ensures
            final(self).wf(),
            GameState::same_lineups(old(self), final(self)),
            res is Ok ==> final(self).game_result.player_fieldings@
                == old(self).game_result.player_fieldings@.push(
                fly_catch_fielding(
                    old(self).count_seq,
                    catch_fielder_id,
                    catch_fielder_position,
                    PlayType::CatchPlay,
                ),
            ),
            final(self).game_result.player_pitchings == old(self).game_result.player_pitchings,
            ({
                let s = old(self).inning_state;
                let caught = InningState { out: (s.out + 1) as u8, ..s };
                if fielded_by.spec_is_outfielder() && caught.spec_allows_tagup() {
                    match s.runners.spec_after_tagup(defense.throw_target_base, defense.play_type, safe) {
                        Err(e) => res == Err::<(), GameError>(e) && *final(self) == (GameState {
                            inning_state: caught,
                            ..*old(self)
                        }),
                        Ok(r) => res is Ok && final(self).inning_state == finished(
                            InningState {
                                out: (s.out + 1 + crate::running::out_count(r.ruling)) as u8,
                                ..s
                            },
                        ) && GameState::counted(
                            old(self),
                            final(self),
                            if r.ruling == Ruling::Out { 0 } else { r.runs_scored as nat },
                        ) && final(self).game_result.player_runnings@
                            == old(self).game_result.player_runnings@.push(
                            running_record(old(self).count_seq, 1, RunningEvent::TagUp, r),
                        ) && final(self).game_result.player_battings@
                            == old(self).game_result.player_battings@.push(
                            batting(
                                old(self).count_seq,
                                pitcher_id,
                                batter_id,
                                Some(fielded_by),
                                BattingResult::Out,
                            ),
                        ),
                    }
                } else {
                    res is Ok && final(self).inning_state == finished(caught) && GameState::counted(
                        old(self),
                        final(self),
                        0,
                    ) && final(self).game_result.player_runnings
                        == old(self).game_result.player_runnings
                        && final(self).game_result.player_battings@
                        == old(self).game_result.player_battings@.push(
                        batting(
                            old(self).count_seq,
                            pitcher_id,
                            batter_id,
                            Some(fielded_by),
                            BattingResult::Out,
                        ),
                    )
                }
            }),
    {
        self.inning_state.add_out();
        let mut point: u8 = 0;
        if fielded_by.is_outfielder() && self.inning_state.allows_tagup() {
            let runner_advance_result = match self.inning_state.runners.after_tagup(
                defense.throw_target_base,
                defense.play_type,
                safe,
            ) {
                Ok(r) => r,
                Err(e) => {
                    return Err(e);
                },
            };
            self.game_result.add_player_running(
                self.count_seq,
                1,
                RunningEvent::TagUp,
                &runner_advance_result,
            );
            if runner_advance_result.ruling == Ruling::Out {
                self.inning_state.add_out();
            } else {
                point = runner_advance_result.runs_scored;
            }
        }
        self.game_result.add_player_fielding_from_fly_catch(
            self.count_seq,
            catch_fielder_id,
            catch_fielder_position,
            PlayType::CatchPlay,
        );
        self.game_result.add_player_batting(
            self.count_seq,
            pitcher_id,
            batter_id,
            Some(fielded_by),
            BattingResult::Out,
        );
        self.add_count(point);
        self.finish_plate_appearance();
        Ok(())
    }

    /// A stolen base attempt against the catcher's throw `steal`: a safe runner moves
    /// up; a runner thrown out is an out, and that ends the count.
    pub fn try_steal_base(&mut self, steal: &StealDefensePlayResult, safe: SafeAtTarget) -> (res: Result<
        Ruling,
        GameError,
    >)
        requires
            old(self).wf(),
            old(self).has_room(),
            old(self).in_play(),
        ensures
            final(self).wf(),
            GameState::same_lineups(old(self), final(self)),
            ({
                let (runners, r) = old(self).inning_state.runners.spec_after_base_stealing(
                    steal.throw_target_base,
                    safe,
                );
                match r {
                    Err(e) => res == Err::<Ruling, GameError>(e) && *final(self) == *old(self),
                    Ok(r) => res == Ok::<Ruling, GameError>(r.ruling) && final(self).inning_state
                        == (InningState {
                        runners,
                        out: (old(self).inning_state.out + crate::running::out_count(r.ruling)) as u8,
                        ..old(self).inning_state
                    }) && final(self).game_result.player_runnings@.len()
                        == old(self).game_result.player_runnings@.len() + 1 && final(self).game_result.player_battings == old(self).game_result.player_battings && (
                    r.ruling == Ruling::Out ==> GameState::counted(old(self), final(self), 0)) && (
                    r.ruling == Ruling::Safe ==> final(self).inning == old(self).inning
                        && final(self).count_seq == old(self).count_seq),
                }
            }),
    {
        let steal_runner_advance_result = match self.inning_state.runners.after_base_stealing(
            steal.throw_target_base,
            safe,
        ) {
            Ok(r) => r,
            Err(e) => {
                return Err(e);
            },
        };
        let runners = self.inning_state.runners.current_runners();
        self.game_result.add_player_running_from_stolen_base(
            self.count_seq,
            runners,
            &steal_runner_advance_result,
        );
        let ruling = steal_runner_advance_result.ruling;
        if ruling == Ruling::Out {
            self.inning_state.add_out();
            self.add_count(0);
        }
        Ok(ruling)
    }

    /// The running on a ball in play: an outfielder's ball is run on as a hit, with
    /// the batter running as `running_plan` says; an infielder's as a grounder.
    pub fn resolve_ball_in_play(
        runners: &RunnersOnBase,
        fielded_by: Position,
        running_plan: RunningPlan,
        defense: &DefensePlayResult,
        safe: SafeAtTarget,
    ) -> (res: Result<RunnerAdvanceResult, GameError>)
        ensures
            res == if fielded_by.spec_is_outfielder() {
                runners.spec_after_outfield_hit(
                    running_plan,
                    defense.throw_target_base,
                    defense.play_type,
                    safe,
                )
            } else {
                runners.spec_after_infield_grounder(defense.throw_target_base, defense.play_type, safe)
            },
    {
        if fielded_by.is_outfielder() {
            runners.after_outfield_hit(running_plan, defense.throw_target_base, defense.play_type, safe)
        } else {
            runners.after_infield_grounder(defense.throw_target_base, defense.play_type, safe)
        }
    }

    /// Logs the first play on a ball in play (`defense`, and the running `runner_advance_result`
    /// as running play `running_seq`). A runner put out is an out; if that ends the half
    /// inning the count is recorded at once. Says whether a double play may follow.
    pub fn record_ball_in_play(
        &mut self,
        pitcher_id: i64,
        batter_id: i64,
        fielded_by: Position,
        running_seq: u8,
        defense: &DefensePlayResult,
        runner_advance_result: &RunnerAdvanceResult,
    ) -> (step: BallInPlayStep)
        requires
            old(self).wf(),
            old(self).has_room(),
            old(self).in_play(),
            runner_advance_result.runs_scored <= 4,
        ensures
            final(self).wf(),
            GameState::same_lineups(old(self), final(self)),
            final(self).game_result.player_runnings@ == old(self).game_result.player_runnings@.push(
                running_record(old(self).count_seq, running_seq, RunningEvent::GrounderPlay, *runner_advance_result),
            ),
            final(self).game_result.player_fieldings@ == old(self).game_result.player_fieldings@.push(
                play_fielding(old(self).count_seq, *defense),
            ),
            final(self).game_result.player_pitchings == old(self).game_result.player_pitchings,
            ({
                let s = old(self).inning_state;
                let out = s.out + crate::running::out_count(runner_advance_result.ruling);
                if out >= MAX_OUT {
                    step == BallInPlayStep::Finished && final(self).inning_state == finished(
                        InningState {
                            runners: RunnersOnBase {
                                runner_1st: runner_advance_result.unsaved_runners.runner_1st,
                                runner_2nd: runner_advance_result.unsaved_runners.runner_2nd,
                                runner_3rd: runner_advance_result.unsaved_runners.runner_3rd,
                                ..s.runners
                            },
                            out: out as u8,
                            ..s
                        },
                    ) && GameState::counted(old(self), final(self), runner_advance_result.runs_scored as nat)
                        && GameState::batting_logged(
                        old(self),
                        final(self),
                        batting(
                            old(self).count_seq,
                            pitcher_id,
                            batter_id,
                            Some(fielded_by),
                            runner_advance_result.batting_result,
                        ),
                    )
                } else {
                    final(self).inning_state == (InningState { out: out as u8, ..s })
                        && final(self).inning == old(self).inning
                        && final(self).count_seq == old(self).count_seq
                        && final(self).away_total_point == old(self).away_total_point
                        && final(self).home_total_point == old(self).home_total_point
                        && final(self).game_result.player_battings == old(self).game_result.player_battings
                        && step == if fielded_by.spec_is_infielder() && out < 2 && s.runners.runner_1st is Some {
                        BallInPlayStep::DoublePlayChance
                    } else {
                        BallInPlayStep::Commit
                    }
                }
            }),
    {
        self.game_result.add_player_fielding(self.count_seq, defense);
        self.game_result.add_player_running(
            self.count_seq,
            running_seq,
            RunningEvent::GrounderPlay,
            runner_advance_result,
        );
        if runner_advance_result.ruling == Ruling::Out {
            self.inning_state.add_out();
            if self.inning_state.inning_progress() == InningProgress::Over {
                self.commit_count_result(
                    pitcher_id,
                    batter_id,
                    fielded_by,
                    runner_advance_result.batting_result,
                    runner_advance_result.runs_scored,
                    runner_advance_result.unsaved_runners,
                );
                return BallInPlayStep::Finished;
            }
        }
        if fielded_by.is_infielder() && self.inning_state.can_double_play() {
            BallInPlayStep::DoublePlayChance
        } else {
            BallInPlayStep::Commit
        }
    }

    /// The second throw of a double play, if the defence makes one (`double_play`),
    /// after the first play `runner_advance_result`: it is logged as fielding play 2 and
    /// running play `running_seq`, and the count is recorded with the first play's runs.
    /// A second out makes the play a double play. Says whether a second throw was made.
    pub fn try_double_play(
        &mut self,
        pitcher_id: i64,
        batter_id: i64,
        fielded_by: Position,
        running_seq: u8,
        double_play: Option<DoublePlayDefensePlayResult>,
        runner_advance_result: &RunnerAdvanceResult,
        safe: SafeAtTarget,
    ) -> (res: Result<bool, GameError>)
        requires
            old(self).wf(),
            old(self).has_room(),
            old(self).in_play(),
            runner_advance_result.runs_scored <= 4,
        ensures
            final(self).wf(),
            GameState::same_lineups(old(self), final(self)),
            match double_play {
                None => res == Ok::<bool, GameError>(false) && *final(self) == *old(self),
                Some(dp) => final(self).game_result.player_fieldings@
                    == old(self).game_result.player_fieldings@.push(
                    double_play_fielding(old(self).count_seq, dp),
                ) && final(self).game_result.player_pitchings
                    == old(self).game_result.player_pitchings && match old(
                    self,
                ).inning_state.runners.spec_after_double_play(
                    dp.throw_target_base,
                    runner_advance_result.unsaved_runners,
                    safe,
                ) {
                    Err(e) => res == Err::<bool, GameError>(e) && final(self).inning_state
                        == old(self).inning_state && final(self).inning == old(self).inning
                        && final(self).count_seq == old(self).count_seq
                        && final(self).game_result.player_runnings
                        == old(self).game_result.player_runnings
                        && final(self).game_result.player_battings
                        == old(self).game_result.player_battings,
                    Ok(r) => res == Ok::<bool, GameError>(true) && final(self).inning_state
                        == finished(
                        InningState {
                            runners: RunnersOnBase {
                                runner_1st: r.unsaved_runners.runner_1st,
                                runner_2nd: r.unsaved_runners.runner_2nd,
                                runner_3rd: r.unsaved_runners.runner_3rd,
                                ..old(self).inning_state.runners
                            },
                            out: (old(self).inning_state.out + crate::running::out_count(r.ruling)) as u8,
                            ..old(self).inning_state
                        },
                    ) && final(self).count_seq == old(self).count_seq + 1 && final(self).batting_points()
                        == old(self).batting_points() + runner_advance_result.runs_scored
                        && final(self).game_result.player_runnings@
                        == old(self).game_result.player_runnings@.push(
                        double_play_running(old(self).count_seq, running_seq, r),
                    ) && final(self).game_result.player_battings@
                        == old(self).game_result.player_battings@.push(
                        batting(
                            old(self).count_seq,
                            pitcher_id,
                            batter_id,
                            Some(fielded_by),
                            if r.ruling == Ruling::Out {
                                BattingResult::DoublePlay
                            } else {
                                runner_advance_result.batting_result
                            },
                        ),
                    ),
                },
            },
    {
        match double_play {
            None => Ok(false),
            Some(dp) => {
                self.game_result.add_player_fielding_from_double_play(self.count_seq, &dp);
                let dp_result = match self.inning_state.runners.after_double_play(
                    dp.throw_target_base,
                    runner_advance_result.unsaved_runners,
                    safe,
                ) {
                    Ok(r) => r,
                    Err(e) => {
                        return Err(e);
                    },
                };
                self.game_result.add_player_running_from_double_play(
                    self.count_seq,
                    running_seq,
                    &dp_result,
                );
                let batting_result = if dp_result.ruling == Ruling::Out {
                    BattingResult::DoublePlay
                } else {
                    runner_advance_result.batting_result
                };
                self.commit_count_result(
                    pitcher_id,
                    batter_id,
                    fielded_by,
                    batting_result,
                    runner_advance_result.runs_scored,
                    dp_result.unsaved_runners,
                );
                if dp_result.ruling == Ruling::Out {
                    self.inning_state.add_out();
                }
                Ok(true)
            },
        }
    }
}

impl Ruling {
    /// Key of the name in the message catalogue.
    pub fn message_key(&self) -> (key: &'static str)
        ensures
            key@ == spec_ruling_key(*self),
    {
        proof {
            reveal_strlit("safe");
            reveal_strlit("out");
        }
        match self {
            Ruling::Safe => "safe",
            Ruling::Out => "out",
        }
    }
}

pub open spec fn spec_ruling_key(v: Ruling) -> Seq<char> {
    match v {
        Ruling::Safe => "safe"@,
        Ruling::Out => "out"@,
    }
}

impl GameState {
    /// The scheduled game before its first pitch, with a lineup drawn for each team,
    /// the away team's first. Whatever the draws, each lineup is what its draws give.
    pub fn new<R: RandomProvider>(rng: &mut R, game_schedule: GameSchedule) -> (res: Result<
        GameState,
        GameError,
    >)
        ensures
            match res {
                Ok(g) => {
                    &&& exists|pa: Seq<int>, pb: Seq<int>|
                        #![trigger lineup_outcome(game_schedule.away_team.players@, pa, Ok::<Lineup, GameError>(g.away_lineup)), lineup_outcome(game_schedule.home_team.players@, pb, Ok::<Lineup, GameError>(g.home_lineup))]
                        lineup_outcome(
                            game_schedule.away_team.players@,
                            pa,
                            Ok::<Lineup, GameError>(g.away_lineup),
                        ) && lineup_outcome(
                            game_schedule.home_team.players@,
                            pb,
                            Ok::<Lineup, GameError>(g.home_lineup),
                        ) && final(rng).draws() == old(rng).draws() + lineup_draws(
                            game_schedule.away_team.players@,
                            pa,
                        ) + lineup_draws(game_schedule.home_team.players@, pb)
                    &&& g.wf()
                    &&& g.inning_seq == 0
                    &&& g.inning_tb == TB::Bottom
                    &&& g.count_seq == 1
                    &&& g.away_total_point == 0
                    &&& g.home_total_point == 0
                    &&& g.inning_state == InningState::initial()
                    &&& g.inning.seq == 0 && g.inning.tb == TB::Bottom && g.inning.counts@.len() == 0
                    &&& g.game_result.id == game_schedule.id
                    &&& g.game_result.actual_date == game_schedule.planned_date
                    &&& g.game_result.innings@.len() == 0
                    &&& g.game_result.away_total_point == 0
                    &&& g.game_result.home_total_point == 0
                    &&& g.game_result.player_pitchings@.len() == 0
                    &&& g.game_result.player_battings@.len() == 0
                    &&& g.game_result.player_fieldings@.len() == 0
                    &&& g.game_result.player_runnings@.len() == 0
                    &&& g.game_result.player_entries@ == (spec_fielders(
                        g.away_lineup.players@,
                        g.away_lineup.risk_tolerance,
                    ) + spec_fielders(g.home_lineup.players@, g.home_lineup.risk_tolerance)).map_values(
                        |f: ActiveFielder| crate::game::opening_entry(f),
                    )
                },
                Err(e) => (exists|pa: Seq<int>|
                    #[trigger] lineup_outcome(
                        game_schedule.away_team.players@,
                        pa,
                        Err::<Lineup, GameError>(e),
                    ) && final(rng).draws() == old(rng).draws() + lineup_draws(
                        game_schedule.away_team.players@,
                        pa,
                    )) || (exists|pa: Seq<int>, l: Lineup, pb: Seq<int>|
                    #![trigger lineup_outcome(game_schedule.away_team.players@, pa, Ok::<Lineup, GameError>(l)), lineup_outcome(game_schedule.home_team.players@, pb, Err::<Lineup, GameError>(e))]
                    lineup_outcome(
                        game_schedule.away_team.players@,
                        pa,
                        Ok::<Lineup, GameError>(l),
                    ) && lineup_outcome(
                        game_schedule.home_team.players@,
                        pb,
                        Err::<Lineup, GameError>(e),
                    ) && final(rng).draws() == old(rng).draws() + lineup_draws(
                        game_schedule.away_team.players@,
                        pa,
                    ) + lineup_draws(game_schedule.home_team.players@, pb)),
            },
    {
        let mut game_schedule = game_schedule;
        let ghost away_roster = game_schedule.away_team.players@;
        let ghost home_roster = game_schedule.home_team.players@;
        let ghost d0 = rng.draws();
        let away_res = game_schedule.away_team.lineup(rng);
        let ghost d1 = rng.draws();
        let ghost pa = choose|p: Seq<int>|
            #[trigger] lineup_outcome(away_roster, p, away_res) && d1 == d0 + lineup_draws(
                away_roster,
                p,
            );
        let away_lineup = match away_res {
            Ok(l) => l,
            Err(e) => {
                return Err(e);
            },
        };
        let home_res = game_schedule.home_team.lineup(rng);
        let ghost pb = choose|p: Seq<int>|
            #[trigger] lineup_outcome(home_roster, p, home_res) && rng.draws() == d1 + lineup_draws(
                home_roster,
                p,
            );
        let home_lineup = match home_res {
            Ok(l) => l,
            Err(e) => {
                proof {
                    assert(lineup_outcome(away_roster, pa, Ok::<Lineup, GameError>(away_lineup)));
                    assert(lineup_outcome(home_roster, pb, Err::<Lineup, GameError>(e)));
                }
                return Err(e);
            },
        };
        proof {
            lemma_outcome_lineup_wf(away_roster, pa, away_lineup);
            lemma_outcome_lineup_wf(home_roster, pb, home_lineup);
            assert(lineup_outcome(away_roster, pa, Ok::<Lineup, GameError>(away_lineup)));
            assert(lineup_outcome(home_roster, pb, Ok::<Lineup, GameError>(home_lineup)));
        }
        Ok(GameState::with_lineups(game_schedule.id, game_schedule.planned_date, away_lineup, home_lineup))
    }
}

/// Every run added to a side's total by a recorded count shows in the count itself: the
/// total less the runs of the half inning's counts is the same before and after.
pub proof fn lemma_runs_enter_line_score(old: GameState, new: GameState, point: nat)
    requires
        GameState::counted(&old, &new, point),
        point <= u8::MAX,
    ensures
        new.batting_points() - crate::cursor::points_sum(new.inning.counts@) == old.batting_points()
            - crate::cursor::points_sum(old.inning.counts@),
{
    let pushed = old.inning.counts@.push(count_after(old.count_seq, point, new.inning_state));
    assert(pushed.drop_last() =~= old.inning.counts@);
}

/// How a game stands depends on the inning and the score alone: before the ninth it
/// goes on; from the top of the ninth on it is set once the home side leads after the
/// top half; from the bottom of the ninth on it never goes on — a walk-off when the home
/// side leads, else the game is set — and between half innings the loop closes it.
pub proof fn lemma_game_ends_from_the_ninth(g: GameState)
    ensures
        g.inning_seq < MAX_INNING ==> g.spec_progress() == GameProgress::Ongoing,
        g.inning_seq >= MAX_INNING && g.inning_tb == TB::Top ==> (g.spec_progress()
            == GameProgress::GameSet <==> g.away_total_point < g.home_total_point)
            && g.spec_progress() != GameProgress::WalkOff,
        g.inning_seq >= MAX_INNING && g.inning_tb == TB::Bottom ==> g.spec_progress() == (
        if g.home_total_point > g.away_total_point {
            GameProgress::WalkOff
        } else {
            GameProgress::GameSet
        }),
        g.inning_seq >= MAX_INNING && g.inning_tb == TB::Bottom ==> spec_next_step(
            GamePhase::BetweenHalfInnings,
            g.spec_progress(),
            g.inning_state.spec_inning_progress(),
        ) == GameStep::FinishGame,
{
}

/// A taken pitch is logged as ending the plate appearance exactly when it does: a walk,
/// a hit batsman or a strikeout leaves a fresh count, and any other take leaves the count
/// going; the take is logged as a strikeout exactly when it adds an out, and no other
/// take changes the outs.
pub proof fn lemma_take_logged_as_it_ends(s: InningState, pitch: PitchResult)
    requires
        s.wf(),
        s.out < MAX_OUT,
    ensures
        ({
            let t = after_take(s, pitch).0;
            let r = take_result(s, pitch);
            &&& (r == BattingResult::Walk || r == BattingResult::HitByPitch || r
                == BattingResult::Strikeout) <==> (t.ball == 0 && t.strike == 0)
            &&& r == BattingResult::Strikeout <==> t.out == s.out + 1
            &&& r != BattingResult::Strikeout ==> t.out == s.out
        }),
{
}

/// A half inning is over exactly when three are out, and a fresh half inning has nobody
/// out, nobody on base and no count.
pub proof fn lemma_half_inning_over_at_three_outs(s: InningState)
    ensures
        s.spec_inning_progress() == InningProgress::Over <==> s.out >= 3,
        InningState::initial().out == 0 && InningState::initial().ball == 0
            && InningState::initial().strike == 0,
        InningState::initial().runners.count() == 0 && InningState::initial().runners.batter_runner is None,
        InningState::initial().spec_inning_progress() == InningProgress::Ongoing,
{
}

} // verus!
