use vstd::prelude::*;
use crate::fielding::PlayType;
use crate::game::BattingResult;
use crate::game_state::{GameError, Ruling};
use crate::player::RL;
use crate::stadium::Base;

verus! {

/// What a runner did on a play, as recorded in the play log.
#[derive(Clone, Copy, PartialEq, Eq, Structural, Debug)]
pub enum RunningEvent {
    GrounderPlay,
    TagUp,
    StolenBase,
    DoublePlay,
}

/// For each runner, whether they reach the base the defence throws to before the throw.
/// The clock that decides it (running and throwing times) stays outside the library.
#[derive(Clone, Copy, PartialEq, Eq, Structural, Debug)]
pub struct SafeAtTarget {
    pub batter: bool,
    pub from_first: bool,
    pub from_second: bool,
    pub from_third: bool,
}

pub open spec fn ruling_of(safe: bool) -> Ruling {
    if safe {
        Ruling::Safe
    } else {
        Ruling::Out
    }
}

fn judge(safe: bool) -> (r: Ruling)
    ensures
        r == ruling_of(safe),
{
    if safe {
        Ruling::Safe
    } else {
        Ruling::Out
    }
}

/// The base a batter who hit to the outfield runs for.
#[derive(Clone, Copy, PartialEq, Eq, Structural, Debug)]
pub struct RunningPlan {
    pub batter_runner: Base,
    pub runner_1st: Base,
    pub runner_2nd: Base,
    pub runner_3rd: Base,
}

impl RunningPlan {
    /// Plans the running from when the ball is fielded: later than the batter needs
    /// to reach second means a triple attempt, later than first a double, else a single.
    pub fn set(fielded_after_batter_reaches_second: bool, fielded_after_batter_reaches_first: bool)
        -> (plan: Self)
        ensures
            plan.batter_runner == (if fielded_after_batter_reaches_second {
                Base::Third
            } else if fielded_after_batter_reaches_first {
                Base::Second
            } else {
                Base::First
            }),
            plan.runner_1st == (if fielded_after_batter_reaches_second
                || fielded_after_batter_reaches_first {
                Base::Home
            } else {
                Base::Second
            }),
            plan.runner_2nd == Base::Home,
            plan.runner_3rd == Base::Home,
    {
        let (batter_runner, runner_1st, runner_2nd) = if fielded_after_batter_reaches_second {
            (Base::Third, Base::Home, Base::Home)
        } else if fielded_after_batter_reaches_first {
            (Base::Second, Base::Home, Base::Home)
        } else {
            (Base::First, Base::Second, Base::Home)
        };
        Self { batter_runner, runner_1st, runner_2nd, runner_3rd: Base::Home }
    }
}

/// Runners placed by a play but not yet committed to the bases.
#[derive(Clone, Copy, PartialEq, Eq, Structural, Debug)]
pub struct RunnersUnsaved {
    pub runner_1st: Option<i64>,
    pub runner_2nd: Option<i64>,
    pub runner_3rd: Option<i64>,
}

pub open spec fn present(r: Option<i64>) -> nat {
    if r is Some {
        1
    } else {
        0
    }
}

impl RunnersUnsaved {
    pub open spec fn count(self) -> nat {
        present(self.runner_1st) + present(self.runner_2nd) + present(self.runner_3rd)
    }

    pub fn empty_bases() -> (r: Self)
        ensures
            r.runner_1st is None && r.runner_2nd is None && r.runner_3rd is None,
    {
        RunnersUnsaved { runner_1st: None, runner_2nd: None, runner_3rd: None }
    }

    /// The runner placed on `base`; nobody stands on home plate.
    pub fn runner_id_on(&self, base: Base) -> (id: Option<i64>)
        ensures
            id == match base {
                Base::Home => None,
                Base::First => self.runner_1st,
                Base::Second => self.runner_2nd,
                Base::Third => self.runner_3rd,
            },
    {
        match base {
            Base::Home => None,
            Base::First => self.runner_1st,
            Base::Second => self.runner_2nd,
            Base::Third => self.runner_3rd,
        }
    }

    /// Places `runner` on `base`; home plate takes nobody.
    pub fn put(&mut self, base: Base, runner: i64)
        ensures
            *final(self) == match base {
                Base::First => RunnersUnsaved { runner_1st: Some(runner), ..*old(self) },
                Base::Second => RunnersUnsaved { runner_2nd: Some(runner), ..*old(self) },
                Base::Third => RunnersUnsaved { runner_3rd: Some(runner), ..*old(self) },
                Base::Home => *old(self),
            },
    {
        match base {
            Base::First => self.runner_1st = Some(runner),
            Base::Second => self.runner_2nd = Some(runner),
            Base::Third => self.runner_3rd = Some(runner),
            Base::Home => {},
        }
    }

    /// Places `runner` on `base` when there is one.
    pub fn put_if_some(&mut self, base: Base, runner: Option<i64>)
        ensures
            *final(self) == match runner {
                Some(r) => match base {
                    Base::First => RunnersUnsaved { runner_1st: Some(r), ..*old(self) },
                    Base::Second => RunnersUnsaved { runner_2nd: Some(r), ..*old(self) },
                    Base::Third => RunnersUnsaved { runner_3rd: Some(r), ..*old(self) },
                    Base::Home => *old(self),
                },
                None => *old(self),
            },
    {
        match runner {
            Some(r) => self.put(base, r),
            None => {},
        }
    }

    fn score_if_some(runner: Option<i64>) -> (n: u8)
        ensures
            n == present(runner),
    {
        if runner.is_some() {
            1
        } else {
            0
        }
    }
}

/// The outcome of the batter's and runners' advance on a ball in play.
#[derive(Clone, Copy, PartialEq, Eq, Structural, Debug)]
pub struct RunnerAdvanceResult {
    pub throw_target_base: Base,
    pub play_type: PlayType,
    pub ruling: Ruling,
    pub batting_result: BattingResult,
    pub runs_scored: u8,
    pub unsaved_runners: RunnersUnsaved,
}

/// The outcome of the second throw of a double play attempt.
#[derive(Clone, Copy, PartialEq, Eq, Structural, Debug)]
pub struct DoublePlayRunnerAdvanceResult {
    pub throw_target_base: Base,
    pub ruling: Ruling,
    pub unsaved_runners: RunnersUnsaved,
}

/// The outcome of a stolen base attempt.
#[derive(Clone, Copy, PartialEq, Eq, Structural, Debug)]
pub struct StealRunnerAdvanceResult {
    pub throw_target_base: Base,
    pub ruling: Ruling,
}

pub open spec fn spec_advance_count(from: Base, to: Base) -> Option<int> {
    let dest = if to == Base::Home {
        4
    } else {
        to.order()
    };
    if from == Base::Home && to == Base::Home {
        None
    } else if dest <= from.order() {
        None
    } else {
        Some(dest - from.order())
    }
}

/// Number of bases a runner passes going from `from` to `to` round the diamond.
/// Running backwards, standing still and a batter circling all four bases are refused.
pub fn advance_count(from: Base, to: Base) -> (r: Result<u8, GameError>)
    ensures
        match spec_advance_count(from, to) {
            Some(n) => r == Ok::<u8, GameError>(n as u8),
            None => r == Err::<u8, GameError>(GameError::UnsupportedPath),
        },
{
    match (from, to) {
        (Base::Home, Base::First) => Ok(1),
        (Base::Home, Base::Second) => Ok(2),
        (Base::Home, Base::Third) => Ok(3),
        (Base::First, Base::Second) => Ok(1),
        (Base::First, Base::Third) => Ok(2),
        (Base::First, Base::Home) => Ok(3),
        (Base::Second, Base::Third) => Ok(1),
        (Base::Second, Base::Home) => Ok(2),
        (Base::Third, Base::Home) => Ok(1),
        _ => Err(GameError::UnsupportedPath),
    }
}

/// The batter-runner and the runners on base, by player id.
#[derive(Clone, Copy, PartialEq, Eq, Structural, Debug)]
pub struct RunnersOnBase {
    pub batting_side: Option<RL>,
    pub batter_runner: Option<i64>,
    pub runner_1st: Option<i64>,
    pub runner_2nd: Option<i64>,
    pub runner_3rd: Option<i64>,
}

pub open spec fn out_count(ruling: Ruling) -> nat {
    if ruling == Ruling::Out {
        1
    } else {
        0
    }
}

pub open spec fn unsaved(
    runner_1st: Option<i64>,
    runner_2nd: Option<i64>,
    runner_3rd: Option<i64>,
) -> RunnersUnsaved {
    RunnersUnsaved { runner_1st, runner_2nd, runner_3rd }
}

pub open spec fn advance(
    target: Base,
    play_type: PlayType,
    ruling: Ruling,
    batting_result: BattingResult,
    runs_scored: nat,
    unsaved_runners: RunnersUnsaved,
) -> Result<RunnerAdvanceResult, GameError> {
    Ok(
        RunnerAdvanceResult {
            throw_target_base: target,
            play_type,
            ruling,
            batting_result,
            runs_scored: runs_scored as u8,
            unsaved_runners,
        },
    )
}

impl RunnersOnBase {
    /// No batter-runner and nobody on base.
    pub fn new() -> (r: Self)
        ensures
            r.batting_side is None,
            r.batter_runner is None,
            r.count() == 0,
    {
        RunnersOnBase {
            batting_side: None,
            batter_runner: None,
            runner_1st: None,
            runner_2nd: None,
            runner_3rd: None,
        }
    }

    /// Number of runners on first, second and third.
    pub open spec fn count(self) -> nat {
        present(self.runner_1st) + present(self.runner_2nd) + present(self.runner_3rd)
    }

    /// Every runner before a play is, after it, on a base, home, or out.
    pub open spec fn accounts_for(
        self,
        batter_in_play: bool,
        after: RunnersUnsaved,
        runs_scored: nat,
        outs: nat,
    ) -> bool {
        after.count() + runs_scored + outs == self.count() + if batter_in_play {
            present(self.batter_runner)
        } else {
            0
        }
    }

    pub open spec fn spec_has_runner_on(&self, base: Base) -> bool {
        match base {
            Base::First => self.runner_1st is Some,
            Base::Second => self.runner_2nd is Some,
            Base::Third => self.runner_3rd is Some,
            Base::Home => false,
        }
    }

    fn empty(&mut self)
        ensures
            final(self).batting_side is None,
            final(self).batter_runner is None,
            final(self).runner_1st is None,
            final(self).runner_2nd is None,
            final(self).runner_3rd is None,
    {
        self.batting_side = None;
        self.batter_runner = None;
        self.runner_1st = None;
        self.runner_2nd = None;
        self.runner_3rd = None;
    }

    /// Whether a runner stands on `base`; home plate never holds one.
    #[verifier::when_used_as_spec(spec_has_runner_on)]
    pub fn has_runner_on(&self, base: Base) -> (b: bool)
        ensures
            b == self.spec_has_runner_on(base),
    {
        match base {
            Base::First => self.runner_1st.is_some(),
            Base::Second => self.runner_2nd.is_some(),
            Base::Third => self.runner_3rd.is_some(),
            Base::Home => false,
        }
    }

    /// The runner on `base`, home plate meaning the batter-runner.
    pub fn runner_on(&self, base: Base) -> (res: Result<i64, GameError>)
        ensures
            match base {
                Base::Home => match self.batter_runner {
                    Some(r) => res == Ok::<i64, GameError>(r),
                    None => res matches Err(GameError::BatterRunner),
                },
                Base::First => match self.runner_1st {
                    Some(r) => res == Ok::<i64, GameError>(r),
                    None => res matches Err(GameError::Runner1st),
                },
                Base::Second => match self.runner_2nd {
                    Some(r) => res == Ok::<i64, GameError>(r),
                    None => res matches Err(GameError::Runner2nd),
                },
                Base::Third => match self.runner_3rd {
                    Some(r) => res == Ok::<i64, GameError>(r),
                    None => res matches Err(GameError::Runner3rd),
                },
            },
    {
        match base {
            Base::Home => match self.batter_runner {
                Some(r) => Ok(r),
                None => Err(GameError::BatterRunner),
            },
            Base::First => match self.runner_1st {
                Some(r) => Ok(r),
                None => Err(GameError::Runner1st),
            },
            Base::Second => match self.runner_2nd {
                Some(r) => Ok(r),
                None => Err(GameError::Runner2nd),
            },
            Base::Third => match self.runner_3rd {
                Some(r) => Ok(r),
                None => Err(GameError::Runner3rd),
            },
        }
    }

    pub fn is_loaded(&self) -> (b: bool)
        ensures
            b == (self.runner_1st is Some && self.runner_2nd is Some && self.runner_3rd is Some),
    {
        self.runner_1st.is_some() && self.runner_2nd.is_some() && self.runner_3rd.is_some()
    }

    pub fn has_first_and_second(&self) -> (b: bool)
        ensures
            b == (self.runner_1st is Some && self.runner_2nd is Some),
    {
        self.runner_1st.is_some() && self.runner_2nd.is_some()
    }

    pub fn has_second_and_third(&self) -> (b: bool)
        ensures
            b == (self.runner_2nd is Some && self.runner_3rd is Some),
    {
        self.runner_2nd.is_some() && self.runner_3rd.is_some()
    }

    pub fn has_first_and_third(&self) -> (b: bool)
        ensures
            b == (self.runner_1st is Some && self.runner_3rd is Some),
    {
        self.runner_1st.is_some() && self.runner_3rd.is_some()
    }

    /// The runners on first, second and third as they stand.
    pub fn current_runners(&self) -> (r: RunnersUnsaved)
        ensures
            r == unsaved(self.runner_1st, self.runner_2nd, self.runner_3rd),
    {
        RunnersUnsaved {
            runner_1st: self.runner_1st,
            runner_2nd: self.runner_2nd,
            runner_3rd: self.runner_3rd,
        }
    }

    /// Whether a timed run from the batter's box can be taken: it needs the
    /// batter-runner and the side the batter hits from.
    pub open spec fn batter_ready(self) -> bool {
        self.batter_runner is Some && self.batting_side is Some
    }

    /// Home run: every runner and the batter score, and the bases are cleared.
    pub fn after_homerun(&mut self) -> (runs_scored: u8)
        ensures
            runs_scored == 1 + old(self).count(),
            *final(self) == old(self).spec_cleared(),
            final(self).batting_side is None,
            final(self).batter_runner is None,
            final(self).count() == 0,
    {
        let mut runs_scored: u8 = 1;
        runs_scored += RunnersUnsaved::score_if_some(self.runner_1st);
        runs_scored += RunnersUnsaved::score_if_some(self.runner_2nd);
        runs_scored += RunnersUnsaved::score_if_some(self.runner_3rd);
        self.empty();
        runs_scored
    }

    /// Ground-rule double: the batter takes second and every runner two bases.
    pub fn after_ground_rule_double(&mut self) -> (runs_scored: u8)
        ensures
            runs_scored == present(old(self).runner_2nd) + present(old(self).runner_3rd),
            *final(self) == old(self).spec_ground_rule_doubled(),
            final(self).runner_3rd == old(self).runner_1st,
            final(self).runner_2nd == old(self).batter_runner,
            final(self).runner_1st is None,
            final(self).batter_runner is None,
            final(self).batting_side == old(self).batting_side,
    {
        let runs_scored = RunnersUnsaved::score_if_some(self.runner_2nd)
            + RunnersUnsaved::score_if_some(self.runner_3rd);
        self.runner_3rd = self.runner_1st;
        self.runner_2nd = self.batter_runner;
        self.runner_1st = None;
        self.batter_runner = None;
        runs_scored
    }

    /// Walk or hit batsman: the batter takes first and only forced runners move up.
    pub fn after_walk(&mut self) -> (runs_scored: u8)
        ensures
            runs_scored == (if old(self).is_loaded_spec() { 1int } else { 0int }),
            runs_scored == old(self).walk_runs(),
            *final(self) == old(self).spec_walked(),
            final(self).runner_1st == old(self).batter_runner,
            final(self).runner_2nd == (if old(self).runner_1st is Some {
                old(self).runner_1st
            } else {
                old(self).runner_2nd
            }),
            final(self).runner_3rd == (if old(self).runner_1st is Some
                && old(self).runner_2nd is Some {
                old(self).runner_2nd
            } else {
                old(self).runner_3rd
            }),
            final(self).batter_runner is None,
            final(self).batting_side == old(self).batting_side,
    {
        let mut runs_scored: u8 = 0;
        if self.runner_1st.is_some() {
            if self.runner_2nd.is_some() {
                if self.runner_3rd.is_some() {
                    runs_scored = 1;
                }
                self.runner_3rd = self.runner_2nd;
            }
            self.runner_2nd = self.runner_1st;
        }
        self.runner_1st = self.batter_runner;
        self.batter_runner = None;
        runs_scored
    }

    /// The bases after a walk: the batter on first, forced runners one base on.
    pub open spec fn spec_walked(self) -> RunnersOnBase {
        RunnersOnBase {
            batting_side: self.batting_side,
            batter_runner: None,
            runner_1st: self.batter_runner,
            runner_2nd: if self.runner_1st is Some { self.runner_1st } else { self.runner_2nd },
            runner_3rd: if self.runner_1st is Some && self.runner_2nd is Some {
                self.runner_2nd
            } else {
                self.runner_3rd
            },
        }
    }

    pub open spec fn walk_runs(self) -> nat {
        if self.is_loaded_spec() {
            1
        } else {
            0
        }
    }

    /// The bases after a wild pitch: every runner one base on, the batter to first on ball four.
    pub open spec fn spec_wild_pitched(self, walk: bool) -> RunnersOnBase {
        RunnersOnBase {
            batting_side: self.batting_side,
            batter_runner: if walk { None } else { self.batter_runner },
            runner_1st: if walk { self.batter_runner } else { None },
            runner_2nd: self.runner_1st,
            runner_3rd: self.runner_2nd,
        }
    }

    /// The bases after a home run: empty.
    pub open spec fn spec_cleared(self) -> RunnersOnBase {
        RunnersOnBase {
            batting_side: None,
            batter_runner: None,
            runner_1st: None,
            runner_2nd: None,
            runner_3rd: None,
        }
    }

    /// The bases after a ground-rule double: the batter on second, runners two bases on.
    pub open spec fn spec_ground_rule_doubled(self) -> RunnersOnBase {
        RunnersOnBase {
            batting_side: self.batting_side,
            batter_runner: None,
            runner_1st: None,
            runner_2nd: self.batter_runner,
            runner_3rd: self.runner_1st,
        }
    }

    pub open spec fn is_loaded_spec(self) -> bool {
        self.runner_1st is Some && self.runner_2nd is Some && self.runner_3rd is Some
    }

    /// Wild pitch: every runner takes one base; on ball four the batter takes first too.
    pub fn after_wild_pitch(&mut self, walk: bool) -> (runs_scored: u8)
        ensures
            runs_scored == present(old(self).runner_3rd),
            *final(self) == old(self).spec_wild_pitched(walk),
            final(self).runner_3rd == old(self).runner_2nd,
            final(self).runner_2nd == old(self).runner_1st,
            final(self).runner_1st == (if walk {
                old(self).batter_runner
            } else {
                None
            }),
            final(self).batter_runner == (if walk {
                None
            } else {
                old(self).batter_runner
            }),
            final(self).batting_side == old(self).batting_side,
    {
        let runs_scored = RunnersUnsaved::score_if_some(self.runner_3rd);
        self.runner_3rd = self.runner_2nd;
        self.runner_2nd = self.runner_1st;
        if walk {
            self.runner_1st = self.batter_runner;
            self.batter_runner = None;
        } else {
            self.runner_1st = None;
        }
        runs_scored
    }

    /// Puts the runners a play left on the bases.
    pub fn commit_unsaved_runners(&mut self, unsaved_runners: RunnersUnsaved)
        ensures
            final(self).runner_1st == unsaved_runners.runner_1st,
            final(self).runner_2nd == unsaved_runners.runner_2nd,
            final(self).runner_3rd == unsaved_runners.runner_3rd,
            final(self).batter_runner == old(self).batter_runner,
            final(self).batting_side == old(self).batting_side,
    {
        self.runner_1st = unsaved_runners.runner_1st;
        self.runner_2nd = unsaved_runners.runner_2nd;
        self.runner_3rd = unsaved_runners.runner_3rd;
    }
}


/// Outcome of one runner's attempt: the ruling, which runner (by starting base)
/// was put out, and what the hit counts as for the batter.
pub struct Attempt {
    pub ruling: Ruling,
    pub retired_runner: Option<Base>,
    pub batting_result: BattingResult,
}

pub open spec fn attempt(ruling: Ruling, retired_runner: Option<Base>, batting_result: BattingResult) -> Attempt {
    Attempt { ruling, retired_runner, batting_result }
}

impl RunnersOnBase {
    pub open spec fn spec_after_infield_grounder(
        self,
        target: Base,
        play_type: PlayType,
        safe: SafeAtTarget,
    ) -> Result<RunnerAdvanceResult, GameError> {
        match target {
            Base::Home => if self.runner_3rd is None {
                Err(GameError::Runner3rd)
            } else {
                advance(
                    target,
                    play_type,
                    ruling_of(safe.from_third),
                    if safe.from_third { BattingResult::FieldersChoice } else { BattingResult::Out },
                    if safe.from_third { 1 } else { 0 },
                    unsaved(self.batter_runner, self.runner_1st, self.runner_2nd),
                )
            },
            Base::Third => if self.runner_2nd is None {
                Err(GameError::Runner2nd)
            } else {
                advance(
                    target,
                    play_type,
                    ruling_of(safe.from_second),
                    if safe.from_second { BattingResult::FieldersChoice } else { BattingResult::Out },
                    present(self.runner_3rd),
                    unsaved(
                        self.batter_runner,
                        self.runner_1st,
                        if safe.from_second { self.runner_2nd } else { None },
                    ),
                )
            },
            Base::Second => if self.runner_1st is None {
                Err(GameError::Runner1st)
            } else {
                advance(
                    target,
                    play_type,
                    ruling_of(safe.from_first),
                    if safe.from_first { BattingResult::FieldersChoice } else { BattingResult::Out },
                    present(self.runner_3rd),
                    unsaved(
                        self.batter_runner,
                        if safe.from_first { self.runner_1st } else { None },
                        self.runner_2nd,
                    ),
                )
            },
            Base::First => if !self.batter_ready() {
                Err(GameError::BatterRunner)
            } else {
                advance(
                    target,
                    play_type,
                    ruling_of(safe.batter),
                    if safe.batter { BattingResult::Single } else { BattingResult::Out },
                    present(self.runner_3rd),
                    unsaved(
                        if safe.batter { self.batter_runner } else { None },
                        self.runner_1st,
                        self.runner_2nd,
                    ),
                )
            },
        }
    }

    /// Grounder fielded in the infield and thrown to `throw_target_base`. Every runner
    /// is forced one base; the runner forced towards the throw is safe or out by `safe`.
    /// A throw to a base no runner is forced to is refused with the missing runner's error.
    pub fn after_infield_grounder(
        &self,
        throw_target_base: Base,
        play_type: PlayType,
        safe: SafeAtTarget,
    ) -> (res: Result<RunnerAdvanceResult, GameError>)
        ensures
            res == self.spec_after_infield_grounder(throw_target_base, play_type, safe),
            res matches Ok(r) ==> self.accounts_for(
                true,
                r.unsaved_runners,
                r.runs_scored as nat,
                out_count(r.ruling),
            ),
    {
        let mut unsaved_runners = RunnersUnsaved::empty_bases();
        let ruling;
        let mut batting_result = BattingResult::Out;
        let mut runs_scored: u8 = 0;
        match throw_target_base {
            Base::Home => {
                unsaved_runners.runner_1st = self.batter_runner;
                unsaved_runners.runner_2nd = self.runner_1st;
                unsaved_runners.runner_3rd = self.runner_2nd;
                if self.runner_3rd.is_none() {
                    return Err(GameError::Runner3rd);
                }
                ruling = judge(safe.from_third);
                if ruling == Ruling::Safe {
                    runs_scored += 1;
                    batting_result = BattingResult::FieldersChoice;
                }
            },
            Base::Third => {
                unsaved_runners.runner_1st = self.batter_runner;
                unsaved_runners.runner_2nd = self.runner_1st;
                if self.runner_2nd.is_none() {
                    return Err(GameError::Runner2nd);
                }
                ruling = judge(safe.from_second);
                if ruling == Ruling::Safe {
                    unsaved_runners.runner_3rd = self.runner_2nd;
                    batting_result = BattingResult::FieldersChoice;
                }
                runs_scored += RunnersUnsaved::score_if_some(self.runner_3rd);
            },
            Base::Second => {
                unsaved_runners.runner_1st = self.batter_runner;
                if self.runner_1st.is_none() {
                    return Err(GameError::Runner1st);
                }
                ruling = judge(safe.from_first);
                if ruling == Ruling::Safe {
                    unsaved_runners.runner_2nd = self.runner_1st;
                    batting_result = BattingResult::FieldersChoice;
                }
                unsaved_runners.runner_3rd = self.runner_2nd;
                runs_scored += RunnersUnsaved::score_if_some(self.runner_3rd);
            },
            Base::First => {
                if self.batter_runner.is_none() || self.batting_side.is_none() {
                    return Err(GameError::BatterRunner);
                }
                ruling = judge(safe.batter);
                if ruling == Ruling::Safe {
                    unsaved_runners.runner_1st = self.batter_runner;
                    batting_result = BattingResult::Single;
                }
                unsaved_runners.runner_2nd = self.runner_1st;
                unsaved_runners.runner_3rd = self.runner_2nd;
                runs_scored += RunnersUnsaved::score_if_some(self.runner_3rd);
            },
        }
        Ok(
            RunnerAdvanceResult {
                throw_target_base,
                play_type,
                ruling,
                batting_result,
                runs_scored,
                unsaved_runners,
            },
        )
    }

    pub open spec fn spec_triple_attempt(self, throw: Base, safe: SafeAtTarget) -> Result<Attempt, GameError> {
        match throw {
            Base::Home => if self.runner_1st is None {
                Err(GameError::Runner1st)
            } else if safe.from_first {
                Ok(attempt(Ruling::Safe, None, BattingResult::Triple))
            } else {
                Ok(attempt(Ruling::Out, Some(Base::First), BattingResult::Triple))
            },
            Base::Third => if safe.batter {
                Ok(attempt(Ruling::Safe, None, BattingResult::Triple))
            } else {
                Ok(attempt(Ruling::Out, Some(Base::Home), BattingResult::Double))
            },
            _ => Ok(attempt(Ruling::Safe, None, BattingResult::Triple)),
        }
    }

    pub open spec fn spec_double_attempt(self, throw: Base, safe: SafeAtTarget) -> Result<Attempt, GameError> {
        match throw {
            Base::Home => {
                let second_out = self.runner_2nd is Some && !safe.from_second;
                let first_out = !second_out && self.runner_1st is Some && !safe.from_first;
                if second_out {
                    Ok(attempt(Ruling::Out, Some(Base::Second), BattingResult::Double))
                } else if first_out {
                    Ok(attempt(Ruling::Out, Some(Base::First), BattingResult::Double))
                } else {
                    Ok(attempt(Ruling::Safe, None, BattingResult::Double))
                }
            },
            Base::Third => if self.runner_1st is None {
                Err(GameError::Runner1st)
            } else if safe.from_first {
                Ok(attempt(Ruling::Safe, None, BattingResult::Double))
            } else {
                Ok(attempt(Ruling::Out, Some(Base::First), BattingResult::Double))
            },
            Base::Second => if safe.batter {
                Ok(attempt(Ruling::Safe, None, BattingResult::Double))
            } else {
                Ok(attempt(Ruling::Out, Some(Base::Home), BattingResult::Single))
            },
            Base::First => Ok(attempt(Ruling::Safe, None, BattingResult::Double)),
        }
    }

    pub open spec fn spec_single_attempt(self, throw: Base, safe: SafeAtTarget) -> Result<Attempt, GameError> {
        match throw {
            Base::Home => if self.runner_3rd is None {
                Err(GameError::Runner3rd)
            } else if safe.from_third {
                Ok(attempt(Ruling::Safe, None, BattingResult::Single))
            } else {
                Ok(attempt(Ruling::Out, Some(Base::Third), BattingResult::Single))
            },
            Base::Third => if self.runner_2nd is None {
                Err(GameError::Runner2nd)
            } else if safe.from_second {
                Ok(attempt(Ruling::Safe, None, BattingResult::Single))
            } else {
                Ok(attempt(Ruling::Out, Some(Base::Second), BattingResult::Single))
            },
            Base::Second => if self.runner_1st is None {
                Err(GameError::Runner1st)
            } else if safe.from_first {
                Ok(attempt(Ruling::Safe, None, BattingResult::Single))
            } else {
                Ok(attempt(Ruling::Out, Some(Base::First), BattingResult::Single))
            },
            Base::First => if safe.batter {
                Ok(attempt(Ruling::Safe, None, BattingResult::Single))
            } else {
                Ok(attempt(Ruling::Out, Some(Base::Home), BattingResult::Out))
            },
        }
    }

    /// Runs that score when the batter runs for `batter_target` and `retired` is put out.
    pub open spec fn spec_scored(self, batter_target: Base, retired: Option<Base>) -> nat {
        match batter_target {
            Base::Third => present(self.runner_3rd) + present(self.runner_2nd) + if retired
                == Some(Base::First) {
                0
            } else {
                present(self.runner_1st)
            },
            Base::Second => present(self.runner_3rd) + if retired == Some(Base::Second) {
                0
            } else if retired == Some(Base::First) {
                present(self.runner_2nd)
            } else {
                present(self.runner_2nd) + present(self.runner_1st)
            },
            _ => if retired == Some(Base::Third) {
                0
            } else {
                present(self.runner_3rd)
            },
        }
    }

    /// Where the batter and the runners who did not score stand after the play.
    pub open spec fn spec_placed(self, batter_target: Base, retired: Option<Base>) -> RunnersUnsaved {
        let batter = if retired != Some(Base::Home) {
            self.batter_runner
        } else {
            None
        };
        match batter_target {
            Base::Third => unsaved(None, None, batter),
            Base::Second => unsaved(
                None,
                batter,
                if retired == Some(Base::Second) { self.runner_1st } else { None },
            ),
            _ => unsaved(
                batter,
                if retired != Some(Base::First) { self.runner_1st } else { None },
                if retired != Some(Base::Second) { self.runner_2nd } else { None },
            ),
        }
    }

    pub open spec fn spec_after_outfield_hit(
        self,
        plan: RunningPlan,
        target: Base,
        play_type: PlayType,
        safe: SafeAtTarget,
    ) -> Result<RunnerAdvanceResult, GameError> {
        if !self.batter_ready() {
            Err(GameError::BatterRunner)
        } else {
            let a = match plan.batter_runner {
                Base::Third => self.spec_triple_attempt(target, safe),
                Base::Second => self.spec_double_attempt(target, safe),
                Base::First => self.spec_single_attempt(target, safe),
                Base::Home => Err(GameError::BatterRunnerTargetBase),
            };
            match a {
                Err(e) => Err(e),
                Ok(a) => advance(
                    target,
                    play_type,
                    a.ruling,
                    a.batting_result,
                    self.spec_scored(plan.batter_runner, a.retired_runner),
                    self.spec_placed(plan.batter_runner, a.retired_runner),
                ),
            }
        }
    }

    fn resolve_triple_attempt(&self, throw_target_base: Base, safe: SafeAtTarget) -> (res: Result<
        Attempt,
        GameError,
    >)
        ensures
            res == self.spec_triple_attempt(throw_target_base, safe),
    {
        let ruling = match throw_target_base {
            Base::Home => {
                if self.runner_1st.is_none() {
                    return Err(GameError::Runner1st);
                }
                judge(safe.from_first)
            },
            Base::Third => judge(safe.batter),
            _ => Ruling::Safe,
        };
        if ruling == Ruling::Out {
            if throw_target_base == Base::Third {
                Ok(Attempt { ruling, retired_runner: Some(Base::Home), batting_result: BattingResult::Double })
            } else {
                Ok(Attempt { ruling, retired_runner: Some(Base::First), batting_result: BattingResult::Triple })
            }
        } else {
            Ok(Attempt { ruling, retired_runner: None, batting_result: BattingResult::Triple })
        }
    }

    fn resolve_double_attempt(&self, throw_target_base: Base, safe: SafeAtTarget) -> (res: Result<
        Attempt,
        GameError,
    >)
        ensures
            res == self.spec_double_attempt(throw_target_base, safe),
    {
        let mut ruling = Ruling::Safe;
        let mut retired_runner = None;
        if throw_target_base == Base::Home {
            if self.has_runner_on(Base::Second) {
                ruling = judge(safe.from_second);
                if ruling == Ruling::Out {
                    retired_runner = Some(Base::Second);
                }
            }
            if self.has_runner_on(Base::First) {
                if ruling == Ruling::Safe {
                    ruling = judge(safe.from_first);
                    if ruling == Ruling::Out {
                        retired_runner = Some(Base::First);
                    }
                }
            }
            return Ok(Attempt { ruling, retired_runner, batting_result: BattingResult::Double });
        }
        match throw_target_base {
            Base::Third => {
                if self.runner_1st.is_none() {
                    return Err(GameError::Runner1st);
                }
                ruling = judge(safe.from_first);
                retired_runner = Some(Base::First);
            },
            Base::Second => {
                ruling = judge(safe.batter);
                retired_runner = Some(Base::Home);
            },
            _ => {},
        }
        if ruling == Ruling::Safe {
            retired_runner = None;
        }
        let batting_result = if retired_runner == Some(Base::Home) {
            BattingResult::Single
        } else {
            BattingResult::Double
        };
        Ok(Attempt { ruling, retired_runner, batting_result })
    }

    fn resolve_single_attempt(&self, throw_target_base: Base, safe: SafeAtTarget) -> (res: Result<
        Attempt,
        GameError,
    >)
        ensures
            res == self.spec_single_attempt(throw_target_base, safe),
    {
        let (ruling, mut retired_runner) = match throw_target_base {
            Base::Home => {
                if self.runner_3rd.is_none() {
                    return Err(GameError::Runner3rd);
                }
                (judge(safe.from_third), Some(Base::Third))
            },
            Base::Third => {
                if self.runner_2nd.is_none() {
                    return Err(GameError::Runner2nd);
                }
                (judge(safe.from_second), Some(Base::Second))
            },
            Base::Second => {
                if self.runner_1st.is_none() {
                    return Err(GameError::Runner1st);
                }
                (judge(safe.from_first), Some(Base::First))
            },
            Base::First => (judge(safe.batter), Some(Base::Home)),
        };
        if ruling == Ruling::Safe {
            retired_runner = None;
        }
        let batting_result = if retired_runner == Some(Base::Home) {
            BattingResult::Out
        } else {
            BattingResult::Single
        };
        Ok(Attempt { ruling, retired_runner, batting_result })
    }

    fn score_for_existing_runners(&self, batter_target_base: Base, retired_runner: Option<Base>) -> (runs: u8)
        requires
            batter_target_base != Base::Home,
        ensures
            runs == self.spec_scored(batter_target_base, retired_runner),
    {
        let mut runs_scored: u8 = 0;
        match batter_target_base {
            Base::Third => {
                runs_scored += RunnersUnsaved::score_if_some(self.runner_3rd);
                runs_scored += RunnersUnsaved::score_if_some(self.runner_2nd);
                runs_scored += if retired_runner == Some(Base::First) {
                    0
                } else {
                    RunnersUnsaved::score_if_some(self.runner_1st)
                };
            },
            Base::Second => {
                runs_scored += RunnersUnsaved::score_if_some(self.runner_3rd);
                runs_scored += if retired_runner == Some(Base::Second) {
                    0
                } else if retired_runner == Some(Base::First) {
                    RunnersUnsaved::score_if_some(self.runner_2nd)
                } else {
                    RunnersUnsaved::score_if_some(self.runner_2nd) + RunnersUnsaved::score_if_some(
                        self.runner_1st,
                    )
                };
            },
            _ => {
                runs_scored += if retired_runner == Some(Base::Third) {
                    0
                } else {
                    RunnersUnsaved::score_if_some(self.runner_3rd)
                };
            },
        }
        runs_scored
    }

    fn build_runner_advance_result(&self, batter_target_base: Base, retired_runner: Option<Base>) -> (r:
        RunnersUnsaved)
        requires
            batter_target_base != Base::Home,
        ensures
            r == self.spec_placed(batter_target_base, retired_runner),
    {
        let mut unsaved_runners = RunnersUnsaved::empty_bases();
        match batter_target_base {
            Base::Third => {
                if retired_runner != Some(Base::Home) {
                    unsaved_runners.runner_3rd = self.batter_runner;
                }
            },
            Base::Second => {
                if retired_runner != Some(Base::Home) {
                    unsaved_runners.runner_2nd = self.batter_runner;
                    if retired_runner == Some(Base::Second) {
                        unsaved_runners.runner_3rd = self.runner_1st;
                    }
                }
            },
            _ => {
                if retired_runner != Some(Base::First) {
                    unsaved_runners.runner_2nd = self.runner_1st;
                }
                if retired_runner != Some(Base::Second) {
                    unsaved_runners.runner_3rd = self.runner_2nd;
                }
                if retired_runner != Some(Base::Home) {
                    unsaved_runners.runner_1st = self.batter_runner;
                }
            },
        }
        unsaved_runners
    }

    /// Ball hit to the outfield and thrown to `throw_target_base`. The batter runs as
    /// `running_plan` says; the runner the throw is aimed at is safe or out by `safe`.
    pub fn after_outfield_hit(
        &self,
        running_plan: RunningPlan,
        throw_target_base: Base,
        play_type: PlayType,
        safe: SafeAtTarget,
    ) -> (res: Result<RunnerAdvanceResult, GameError>)
        ensures
            res == self.spec_after_outfield_hit(running_plan, throw_target_base, play_type, safe),
            res matches Ok(r) ==> self.accounts_for(
                true,
                r.unsaved_runners,
                r.runs_scored as nat,
                out_count(r.ruling),
            ),
    {
        if self.batter_runner.is_none() || self.batting_side.is_none() {
            return Err(GameError::BatterRunner);
        }
        let a = match running_plan.batter_runner {
            Base::Third => self.resolve_triple_attempt(throw_target_base, safe),
            Base::Second => self.resolve_double_attempt(throw_target_base, safe),
            Base::First => self.resolve_single_attempt(throw_target_base, safe),
            Base::Home => Err(GameError::BatterRunnerTargetBase),
        };
        let a = match a {
            Ok(a) => a,
            Err(e) => {
                return Err(e);
            },
        };
        let runs_scored = self.score_for_existing_runners(running_plan.batter_runner, a.retired_runner);
        let unsaved_runners = self.build_runner_advance_result(
            running_plan.batter_runner,
            a.retired_runner,
        );
        Ok(
            RunnerAdvanceResult {
                throw_target_base,
                play_type,
                ruling: a.ruling,
                batting_result: a.batting_result,
                runs_scored,
                unsaved_runners,
            },
        )
    }
}


impl RunnersOnBase {
    pub open spec fn spec_after_tagup(
        self,
        target: Base,
        play_type: PlayType,
        safe: SafeAtTarget,
    ) -> Result<RunnerAdvanceResult, GameError> {
        match target {
            Base::Home => if self.runner_3rd is None {
                Err(GameError::Runner3rd)
            } else {
                advance(
                    target,
                    play_type,
                    ruling_of(safe.from_third),
                    BattingResult::Out,
                    if safe.from_third { 1 } else { 0 },
                    unsaved(self.runner_1st, self.runner_2nd, None),
                )
            },
            Base::Third => if self.runner_2nd is None {
                Err(GameError::Runner2nd)
            } else {
                advance(
                    target,
                    play_type,
                    ruling_of(safe.from_second),
                    BattingResult::Out,
                    present(self.runner_3rd),
                    unsaved(
                        self.runner_1st,
                        None,
                        if safe.from_second { self.runner_2nd } else { None },
                    ),
                )
            },
            _ => advance(
                target,
                play_type,
                Ruling::Safe,
                BattingResult::Out,
                present(self.runner_3rd),
                unsaved(self.runner_1st, self.runner_2nd, None),
            ),
        }
    }

    /// Runners tagging up after a caught fly thrown to `throw_target_base`: a throw
    /// home tests the runner from third, a throw to third the runner from second; the
    /// runner from third scores otherwise. The batter is already out.
    pub fn after_tagup(&self, throw_target_base: Base, play_type: PlayType, safe: SafeAtTarget) -> (res:
        Result<RunnerAdvanceResult, GameError>)
        ensures
            res == self.spec_after_tagup(throw_target_base, play_type, safe),
            res matches Ok(r) ==> self.accounts_for(
                false,
                r.unsaved_runners,
                r.runs_scored as nat,
                out_count(r.ruling),
            ),
    {
        let mut unsaved_runners = RunnersUnsaved::empty_bases();
        let mut ruling = Ruling::Safe;
        let mut runs_scored: u8 = 0;
        match throw_target_base {
            Base::Home => {
                if self.runner_3rd.is_none() {
                    return Err(GameError::Runner3rd);
                }
                ruling = judge(safe.from_third);
                if ruling == Ruling::Safe {
                    runs_scored += 1;
                }
                unsaved_runners.runner_2nd = self.runner_2nd;
                unsaved_runners.runner_1st = self.runner_1st;
            },
            Base::Third => {
                unsaved_runners.runner_1st = self.runner_1st;
                if self.runner_2nd.is_none() {
                    return Err(GameError::Runner2nd);
                }
                ruling = judge(safe.from_second);
                if ruling == Ruling::Safe {
                    unsaved_runners.runner_3rd = self.runner_2nd;
                }
                runs_scored += RunnersUnsaved::score_if_some(self.runner_3rd);
            },
            _ => {
                unsaved_runners.runner_2nd = self.runner_2nd;
                unsaved_runners.runner_1st = self.runner_1st;
                runs_scored += RunnersUnsaved::score_if_some(self.runner_3rd);
            },
        }
        Ok(
            RunnerAdvanceResult {
                throw_target_base,
                play_type,
                ruling,
                batting_result: BattingResult::Out,
                runs_scored,
                unsaved_runners,
            },
        )
    }

    pub open spec fn spec_after_double_play(
        self,
        target: Base,
        previous: RunnersUnsaved,
        safe: SafeAtTarget,
    ) -> Result<DoublePlayRunnerAdvanceResult, GameError> {
        match target {
            Base::First => if !self.batter_ready() {
                Err(GameError::BatterRunner)
            } else {
                Ok(
                    DoublePlayRunnerAdvanceResult {
                        throw_target_base: target,
                        ruling: ruling_of(safe.batter),
                        unsaved_runners: RunnersUnsaved {
                            runner_1st: if safe.batter { previous.runner_1st } else { None },
                            ..previous
                        },
                    },
                )
            },
            Base::Second => if self.runner_1st is None {
                Err(GameError::Runner1st)
            } else {
                Ok(
                    DoublePlayRunnerAdvanceResult {
                        throw_target_base: target,
                        ruling: ruling_of(safe.from_first),
                        unsaved_runners: RunnersUnsaved {
                            runner_2nd: if safe.from_first { previous.runner_2nd } else { None },
                            ..previous
                        },
                    },
                )
            },
            Base::Third => if self.runner_2nd is None {
                Err(GameError::Runner2nd)
            } else {
                Ok(
                    DoublePlayRunnerAdvanceResult {
                        throw_target_base: target,
                        ruling: ruling_of(safe.from_second),
                        unsaved_runners: RunnersUnsaved {
                            runner_3rd: if safe.from_second { previous.runner_3rd } else { None },
                            ..previous
                        },
                    },
                )
            },
            Base::Home => Err(GameError::DoublePlayTargetBase),
        }
    }

    /// Second throw of a double play, to `throw_target_base`, after the first play left
    /// `previous_unsaved_runners`; an out there takes the runner off that base.
    pub fn after_double_play(
        &self,
        throw_target_base: Base,
        previous_unsaved_runners: RunnersUnsaved,
        safe: SafeAtTarget,
    ) -> (res: Result<DoublePlayRunnerAdvanceResult, GameError>)
        ensures
            res == self.spec_after_double_play(throw_target_base, previous_unsaved_runners, safe),
            res matches Ok(r) ==> r.unsaved_runners.count() + out_count(r.ruling)
                <= previous_unsaved_runners.count() + 1,
    {
        let mut unsaved_runners = previous_unsaved_runners;
        let ruling;
        match throw_target_base {
            Base::First => {
                if self.batter_runner.is_none() || self.batting_side.is_none() {
                    return Err(GameError::BatterRunner);
                }
                ruling = judge(safe.batter);
                if ruling == Ruling::Out {
                    unsaved_runners.runner_1st = None;
                }
            },
            Base::Second => {
                if self.runner_1st.is_none() {
                    return Err(GameError::Runner1st);
                }
                ruling = judge(safe.from_first);
                if ruling == Ruling::Out {
                    unsaved_runners.runner_2nd = None;
                }
            },
            Base::Third => {
                if self.runner_2nd.is_none() {
                    return Err(GameError::Runner2nd);
                }
                ruling = judge(safe.from_second);
                if ruling == Ruling::Out {
                    unsaved_runners.runner_3rd = None;
                }
            },
            Base::Home => {
                return Err(GameError::DoublePlayTargetBase);
            },
        }
        Ok(DoublePlayRunnerAdvanceResult { throw_target_base, ruling, unsaved_runners })
    }

    pub open spec fn spec_after_base_stealing(
        self,
        target: Base,
        safe: SafeAtTarget,
    ) -> (RunnersOnBase, Result<StealRunnerAdvanceResult, GameError>) {
        match target {
            Base::Second => if self.runner_1st is None {
                (self, Err(GameError::Runner1st))
            } else {
                (
                    if safe.from_first {
                        RunnersOnBase { runner_2nd: self.runner_1st, runner_1st: None, ..self }
                    } else {
                        self
                    },
                    Ok(
                        StealRunnerAdvanceResult {
                            throw_target_base: target,
                            ruling: ruling_of(safe.from_first),
                        },
                    ),
                )
            },
            Base::Third => if self.runner_2nd is None {
                (self, Err(GameError::Runner2nd))
            } else {
                (
                    if safe.from_second {
                        RunnersOnBase { runner_3rd: self.runner_2nd, runner_2nd: None, ..self }
                    } else {
                        self
                    },
                    Ok(
                        StealRunnerAdvanceResult {
                            throw_target_base: target,
                            ruling: ruling_of(safe.from_second),
                        },
                    ),
                )
            },
            _ => (self, Err(GameError::StealTargetBase)),
        }
    }

    /// Stolen base attempt of second (by the runner on first) or third (by the runner
    /// on second). A safe runner moves up; a runner thrown out stays where the bases
    /// show them, as the recorded play does not take them off.
    pub fn after_base_stealing(&mut self, throw_target_base: Base, safe: SafeAtTarget) -> (res: Result<
        StealRunnerAdvanceResult,
        GameError,
    >)
        ensures
            (*final(self), res) == old(self).spec_after_base_stealing(throw_target_base, safe),
    {
        let ruling;
        match throw_target_base {
            Base::Third => {
                if self.runner_2nd.is_none() {
                    return Err(GameError::Runner2nd);
                }
                ruling = judge(safe.from_second);
                if ruling == Ruling::Safe {
                    self.runner_3rd = self.runner_2nd;
                    self.runner_2nd = None;
                }
            },
            Base::Second => {
                if self.runner_1st.is_none() {
                    return Err(GameError::Runner1st);
                }
                ruling = judge(safe.from_first);
                if ruling == Ruling::Safe {
                    self.runner_2nd = self.runner_1st;
                    self.runner_1st = None;
                }
            },
            _ => {
                return Err(GameError::StealTargetBase);
            },
        }
        Ok(StealRunnerAdvanceResult { throw_target_base, ruling })
    }
}

/// Bases passed add up along the way: going from `a` to `b` and then from `b` to `c`
/// passes as many bases as going from `a` to `c`, home plate counting as the start of
/// the circuit and as its end. Paths through home plate, and a whole circuit from home
/// plate back to it, are no runs of a single runner and are left out.
pub proof fn lemma_advance_count_adds_up(a: Base, b: Base, c: Base)
    requires
        spec_advance_count(a, b) is Some,
        spec_advance_count(b, c) is Some,
        b != Base::Home,
        !(a == Base::Home && c == Base::Home),
    ensures
        spec_advance_count(a, c) == Some(spec_advance_count(a, b)->0 + spec_advance_count(b, c)->0),
{
}

/// On a grounder fielded in the infield every runner is forced exactly one base: the
/// runner the throw goes after is out or takes the base by `safe`, every other runner
/// takes the next base, and the only run is the runner from third's, who scores unless
/// the throw goes home and beats him. The throw's ruling is that runner's.
pub proof fn lemma_grounder_forces_one_base(
    r: RunnersOnBase,
    target: Base,
    play_type: PlayType,
    safe: SafeAtTarget,
)
    ensures
        r.spec_after_infield_grounder(target, play_type, safe) matches Ok(x) ==> {
            let thrown_safe = match target {
                Base::Home => safe.from_third,
                Base::Third => safe.from_second,
                Base::Second => safe.from_first,
                Base::First => safe.batter,
            };
            &&& x.throw_target_base == target
            &&& x.ruling == ruling_of(thrown_safe)
            &&& x.unsaved_runners.runner_1st == (if target == Base::First && !safe.batter {
                None
            } else {
                r.batter_runner
            })
            &&& x.unsaved_runners.runner_2nd == (if target == Base::Second && !safe.from_first {
                None
            } else {
                r.runner_1st
            })
            &&& x.unsaved_runners.runner_3rd == (if target == Base::Third && !safe.from_second {
                None
            } else {
                r.runner_2nd
            })
            &&& x.runs_scored == (if target == Base::Home {
                if safe.from_third {
                    1nat
                } else {
                    0nat
                }
            } else {
                present(r.runner_3rd)
            })
        },
{
}

/// After a caught fly the batter is out and the runners tag up: the runner the throw goes
/// after scores or reaches third when safe and is out otherwise, the runner from third
/// leaves third (he scores unless thrown out at home), and the runners on first and on
/// second hold unless the throw goes after the runner from second.
pub proof fn lemma_tagup_moves_only_the_runners_thrown_at(
    r: RunnersOnBase,
    target: Base,
    play_type: PlayType,
    safe: SafeAtTarget,
)
    ensures
        r.spec_after_tagup(target, play_type, safe) matches Ok(x) ==> {
            &&& x.batting_result == BattingResult::Out
            &&& x.throw_target_base == target
            &&& x.ruling == (match target {
                Base::Home => ruling_of(safe.from_third),
                Base::Third => ruling_of(safe.from_second),
                _ => Ruling::Safe,
            })
            &&& x.unsaved_runners.runner_1st == r.runner_1st
            &&& x.unsaved_runners.runner_2nd == (if target == Base::Third {
                None
            } else {
                r.runner_2nd
            })
            &&& x.unsaved_runners.runner_3rd == (if target == Base::Third && safe.from_second {
                r.runner_2nd
            } else {
                None
            })
            &&& x.runs_scored == (if target == Base::Home {
                if safe.from_third {
                    1nat
                } else {
                    0nat
                }
            } else {
                present(r.runner_3rd)
            })
        },
        target == Base::Home ==> (r.spec_after_tagup(target, play_type, safe) is Ok
            <==> r.runner_3rd is Some),
        target == Base::Third ==> (r.spec_after_tagup(target, play_type, safe) is Ok
            <==> r.runner_2nd is Some),
{
}

/// The second throw of a double play changes only the base it goes to: the runner there
/// stays when safe and is taken off when out, and every other base is as the first play
/// left it. It goes to first, second or third, where a runner is forced.
pub proof fn lemma_double_play_changes_only_its_base(
    r: RunnersOnBase,
    target: Base,
    previous: RunnersUnsaved,
    safe: SafeAtTarget,
)
    ensures
        r.spec_after_double_play(target, previous, safe) matches Ok(x) ==> {
            let out = x.ruling == Ruling::Out;
            &&& target != Base::Home
            &&& x.throw_target_base == target
            &&& x.unsaved_runners.runner_1st == (if target == Base::First && out {
                None
            } else {
                previous.runner_1st
            })
            &&& x.unsaved_runners.runner_2nd == (if target == Base::Second && out {
                None
            } else {
                previous.runner_2nd
            })
            &&& x.unsaved_runners.runner_3rd == (if target == Base::Third && out {
                None
            } else {
                previous.runner_3rd
            })
            &&& out == !(match target {
                Base::First => safe.batter,
                Base::Second => safe.from_first,
                _ => safe.from_second,
            })
        },
        r.spec_after_double_play(Base::Home, previous, safe) is Err,
{
}

/// A stolen base moves only the runner who tries it: a safe runner from first stands on
/// second with first empty, a safe runner from second on third with second empty; a
/// runner thrown out leaves the bases as they were; the batter and the runner not
/// stealing do not move.
pub proof fn lemma_steal_moves_only_the_runner(r: RunnersOnBase, target: Base, safe: SafeAtTarget)
    ensures
        ({
            let (b, res) = r.spec_after_base_stealing(target, safe);
            &&& res is Err ==> b == r
            &&& (target != Base::Second && target != Base::Third) ==> res is Err
            &&& res matches Ok(x) ==> {
                let stole = match target {
                    Base::Second => safe.from_first,
                    _ => safe.from_second,
                };
                &&& x.ruling == ruling_of(stole)
                &&& x.throw_target_base == target
                &&& b.batter_runner == r.batter_runner
                &&& b.batting_side == r.batting_side
                &&& (!stole ==> b == r)
                &&& (stole && target == Base::Second ==> b.runner_1st is None && b.runner_2nd
                    == r.runner_1st && b.runner_3rd == r.runner_3rd)
                &&& (stole && target == Base::Third ==> b.runner_2nd is None && b.runner_3rd
                    == r.runner_2nd && b.runner_1st == r.runner_1st)
            }
        }),
{
}

/// On a hit to the outfield that beats every throw, the batter stands on the base he ran
/// for and every runner ahead of him scores or moves up as far as he does: a single
/// moves each runner one base, scoring the runner from third; a double or a triple clears
/// the bases ahead of the batter, all those runners scoring. Only the batter can end on
/// first, and a batter running for second or third leaves no one behind him.
pub proof fn lemma_outfield_hit_advances_runners(
    r: RunnersOnBase,
    plan: RunningPlan,
    target: Base,
    play_type: PlayType,
    safe: SafeAtTarget,
)
    ensures
        r.spec_after_outfield_hit(plan, target, play_type, safe) matches Ok(x) ==> {
            let u = x.unsaved_runners;
            &&& u.runner_1st is Some ==> u.runner_1st == r.batter_runner
            &&& plan.batter_runner != Base::First ==> u.runner_1st is None
            &&& plan.batter_runner == Base::Third ==> u.runner_2nd is None
            &&& x.ruling == Ruling::Safe ==> match plan.batter_runner {
                Base::Third => u == unsaved(None, None, r.batter_runner) && x.runs_scored
                    == r.count(),
                Base::Second => u == unsaved(None, r.batter_runner, None) && x.runs_scored
                    == r.count(),
                _ => u == unsaved(r.batter_runner, r.runner_1st, r.runner_2nd) && x.runs_scored
                    == present(r.runner_3rd),
            }
        },
        plan.batter_runner == Base::Home ==> r.spec_after_outfield_hit(plan, target, play_type, safe)
            is Err,
{
}

} // verus!
