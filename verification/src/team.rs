use vstd::prelude::*;
use vstd::arithmetic::div_mod::{lemma_add_mod_noop, lemma_small_mod};
use crate::fielding::FielderRiskTolerance;
use crate::game_state::GameError;
use crate::player::{Player, Position, spec_fielder_record, spec_position_key};
use crate::random_provider::RandomProvider;

verus! {

/// Number of players in a starting lineup: nine fielders and a designated hitter.
pub const MAX_LINEUP_PLAYERS: usize = 10;

/// A player in the lineup, with what the lineup logic reads of them: the batting
/// order, the fielding position, and which skill records the player carries.
#[derive(Clone, Copy, PartialEq, Eq, Structural, Debug)]
pub struct ActivePlayer {
    pub id: i64,
    pub batting_order: Option<u8>,
    pub has_batter: bool,
    pub fielding_position: Option<Position>,
    pub has_fielder: bool,
    pub has_pitcher: bool,
    pub has_catcher: bool,
}

/// A batter of the lineup and their batting order.
#[derive(Clone, Copy, PartialEq, Eq, Structural, Debug)]
pub struct ActiveBatter {
    pub id: i64,
    pub index: u8,
}

impl ActiveBatter {
    pub fn new(player_id: i64) -> (b: Self)
        ensures
            b.id == player_id,
            b.index == 0,
    {
        Self { id: player_id, index: 0 }
    }

    /// The batter as a runner, known by player id.
    pub fn runner(&self) -> (id: i64)
        ensures
            id == self.id,
    {
        self.id
    }
}

/// A fielder of the lineup.
#[derive(Clone, Copy, PartialEq, Eq, Structural, Debug)]
pub struct ActiveFielder {
    pub position: Position,
    pub id: i64,
    pub risk_tolerance: FielderRiskTolerance,
}

impl ActiveFielder {
    pub fn is(&self, position: Position) -> (b: bool)
        ensures
            b == (self.position == position),
    {
        self.position == position
    }
}

/// The lineup's pitcher.
#[derive(Clone, Copy, PartialEq, Eq, Structural, Debug)]
pub struct ActivePitcher {
    pub id: i64,
}

/// The lineup's catcher.
#[derive(Clone, Copy, PartialEq, Eq, Structural, Debug)]
pub struct ActiveCatcher {
    pub id: i64,
}

pub open spec fn batter_of(p: ActivePlayer) -> Option<ActiveBatter> {
    match p.batting_order {
        Some(order) => if p.has_batter {
            Some(ActiveBatter { id: p.id, index: order })
        } else {
            None
        },
        None => None,
    }
}

pub open spec fn fielder_of(p: ActivePlayer, risk_tolerance: FielderRiskTolerance) -> Option<ActiveFielder> {
    match p.fielding_position {
        Some(position) => if p.has_fielder {
            Some(ActiveFielder { position, id: p.id, risk_tolerance })
        } else {
            None
        },
        None => None,
    }
}

impl ActivePlayer {
    /// Whether the player has a place in the batting order.
    pub fn is_batter(&self) -> (b: bool)
        ensures
            b == self.batting_order.is_some(),
    {
        self.batting_order.is_some()
    }

    /// Whether the player has a fielding position.
    pub fn is_fielder(&self) -> (b: bool)
        ensures
            b == self.fielding_position.is_some(),
    {
        self.fielding_position.is_some()
    }

    /// The player as a batter of the lineup, if they bat.
    pub fn active_batter(&self) -> (b: Option<ActiveBatter>)
        ensures
            b == batter_of(*self),
    {
        match self.batting_order {
            Some(order) => if self.has_batter {
                Some(ActiveBatter { id: self.id, index: order })
            } else {
                None
            },
            None => None,
        }
    }

    /// The player as a fielder of the lineup, if they field.
    pub fn active_fielder(&self, risk_tolerance: FielderRiskTolerance) -> (f: Option<ActiveFielder>)
        ensures
            f == fielder_of(*self, risk_tolerance),
    {
        match self.fielding_position {
            Some(position) => if self.has_fielder {
                Some(ActiveFielder { position, id: self.id, risk_tolerance })
            } else {
                None
            },
            None => None,
        }
    }

    /// The player as the lineup's pitcher, if they carry a pitcher record.
    pub fn active_pitcher(&self) -> (p: Option<ActivePitcher>)
        ensures
            p == (if self.has_pitcher {
                Some(ActivePitcher { id: self.id })
            } else {
                None
            }),
    {
        if self.has_pitcher {
            Some(ActivePitcher { id: self.id })
        } else {
            None
        }
    }

    /// The player as the lineup's catcher, if they carry a catcher record.
    pub fn active_catcher(&self) -> (c: Option<ActiveCatcher>)
        ensures
            c == (if self.has_catcher {
                Some(ActiveCatcher { id: self.id })
            } else {
                None
            }),
    {
        if self.has_catcher {
            Some(ActiveCatcher { id: self.id })
        } else {
            None
        }
    }
}

/// The batters among `players` whose batting order is `k`, in lineup order.
pub open spec fn batters_with_index(players: Seq<ActivePlayer>, k: int) -> Seq<ActiveBatter>
    decreases players.len(),
{
    if players.len() == 0 {
        Seq::empty()
    } else {
        let rest = batters_with_index(players.drop_last(), k);
        match batter_of(players.last()) {
            Some(b) => if b.index == k {
                rest.push(b)
            } else {
                rest
            },
            None => rest,
        }
    }
}

/// The batters whose batting order is below `k`, by batting order; ties keep lineup order.
pub open spec fn batters_below(players: Seq<ActivePlayer>, k: int) -> Seq<ActiveBatter>
    decreases k,
{
    if k <= 0 {
        Seq::empty()
    } else {
        batters_below(players, k - 1) + batters_with_index(players, k - 1)
    }
}

/// All batters by batting order, ties in lineup order.
pub open spec fn spec_batters(players: Seq<ActivePlayer>) -> Seq<ActiveBatter> {
    batters_below(players, 256)
}

/// The fielders among `players`, in lineup order.
pub open spec fn spec_fielders(players: Seq<ActivePlayer>, risk_tolerance: FielderRiskTolerance) -> Seq<
    ActiveFielder,
>
    decreases players.len(),
{
    if players.len() == 0 {
        Seq::empty()
    } else {
        let rest = spec_fielders(players.drop_last(), risk_tolerance);
        match fielder_of(players.last(), risk_tolerance) {
            Some(f) => rest.push(f),
            None => rest,
        }
    }
}

/// How many fielders a lineup has does not depend on the risk they take.
pub proof fn lemma_fielders_len(
    players: Seq<ActivePlayer>,
    a: FielderRiskTolerance,
    b: FielderRiskTolerance,
)
    ensures
        spec_fielders(players, a).len() == spec_fielders(players, b).len(),
    decreases players.len(),
{
    if players.len() > 0 {
        lemma_fielders_len(players.drop_last(), a, b);
    }
}

/// The first player in lineup order carrying a pitcher record.
pub open spec fn spec_pitcher(players: Seq<ActivePlayer>) -> Option<ActivePitcher>
    decreases players.len(),
{
    if players.len() == 0 {
        None
    } else {
        match spec_pitcher(players.drop_last()) {
            Some(p) => Some(p),
            None => if players.last().has_pitcher {
                Some(ActivePitcher { id: players.last().id })
            } else {
                None
            },
        }
    }
}

/// The first player in lineup order carrying a catcher record.
pub open spec fn spec_catcher(players: Seq<ActivePlayer>) -> Option<ActiveCatcher>
    decreases players.len(),
{
    if players.len() == 0 {
        None
    } else {
        match spec_catcher(players.drop_last()) {
            Some(c) => Some(c),
            None => if players.last().has_catcher {
                Some(ActiveCatcher { id: players.last().id })
            } else {
                None
            },
        }
    }
}

/// A starting lineup and the position of the next batter in the batting order.
#[derive(Clone, Debug)]
pub struct Lineup {
    pub current_index: usize,
    pub players: Vec<ActivePlayer>,
    pub risk_tolerance: FielderRiskTolerance,
}

fn batters_of(players: &Vec<ActivePlayer>) -> (batters: Vec<ActiveBatter>)
    ensures
        batters@ == spec_batters(players@),
{
    let mut res: Vec<ActiveBatter> = Vec::new();
    let mut k: u16 = 0;
    while k < 256
        invariant
            k <= 256,
            res@ == batters_below(players@, k as int),
        decreases 256 - k,
    {
        let ghost before = res@;
        let mut j: usize = 0;
        while j < players.len()
            invariant
                j <= players@.len(),
                k < 256,
                before == batters_below(players@, k as int),
                res@ == before + batters_with_index(players@.take(j as int), k as int),
            decreases players@.len() - j,
        {
            let p = players[j];
            proof {
                assert(players@.take(j + 1).drop_last() =~= players@.take(j as int));
                assert(players@.take(j + 1).last() == p);
            }
            if p.has_batter {
                match p.batting_order {
                    Some(order) => {
                        if order as u16 == k {
                            res.push(ActiveBatter { id: p.id, index: order });
                        }
                    },
                    None => {},
                }
            }
            proof {
                assert(res@ == before + batters_with_index(players@.take(j + 1), k as int));
            }
            j += 1;
        }
        proof {
            assert(players@.take(players@.len() as int) =~= players@);
        }
        k += 1;
    }
    res
}

fn fielders_of(players: &Vec<ActivePlayer>, risk_tolerance: FielderRiskTolerance) -> (fielders: Vec<
    ActiveFielder,
>)
    ensures
        fielders@ == spec_fielders(players@, risk_tolerance),
{
    let mut res: Vec<ActiveFielder> = Vec::new();
    let mut j: usize = 0;
    while j < players.len()
        invariant
            j <= players@.len(),
            res@ == spec_fielders(players@.take(j as int), risk_tolerance),
        decreases players@.len() - j,
    {
        let p = players[j];
        proof {
            assert(players@.take(j + 1).drop_last() =~= players@.take(j as int));
            assert(players@.take(j + 1).last() == p);
        }
        if p.has_fielder {
            match p.fielding_position {
                Some(position) => {
                    res.push(ActiveFielder { position, id: p.id, risk_tolerance });
                },
                None => {},
            }
        }
        j += 1;
    }
    proof {
        assert(players@.take(players@.len() as int) =~= players@);
    }
    res
}

fn pitcher_of(players: &Vec<ActivePlayer>) -> (p: Option<ActivePitcher>)
    ensures
        p == spec_pitcher(players@),
{
    let mut res: Option<ActivePitcher> = None;
    let mut j: usize = 0;
    while j < players.len()
        invariant
            j <= players@.len(),
            res == spec_pitcher(players@.take(j as int)),
        decreases players@.len() - j,
    {
        let p = players[j];
        proof {
            assert(players@.take(j + 1).drop_last() =~= players@.take(j as int));
            assert(players@.take(j + 1).last() == p);
        }
        if res.is_none() && p.has_pitcher {
            res = Some(ActivePitcher { id: p.id });
        }
        j += 1;
    }
    proof {
        assert(players@.take(players@.len() as int) =~= players@);
    }
    res
}

fn catcher_of(players: &Vec<ActivePlayer>) -> (c: Option<ActiveCatcher>)
    ensures
        c == spec_catcher(players@),
{
    let mut res: Option<ActiveCatcher> = None;
    let mut j: usize = 0;
    while j < players.len()
        invariant
            j <= players@.len(),
            res == spec_catcher(players@.take(j as int)),
        decreases players@.len() - j,
    {
        let p = players[j];
        proof {
            assert(players@.take(j + 1).drop_last() =~= players@.take(j as int));
            assert(players@.take(j + 1).last() == p);
        }
        if res.is_none() && p.has_catcher {
            res = Some(ActiveCatcher { id: p.id });
        }
        j += 1;
    }
    proof {
        assert(players@.take(players@.len() as int) =~= players@);
    }
    res
}

impl Lineup {
    /// A playable lineup: ten players, nine batters, nine fielders, a pitcher and a
    /// catcher, and the next batter one of the nine.
    pub open spec fn wf(&self) -> bool {
        &&& self.players@.len() == MAX_LINEUP_PLAYERS
        &&& spec_batters(self.players@).len() == 9
        &&& spec_fielders(self.players@, self.risk_tolerance).len() == 9
        &&& spec_pitcher(self.players@) is Some
        &&& spec_catcher(self.players@) is Some
        &&& self.current_index < 9
    }

    /// Checks and builds a lineup, leading off with the first batter.
    pub fn new(vec_players: Vec<ActivePlayer>) -> (res: Result<Self, GameError>)
        ensures
            match res {
                Ok(l) => l.wf() && l.players@ == vec_players@ && l.current_index == 0
                    && l.risk_tolerance == FielderRiskTolerance::Balanced,
                Err(e) => e is Lineup && !(vec_players@.len() == MAX_LINEUP_PLAYERS
                    && spec_batters(vec_players@).len() == 9
                    && spec_fielders(vec_players@, FielderRiskTolerance::Balanced).len() == 9
                    && spec_pitcher(vec_players@) is Some
                    && spec_catcher(vec_players@) is Some),
            },
    {
        if vec_players.len() != MAX_LINEUP_PLAYERS {
            return Err(GameError::Lineup(String::from_str("Number of lineup players must be 10.")));
        }
        let lineup = Self {
            current_index: 0,
            players: vec_players,
            risk_tolerance: FielderRiskTolerance::Balanced,
        };
        if lineup.batters().len() != 9 {
            return Err(GameError::Lineup(String::from_str("Number of batters must be 9.")));
        }
        if lineup.fielders().len() != 9 {
            return Err(GameError::Lineup(String::from_str("Number of fielders must be 9.")));
        }
        if lineup.pitcher().is_err() {
            return Err(GameError::Lineup(String::from_str("Lineup must have pitcher.")));
        }
        if lineup.catcher().is_err() {
            return Err(GameError::Lineup(String::from_str("Lineup must have catcher.")));
        }
        Ok(lineup)
    }

    /// The batters in batting order.
    pub fn batters(&self) -> (batters: Vec<ActiveBatter>)
        ensures
            batters@ == spec_batters(self.players@),
    {
        batters_of(&self.players)
    }

    /// The fielders in lineup order, with the lineup's risk tolerance.
    pub fn fielders(&self) -> (fielders: Vec<ActiveFielder>)
        ensures
            fielders@ == spec_fielders(self.players@, self.risk_tolerance),
    {
        fielders_of(&self.players, self.risk_tolerance)
    }

    pub fn change_risk_tolerance(&mut self, risk_tolerance: FielderRiskTolerance)
        ensures
            old(self).wf() ==> final(self).wf(),
            final(self).risk_tolerance == risk_tolerance,
            final(self).players == old(self).players,
            final(self).current_index == old(self).current_index,
    {
        proof {
            lemma_fielders_len(self.players@, self.risk_tolerance, risk_tolerance);
        }
        self.risk_tolerance = risk_tolerance;
    }

    pub fn pitcher(&self) -> (res: Result<ActivePitcher, GameError>)
        ensures
            match spec_pitcher(self.players@) {
                Some(p) => res matches Ok(q) && q == p,
                None => res matches Err(GameError::Lineup(_)),
            },
    {
        match pitcher_of(&self.players) {
            Some(p) => Ok(p),
            None => Err(GameError::Lineup(String::from_str("Lineup must have pitcher."))),
        }
    }

    pub fn catcher(&self) -> (res: Result<ActiveCatcher, GameError>)
        ensures
            match spec_catcher(self.players@) {
                Some(c) => res matches Ok(d) && d == c,
                None => res matches Err(GameError::Lineup(_)),
            },
    {
        match catcher_of(&self.players) {
            Some(c) => Ok(c),
            None => Err(GameError::Lineup(String::from_str("Lineup must have catcher."))),
        }
    }

    /// The batter due up; the order moves on, wrapping after the ninth.
    pub fn next(&mut self) -> (res: Result<ActiveBatter, GameError>)
        requires
            old(self).wf(),
        ensures
            final(self).wf(),
            final(self).players == old(self).players,
            final(self).risk_tolerance == old(self).risk_tolerance,
            final(self).current_index == (old(self).current_index + 1) % 9,
            res matches Ok(b) && b == spec_batters(old(self).players@)[old(self).current_index as int],
    {
        let batters = self.batters();
        if batters.len() == 0 {
            return Err(GameError::Lineup(String::from_str("batters are empty.")));
        }
        let active_batter = batters[self.current_index];
        self.current_index = (self.current_index + 1) % batters.len();
        Ok(active_batter)
    }
}

/// A team and its roster.
#[derive(Clone, Debug)]
pub struct Team {
    pub id: u16,
    pub name: String,
    pub players: Vec<Player>,
}

/// A league and its teams.
#[derive(Clone, Debug)]
pub struct League {
    pub id: u16,
    pub name: String,
    pub teams: Vec<Team>,
}

/// Why a roster cannot field a lineup: nobody at a position, or a chosen player
/// without the skill record their place needs.
#[derive(Clone, Copy, PartialEq, Eq, Structural, Debug)]
pub enum LineupFault {
    NoPlayerFor(Position),
    BatterInfo,
    FielderInfo,
    PitcherInfo,
}

/// The fielding positions in the order a lineup fills them.
pub open spec fn fielding_order(k: int) -> Position {
    if k == 0 {
        Position::P
    } else if k == 1 {
        Position::C
    } else if k == 2 {
        Position::FB
    } else if k == 3 {
        Position::SB
    } else if k == 4 {
        Position::TB
    } else if k == 5 {
        Position::SS
    } else if k == 6 {
        Position::LF
    } else if k == 7 {
        Position::CF
    } else {
        Position::RF
    }
}

/// Roster indices of the players listed at `position`, in roster order.
pub open spec fn at_position(roster: Seq<Player>, position: Position) -> Seq<usize>
    decreases roster.len(),
{
    if roster.len() == 0 {
        Seq::empty()
    } else {
        let rest = at_position(roster.drop_last(), position);
        if roster.last().position == position {
            rest.push((roster.len() - 1) as usize)
        } else {
            rest
        }
    }
}

/// Roster indices of the batters left on the bench: not among `selected`, not pitchers.
pub open spec fn bench(roster: Seq<Player>, selected: Seq<i64>) -> Seq<usize>
    decreases roster.len(),
{
    if roster.len() == 0 {
        Seq::empty()
    } else {
        let rest = bench(roster.drop_last(), selected);
        let p = roster.last();
        if !selected.contains(p.info.id) && p.position != Position::P && p.batter is Some {
            rest.push((roster.len() - 1) as usize)
        } else {
            rest
        }
    }
}

/// Who may be the designated hitter: the players listed as one, or else the bench batters.
pub open spec fn dh_candidates(roster: Seq<Player>, selected: Seq<i64>) -> Seq<usize> {
    let dedicated = at_position(roster, Position::DH);
    if dedicated.len() == 0 {
        bench(roster, selected)
    } else {
        dedicated
    }
}

/// What keeps player `p` from fielding `position`, checked in the order the records are read.
pub open spec fn fielding_fault(p: Player, position: Position) -> Option<LineupFault> {
    if position != Position::P && p.batter is None {
        Some(LineupFault::BatterInfo)
    } else if spec_fielder_record(p) is None {
        Some(LineupFault::FielderInfo)
    } else if position == Position::P && !p.has_pitcher {
        Some(LineupFault::PitcherInfo)
    } else if position == Position::C && !p.has_catcher {
        Some(LineupFault::PitcherInfo)
    } else {
        None
    }
}

/// The roster indices chosen for the first `k` fielding positions, where `picks[j]`
/// says which of the candidates for position `j` was drawn; `None` when a pick lies
/// outside the candidates it chooses among.
pub open spec fn spec_fielded(roster: Seq<Player>, picks: Seq<int>, k: nat) -> Option<
    Result<Seq<usize>, LineupFault>,
>
    decreases k,
{
    if k == 0 {
        Some(Ok(Seq::empty()))
    } else {
        match spec_fielded(roster, picks, (k - 1) as nat) {
            Some(Ok(chosen)) => {
                let position = fielding_order(k - 1);
                let cands = at_position(roster, position);
                if cands.len() == 0 {
                    Some(Err(LineupFault::NoPlayerFor(position)))
                } else if !(k - 1 < picks.len() && 0 <= picks[k - 1] < cands.len()) {
                    None
                } else {
                    let i = cands[picks[k - 1]];
                    match fielding_fault(roster[i as int], position) {
                        Some(f) => Some(Err(f)),
                        None => Some(Ok(chosen.push(i))),
                    }
                }
            },
            other => other,
        }
    }
}

pub open spec fn ids_of(roster: Seq<Player>, chosen: Seq<usize>) -> Seq<i64> {
    chosen.map_values(|i: usize| roster[i as int].info.id)
}

/// The roster indices of the whole lineup: nine fielders, then the designated hitter.
pub open spec fn spec_chosen(roster: Seq<Player>, picks: Seq<int>) -> Option<
    Result<Seq<usize>, LineupFault>,
> {
    match spec_fielded(roster, picks, 9) {
        Some(Ok(chosen)) => {
            let cands = dh_candidates(roster, ids_of(roster, chosen));
            if cands.len() == 0 {
                Some(Err(LineupFault::NoPlayerFor(Position::DH)))
            } else if !(9 < picks.len() && 0 <= picks[9] < cands.len()) {
                None
            } else {
                let i = cands[picks[9]];
                if roster[i as int].batter is None {
                    Some(Err(LineupFault::BatterInfo))
                } else {
                    Some(Ok(chosen.push(i)))
                }
            }
        },
        other => other,
    }
}

pub open spec fn batter_key(p: Player) -> u64 {
    match p.batter {
        Some(k) => k,
        None => 0,
    }
}

/// How many batters of slots `0..n` bat before slot `s`: a faster swing first, and
/// between equal swings the earlier slot. Slot 0, the pitcher, does not bat.
pub open spec fn bats_ahead(keys: Seq<u64>, s: int, n: int) -> nat
    decreases n,
{
    if n <= 0 {
        0
    } else {
        bats_ahead(keys, s, n - 1) + if n - 1 != 0 && (keys[n - 1] > keys[s] || (keys[n - 1]
            == keys[s] && n - 1 < s)) {
            1nat
        } else {
            0nat
        }
    }
}

/// The lineup entry of slot `s`: fielders in `fielding_order`, then the designated
/// hitter; every slot but the pitcher's bats, in order of swing speed.
pub open spec fn lineup_slot(roster: Seq<Player>, chosen: Seq<usize>, s: int) -> ActivePlayer {
    let keys = chosen.map_values(|i: usize| batter_key(roster[i as int]));
    ActivePlayer {
        id: roster[chosen[s] as int].info.id,
        batting_order: if s != 0 {
            Some((bats_ahead(keys, s, chosen.len() as int) + 1) as u8)
        } else {
            None
        },
        has_batter: s != 0,
        fielding_position: if s < 9 {
            Some(fielding_order(s))
        } else {
            None
        },
        has_fielder: s < 9,
        has_pitcher: s == 0,
        has_catcher: s == 1,
    }
}

pub open spec fn lineup_players(roster: Seq<Player>, chosen: Seq<usize>) -> Seq<ActivePlayer> {
    Seq::new(chosen.len(), |s: int| lineup_slot(roster, chosen, s))
}

/// What `Lineup::new` accepts.
pub open spec fn lineup_ok(ps: Seq<ActivePlayer>) -> bool {
    &&& ps.len() == MAX_LINEUP_PLAYERS
    &&& spec_batters(ps).len() == 9
    &&& spec_fielders(ps, FielderRiskTolerance::Balanced).len() == 9
    &&& spec_pitcher(ps) is Some
    &&& spec_catcher(ps) is Some
}

/// `e` is the error that reports `fault`.
pub open spec fn reports(e: GameError, fault: LineupFault) -> bool {
    match fault {
        LineupFault::NoPlayerFor(p) => e matches GameError::NoPlayerFor(s) && s@ == spec_position_key(
            p,
        ),
        LineupFault::BatterInfo => e is BatterInfo,
        LineupFault::FielderInfo => e is FielderInfo,
        LineupFault::PitcherInfo => e is PitcherInfo,
    }
}

/// The draw behind pick `j` of a lineup: a number from `0` to the last candidate for
/// fielding position `j`, or for the designated hitter once nine fielders are chosen.
pub open spec fn pick_draw(roster: Seq<Player>, picks: Seq<int>, j: int) -> (usize, usize, usize) {
    let n: int = if j < 9 {
        at_position(roster, fielding_order(j)).len() as int
    } else {
        match spec_fielded(roster, picks, 9) {
            Some(Ok(chosen)) => dh_candidates(roster, ids_of(roster, chosen)).len() as int,
            _ => 0,
        }
    };
    (0usize, (n - 1) as usize, picks[j] as usize)
}

/// The draws that make the picks `picks`, in order.
pub open spec fn lineup_draws(roster: Seq<Player>, picks: Seq<int>) -> Seq<(usize, usize, usize)> {
    Seq::new(picks.len(), |j: int| pick_draw(roster, picks, j))
}

/// `res` is what drawing `picks` from `roster` gives.
pub open spec fn lineup_outcome(roster: Seq<Player>, picks: Seq<int>, res: Result<Lineup, GameError>) -> bool {
    match spec_chosen(roster, picks) {
        None => false,
        Some(Err(f)) => res matches Err(e) && reports(e, f),
        Some(Ok(chosen)) => res matches Ok(l) && l.players@ == lineup_players(roster, chosen)
            && l.current_index == 0 && l.risk_tolerance == FielderRiskTolerance::Balanced,
    }
}

proof fn lemma_fielded_prefix(roster: Seq<Player>, picks: Seq<int>, more: Seq<int>, k: nat)
    requires
        k <= picks.len(),
        k <= more.len(),
        forall|j: int| 0 <= j < k ==> picks[j] == more[j],
    ensures
        spec_fielded(roster, picks, k) == spec_fielded(roster, more, k),
    decreases k,
{
    if k > 0 {
        lemma_fielded_prefix(roster, picks, more, (k - 1) as nat);
    }
}

proof fn lemma_fielded_fault_stays(roster: Seq<Player>, picks: Seq<int>, k: nat, n: nat)
    requires
        k <= n,
        spec_fielded(roster, picks, k) matches Some(Err(_)),
    ensures
        spec_fielded(roster, picks, n) == spec_fielded(roster, picks, k),
    decreases n,
{
    if n > k {
        lemma_fielded_fault_stays(roster, picks, k, (n - 1) as nat);
    }
}

fn fielding_position(k: usize) -> (p: Position)
    requires
        k < 9,
    ensures
        p == fielding_order(k as int),
{
    if k == 0 {
        Position::P
    } else if k == 1 {
        Position::C
    } else if k == 2 {
        Position::FB
    } else if k == 3 {
        Position::SB
    } else if k == 4 {
        Position::TB
    } else if k == 5 {
        Position::SS
    } else if k == 6 {
        Position::LF
    } else if k == 7 {
        Position::CF
    } else {
        Position::RF
    }
}

fn contains_id(ids: &Vec<i64>, id: i64) -> (b: bool)
    ensures
        b == ids@.contains(id),
{
    let mut j: usize = 0;
    while j < ids.len()
        invariant
            j <= ids@.len(),
            forall|t: int| 0 <= t < j ==> ids@[t] != id,
        decreases ids@.len() - j,
    {
        if ids[j] == id {
            assert(ids@[j as int] == id);
            return true;
        }
        j += 1;
    }
    false
}

impl Team {
    /// A team with no players yet.
    pub fn min(id: u16, name: &str) -> (t: Self)
        ensures
            t.id == id,
            t.name@ == name@,
            t.players@.len() == 0,
    {
        Team { id, name: String::from_str(name), players: Vec::new() }
    }

    fn players_at(&self, position: Position) -> (c: Vec<usize>)
        ensures
            c@ == at_position(self.players@, position),
    {
        let mut c: Vec<usize> = Vec::new();
        let mut j: usize = 0;
        while j < self.players.len()
            invariant
                j <= self.players@.len(),
                c@ == at_position(self.players@.take(j as int), position),
            decreases self.players@.len() - j,
        {
            proof {
                assert(self.players@.take(j + 1).drop_last() =~= self.players@.take(j as int));
            }
            if self.players[j].position == position {
                c.push(j);
            }
            j += 1;
        }
        proof {
            assert(self.players@.take(self.players@.len() as int) =~= self.players@);
        }
        c
    }

    fn bench_players(&self, selected: &Vec<i64>) -> (c: Vec<usize>)
        ensures
            c@ == bench(self.players@, selected@),
    {
        let mut c: Vec<usize> = Vec::new();
        let mut j: usize = 0;
        while j < self.players.len()
            invariant
                j <= self.players@.len(),
                c@ == bench(self.players@.take(j as int), selected@),
            decreases self.players@.len() - j,
        {
            proof {
                assert(self.players@.take(j + 1).drop_last() =~= self.players@.take(j as int));
            }
            let p = &self.players[j];
            if !contains_id(selected, p.info.id) && p.position != Position::P && p.batter.is_some() {
                c.push(j);
            }
            j += 1;
        }
        proof {
            assert(self.players@.take(self.players@.len() as int) =~= self.players@);
        }
        c
    }
}

proof fn lemma_at_position_bounds(roster: Seq<Player>, position: Position)
    requires
        roster.len() <= usize::MAX,
    ensures
        forall|t: int|
            0 <= t < at_position(roster, position).len() ==> (#[trigger] at_position(roster, position)[t]
                as int) < roster.len() && roster[at_position(roster, position)[t] as int].position
                == position,
    decreases roster.len(),
{
    if roster.len() > 0 {
        let rest = roster.drop_last();
        lemma_at_position_bounds(rest, position);
        let a = at_position(rest, position);
        let b = at_position(roster, position);
        assert forall|t: int| 0 <= t < b.len() implies (b[t] as int) < roster.len() && roster[b[t] as int].position == position by {
            if roster.last().position == position {
                assert(b == a.push((roster.len() - 1) as usize));
            } else {
                assert(b == a);
            }
            if t < a.len() {
                assert(b[t] == a[t]);
                assert((a[t] as int) < rest.len());
                assert(roster[a[t] as int] == rest[a[t] as int]);
            }
        }
    }
}

proof fn lemma_bench_bounds(roster: Seq<Player>, selected: Seq<i64>)
    requires
        roster.len() <= usize::MAX,
    ensures
        forall|t: int|
            0 <= t < bench(roster, selected).len() ==> (#[trigger] bench(roster, selected)[t] as int)
                < roster.len() && roster[bench(roster, selected)[t] as int].batter is Some,
    decreases roster.len(),
{
    if roster.len() > 0 {
        let rest = roster.drop_last();
        lemma_bench_bounds(rest, selected);
        let a = bench(rest, selected);
        let b = bench(roster, selected);
        assert forall|t: int| 0 <= t < b.len() implies (b[t] as int) < roster.len() && roster[b[t] as int].batter is Some by {
            let p = roster.last();
            if !selected.contains(p.info.id) && p.position != Position::P && p.batter is Some {
                assert(b == a.push((roster.len() - 1) as usize));
            } else {
                assert(b == a);
            }
            if t < a.len() {
                assert(b[t] == a[t]);
                assert((a[t] as int) < rest.len());
                assert(roster[a[t] as int] == rest[a[t] as int]);
            }
        }
    }
}

/// Why `p` cannot field `position`, as the error that reports it.
fn fielding_error(p: &Player, position: Position) -> (e: Option<GameError>)
    ensures
        match fielding_fault(*p, position) {
            None => e is None,
            Some(f) => e matches Some(err) && reports(err, f),
        },
{
    if position != Position::P && p.batter.is_none() {
        return Some(GameError::BatterInfo);
    }
    if p.fielder().is_err() {
        return Some(GameError::FielderInfo);
    }
    if position == Position::P && !p.has_pitcher {
        return Some(GameError::PitcherInfo);
    }
    if position == Position::C && !p.has_catcher {
        return Some(GameError::PitcherInfo);
    }
    None
}

fn count_ahead(keys: &Vec<u64>, s: usize) -> (n: u8)
    requires
        keys@.len() == MAX_LINEUP_PLAYERS,
        s < MAX_LINEUP_PLAYERS,
    ensures
        n == bats_ahead(keys@, s as int, MAX_LINEUP_PLAYERS as int),
        n < MAX_LINEUP_PLAYERS,
{
    let mut n: u8 = 0;
    let mut t: usize = 0;
    while t < MAX_LINEUP_PLAYERS
        invariant
            t <= MAX_LINEUP_PLAYERS,
            s < MAX_LINEUP_PLAYERS,
            keys@.len() == MAX_LINEUP_PLAYERS,
            n == bats_ahead(keys@, s as int, t as int),
            n <= t,
            t > 0 ==> n < t,
        decreases MAX_LINEUP_PLAYERS - t,
    {
        if t != 0 && (keys[t] > keys[s] || (keys[t] == keys[s] && t < s)) {
            n += 1;
        }
        t += 1;
    }
    n
}

impl Team {
    /// Draws a starting lineup from the roster: for each fielding position in turn one
    /// of the players listed there, then a designated hitter (a player listed as one,
    /// or else a batter left on the bench), and a batting order by swing speed, fastest
    /// first. Fails when a position has nobody, or the player drawn lacks the skill
    /// record the place needs. Whatever the draws, the result is what those draws give.
    pub fn lineup<R: RandomProvider>(&mut self, rng: &mut R) -> (res: Result<Lineup, GameError>)
        ensures
            *final(self) == *old(self),
            exists|picks: Seq<int>|
                #[trigger] lineup_outcome(old(self).players@, picks, res) && final(rng).draws()
                    == old(rng).draws() + lineup_draws(old(self).players@, picks),
    {
        let ghost roster = self.players@;
        let ghost start = rng.draws();
        assert(lineup_draws(roster, Seq::<int>::empty()) =~= Seq::empty());
        assert(start + Seq::<(usize, usize, usize)>::empty() =~= start);
        assert(roster.len() == self.players.len());
        let ghost mut picks: Seq<int> = Seq::empty();
        let mut chosen: Vec<usize> = Vec::new();
        let mut selected: Vec<i64> = Vec::new();
        let mut k: usize = 0;
        while k < 9
            invariant
                k <= 9,
                roster == self.players@,
                roster.len() <= usize::MAX,
                picks.len() == k,
                chosen@.len() == k,
                spec_fielded(roster, picks, k as nat) == Some(
                    Ok::<Seq<usize>, LineupFault>(chosen@),
                ),
                selected@ == ids_of(roster, chosen@),
                forall|t: int| 0 <= t < k ==> (chosen@[t] as int) < roster.len(),
                rng.draws() == start + lineup_draws(roster, picks),
                start == old(rng).draws(),
            decreases 9 - k,
        {
            let position = fielding_position(k);
            let cands = self.players_at(position);
            proof {
                lemma_at_position_bounds(roster, position);
            }
            if cands.len() == 0 {
                let res = Err(GameError::NoPlayerFor(String::from_str(position.message_key())));
                proof {
                    lemma_fielded_fault_stays(roster, picks, (k + 1) as nat, 9);
                    assert(lineup_outcome(roster, picks, res));
                }
                return res;
            }
            let pick = rng.gen_range(0, cands.len() - 1);
            let i = cands[pick];
            let ghost before = picks;
            proof {
                picks = picks.push(pick as int);
                lemma_fielded_prefix(roster, before, picks, k as nat);
                assert(cands@[pick as int] == i);
                assert(lineup_draws(roster, picks) =~= lineup_draws(roster, before).push(
                    (0usize, (cands.len() - 1) as usize, pick),
                ));
            }
            let p = &self.players[i];
            match fielding_error(p, position) {
                Some(e) => {
                    let res = Err(e);
                    proof {
                        lemma_fielded_fault_stays(roster, picks, (k + 1) as nat, 9);
                        assert(lineup_outcome(roster, picks, res));
                    }
                    return res;
                },
                None => {},
            }
            let ghost chosen_before = chosen@;
            chosen.push(i);
            selected.push(p.info.id);
            proof {
                assert(ids_of(roster, chosen@) =~= ids_of(roster, chosen_before).push(
                    roster[i as int].info.id,
                ));
            }
            k += 1;
        }
        let dedicated = self.players_at(Position::DH);
        let dh_cands = if dedicated.len() == 0 {
            self.bench_players(&selected)
        } else {
            dedicated
        };
        proof {
            lemma_at_position_bounds(roster, Position::DH);
            lemma_bench_bounds(roster, selected@);
        }
        if dh_cands.len() == 0 {
            let res = Err(GameError::NoPlayerFor(String::from_str(Position::DH.message_key())));
            proof {
                assert(lineup_outcome(roster, picks, res));
            }
            return res;
        }
        let pick = rng.gen_range(0, dh_cands.len() - 1);
        let i = dh_cands[pick];
        let ghost before = picks;
        proof {
            picks = picks.push(pick as int);
            lemma_fielded_prefix(roster, before, picks, 9);
            assert(dh_cands@[pick as int] == i);
            assert(lineup_draws(roster, picks) =~= lineup_draws(roster, before).push(
                (0usize, (dh_cands.len() - 1) as usize, pick),
            ));
        }
        if self.players[i].batter.is_none() {
            let res = Err(GameError::BatterInfo);
            proof {
                assert(lineup_outcome(roster, picks, res));
            }
            return res;
        }
        chosen.push(i);
        let ghost all = chosen@;
        proof {
            assert(spec_chosen(roster, picks) == Some(Ok::<Seq<usize>, LineupFault>(all)));
        }
        let ghost key_seq = all.map_values(|j: usize| batter_key(roster[j as int]));
        let mut keys: Vec<u64> = Vec::new();
        let mut s: usize = 0;
        while s < MAX_LINEUP_PLAYERS
            invariant
                s <= MAX_LINEUP_PLAYERS,
                roster == self.players@,
                chosen@ == all,
                all.len() == MAX_LINEUP_PLAYERS,
                forall|t: int| 0 <= t < MAX_LINEUP_PLAYERS ==> (all[t] as int) < roster.len(),
                key_seq == all.map_values(|j: usize| batter_key(roster[j as int])),
                keys@ == key_seq.take(s as int),
            decreases MAX_LINEUP_PLAYERS - s,
        {
            let key = match self.players[chosen[s]].batter {
                Some(key) => key,
                None => 0,
            };
            keys.push(key);
            proof {
                assert(keys@ =~= key_seq.take(s + 1));
            }
            s += 1;
        }
        proof {
            assert(keys@ =~= key_seq);
        }
        let ghost expected = lineup_players(roster, all);
        let mut players: Vec<ActivePlayer> = Vec::new();
        let mut s: usize = 0;
        while s < MAX_LINEUP_PLAYERS
            invariant
                s <= MAX_LINEUP_PLAYERS,
                roster == self.players@,
                chosen@ == all,
                all.len() == MAX_LINEUP_PLAYERS,
                forall|t: int| 0 <= t < MAX_LINEUP_PLAYERS ==> (all[t] as int) < roster.len(),
                key_seq == all.map_values(|j: usize| batter_key(roster[j as int])),
                keys@ == key_seq,
                expected == lineup_players(roster, all),
                players@ == expected.take(s as int),
            decreases MAX_LINEUP_PLAYERS - s,
        {
            let batting_order = if s == 0 {
                None
            } else {
                Some(count_ahead(&keys, s) + 1)
            };
            let fielding = if s < 9 {
                Some(fielding_position(s))
            } else {
                None
            };
            let entry = ActivePlayer {
                id: self.players[chosen[s]].info.id,
                batting_order,
                has_batter: s != 0,
                fielding_position: fielding,
                has_fielder: s < 9,
                has_pitcher: s == 0,
                has_catcher: s == 1,
            };
            players.push(entry);
            proof {
                assert(entry == lineup_slot(roster, all, s as int));
                assert(players@ =~= expected.take(s + 1));
            }
            s += 1;
        }
        proof {
            assert(players@ =~= expected);
            lemma_drawn_lineup_playable(roster, all);
        }
        let res = Lineup::new(players);
        proof {
            assert(lineup_outcome(roster, picks, res));
        }
        res
    }
}

/// How many of `players` bat with batting order `k`.
spec fn count_with_index(players: Seq<ActivePlayer>, k: int) -> nat
    decreases players.len(),
{
    if players.len() == 0 {
        0
    } else {
        count_with_index(players.drop_last(), k) + match batter_of(players.last()) {
            Some(b) => if b.index == k {
                1nat
            } else {
                0nat
            },
            None => 0nat,
        }
    }
}

/// How many of `players` bat with a batting order below `k`.
spec fn count_below(players: Seq<ActivePlayer>, k: int) -> nat
    decreases players.len(),
{
    if players.len() == 0 {
        0
    } else {
        count_below(players.drop_last(), k) + match batter_of(players.last()) {
            Some(b) => if b.index < k {
                1nat
            } else {
                0nat
            },
            None => 0nat,
        }
    }
}

proof fn lemma_with_index_len(players: Seq<ActivePlayer>, k: int)
    ensures
        batters_with_index(players, k).len() == count_with_index(players, k),
    decreases players.len(),
{
    if players.len() > 0 {
        lemma_with_index_len(players.drop_last(), k);
    }
}

proof fn lemma_count_below_step(players: Seq<ActivePlayer>, k: int)
    ensures
        count_below(players, k + 1) == count_below(players, k) + count_with_index(players, k),
    decreases players.len(),
{
    if players.len() > 0 {
        lemma_count_below_step(players.drop_last(), k);
    }
}

proof fn lemma_batters_below_len(players: Seq<ActivePlayer>, k: int)
    requires
        k >= 0,
    ensures
        batters_below(players, k).len() == count_below(players, k),
    decreases k,
{
    if k == 0 {
        lemma_count_below_zero(players);
    } else {
        lemma_batters_below_len(players, k - 1);
        lemma_with_index_len(players, k - 1);
        lemma_count_below_step(players, k - 1);
    }
}

proof fn lemma_count_below_zero(players: Seq<ActivePlayer>)
    ensures
        count_below(players, 0) == 0,
    decreases players.len(),
{
    if players.len() > 0 {
        lemma_count_below_zero(players.drop_last());
    }
}

/// Where every player but the first bats with an order below 256, all but one are batters.
proof fn lemma_count_all_but_first(players: Seq<ActivePlayer>)
    requires
        players.len() >= 1,
        batter_of(players[0]) is None,
        forall|s: int|
            1 <= s < players.len() ==> ((#[trigger] batter_of(players[s])) matches Some(b) && b.index
                < 256),
    ensures
        count_below(players, 256) == players.len() - 1,
    decreases players.len(),
{
    if players.len() > 1 {
        let rest = players.drop_last();
        assert forall|s: int| 1 <= s < rest.len() implies ((#[trigger] batter_of(rest[s])) matches Some(
            b,
        ) && b.index < 256) by {
            assert(rest[s] == players[s]);
        }
        lemma_count_all_but_first(rest);
        assert(players.last() == players[players.len() - 1]);
        let b = batter_of(players[players.len() - 1]);
        assert(b matches Some(x) && x.index < 256);
        assert(count_below(players, 256) == count_below(rest, 256) + 1);
    } else {
        assert(players.drop_last().len() == 0);
        assert(count_below(players.drop_last(), 256) == 0);
        assert(players.last() == players[0]);
    }
}

/// Where exactly the first `m` players field, the lineup has `m` fielders.
proof fn lemma_fielders_first(players: Seq<ActivePlayer>, risk: FielderRiskTolerance, m: int)
    requires
        0 <= m <= players.len(),
        forall|s: int|
            0 <= s < players.len() ==> ((#[trigger] fielder_of(players[s], risk)) is Some <==> s < m),
    ensures
        spec_fielders(players, risk).len() == m,
    decreases players.len(),
{
    if players.len() > 0 {
        let rest = players.drop_last();
        let m2 = if m == players.len() { m - 1 } else { m };
        assert forall|s: int| 0 <= s < rest.len() implies ((#[trigger] fielder_of(rest[s], risk)) is Some
            <==> s < m2) by {
            assert(rest[s] == players[s]);
        }
        assert(fielder_of(players[players.len() - 1], risk) is Some <==> players.len() - 1 < m);
        lemma_fielders_first(rest, risk, m2);
    }
}

proof fn lemma_pitcher_found(players: Seq<ActivePlayer>, i: int)
    requires
        0 <= i < players.len(),
        players[i].has_pitcher,
    ensures
        spec_pitcher(players) is Some,
    decreases players.len(),
{
    if i < players.len() - 1 {
        assert(players.drop_last()[i] == players[i]);
        lemma_pitcher_found(players.drop_last(), i);
    }
}

proof fn lemma_catcher_found(players: Seq<ActivePlayer>, i: int)
    requires
        0 <= i < players.len(),
        players[i].has_catcher,
    ensures
        spec_catcher(players) is Some,
    decreases players.len(),
{
    if i < players.len() - 1 {
        assert(players.drop_last()[i] == players[i]);
        lemma_catcher_found(players.drop_last(), i);
    }
}

proof fn lemma_bats_ahead_bound(keys: Seq<u64>, s: int, n: int)
    requires
        n >= 0,
    ensures
        bats_ahead(keys, s, n) <= n,
    decreases n,
{
    if n > 0 {
        lemma_bats_ahead_bound(keys, s, n - 1);
    }
}

/// A lineup drawn from a roster is always playable: whenever the draws find a player for
/// every place, the ten entries have nine batters, nine fielders, a pitcher and a
/// catcher, so `Team::lineup` then succeeds.
pub proof fn lemma_drawn_lineup_playable(roster: Seq<Player>, chosen: Seq<usize>)
    requires
        chosen.len() == MAX_LINEUP_PLAYERS,
    ensures
        lineup_ok(lineup_players(roster, chosen)),
{
    let ps = lineup_players(roster, chosen);
    let keys = chosen.map_values(|i: usize| batter_key(roster[i as int]));
    assert forall|s: int| 1 <= s < ps.len() implies ((#[trigger] batter_of(ps[s])) matches Some(b)
        && b.index < 256) by {
        lemma_bats_ahead_bound(keys, s, 10);
    }
    lemma_count_all_but_first(ps);
    lemma_batters_below_len(ps, 256);
    assert forall|s: int| 0 <= s < ps.len() implies ((#[trigger] fielder_of(
        ps[s],
        FielderRiskTolerance::Balanced,
    )) is Some <==> s < 9) by {}
    lemma_fielders_first(ps, FielderRiskTolerance::Balanced, 9);
    lemma_pitcher_found(ps, 0);
    lemma_catcher_found(ps, 1);
}

proof fn lemma_fielded_len(roster: Seq<Player>, picks: Seq<int>, k: nat)
    ensures
        spec_fielded(roster, picks, k) matches Some(Ok(chosen)) ==> chosen.len() == k,
    decreases k,
{
    if k > 0 {
        lemma_fielded_len(roster, picks, (k - 1) as nat);
    }
}

/// Whatever the draws, a lineup that `Team::lineup` hands out is playable.
pub proof fn lemma_outcome_lineup_wf(roster: Seq<Player>, picks: Seq<int>, l: Lineup)
    requires
        lineup_outcome(roster, picks, Ok::<Lineup, GameError>(l)),
    ensures
        l.wf(),
{
    lemma_fielded_len(roster, picks, 9);
    let chosen = spec_chosen(roster, picks)->0->Ok_0;
    lemma_drawn_lineup_playable(roster, chosen);
}

/// Where the batting order stands after `n` batters have come up from `i`.
pub open spec fn order_after(i: int, n: nat) -> int
    decreases n,
{
    if n == 0 {
        i
    } else {
        (order_after(i, (n - 1) as nat) + 1) % 9
    }
}

/// The batting order wraps: nine batters after any place in the order, the same place
/// is up again, as `Lineup::next` moves it.
pub proof fn lemma_order_wraps_after_nine(i: int)
    requires
        0 <= i < 9,
    ensures
        order_after(i, 9) == i,
{
    lemma_order_after_steps(i, 9);
}

/// After `n` batters the order has moved `n` places round the nine.
proof fn lemma_order_after_steps(i: int, n: nat)
    requires
        0 <= i < 9,
    ensures
        order_after(i, n) == (i + n) % 9,
    decreases n,
{
    if n > 0 {
        lemma_order_after_steps(i, (n - 1) as nat);
        let x = i + n - 1;
        assert(((x % 9) + 1) % 9 == (x + 1) % 9) by {
            lemma_add_mod_noop(x, 1, 9);
            lemma_small_mod(1, 9);
        }
    } else {
        lemma_small_mod(i as nat, 9);
    }
}

proof fn lemma_bats_ahead_faster(keys: Seq<u64>, s: int, t: int, n: int)
    requires
        0 < s < keys.len(),
        0 <= t < keys.len(),
        0 <= n <= keys.len(),
        keys[s] > keys[t],
    ensures
        bats_ahead(keys, s, n) + (if s < n { 1int } else { 0int }) <= bats_ahead(keys, t, n),
    decreases n,
{
    if n > 0 {
        lemma_bats_ahead_faster(keys, s, t, n - 1);
    }
}

/// The batting order goes by swing speed: of two batters of a lineup, the one with the
/// faster swing bats earlier.
pub proof fn lemma_faster_swing_bats_earlier(roster: Seq<Player>, chosen: Seq<usize>, s: int, t: int)
    requires
        0 < s < chosen.len(),
        0 < t < chosen.len(),
        chosen.len() <= MAX_LINEUP_PLAYERS,
        batter_key(roster[chosen[s] as int]) > batter_key(roster[chosen[t] as int]),
    ensures
        (lineup_slot(roster, chosen, s).batting_order->0 as int) < (lineup_slot(
            roster,
            chosen,
            t,
        ).batting_order->0 as int),
{
    let keys = chosen.map_values(|i: usize| batter_key(roster[i as int]));
    lemma_bats_ahead_faster(keys, s, t, chosen.len() as int);
    lemma_bats_ahead_bound(keys, s, chosen.len() as int);
    lemma_bats_ahead_bound(keys, t, chosen.len() as int);
}

} // verus!
