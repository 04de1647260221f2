use vstd::prelude::*;
use vstd::arithmetic::div_mod::{
    lemma_add_mod_noop_right, lemma_fundamental_div_mod, lemma_mod_bound, lemma_mod_equivalence,
    lemma_mod_multiples_vanish, lemma_small_mod,
};
use chrono::{Datelike, NaiveDate};
use crate::game::{GameType, TOTAL_GAMES};
use crate::team::{League, Team};

verus! {

/// The season to schedule and the day it opens, as a day number with January 1 of
/// year 1 as day 1.
#[derive(Clone, Copy, PartialEq, Eq, Structural, Debug)]
pub struct GameSeason {
    pub start_date: i32,
    pub season: u16,
}

/// A scheduled game; dates are day numbers with January 1 of year 1 as day 1.
#[derive(Clone, Debug)]
pub struct GameSchedule {
    pub id: u32,
    pub season: u16,
    pub round_seq: u16,
    pub seq: u16,
    pub planned_date: i32,
    pub away_team: Team,
    pub home_team: Team,
    pub game_type: GameType,
}

/// Why a league could not be scheduled.
#[derive(Clone, Copy, PartialEq, Eq, Structural, Debug)]
pub enum ScheduleError {
    TooFewTeams(u16),
}

/// The earliest and latest day numbers the calendar logic works with.
pub const FIRST_DAY: i32 = -95_000_000;
pub const LAST_DAY: i32 = 95_000_000;

/// The ISO weekday number of day `days`, Monday 1 through Sunday 7: in the proleptic
/// Gregorian calendar day 1, January 1 of year 1, is a Monday, and the week repeats
/// every seven days.
pub open spec fn weekday_number(days: i32) -> int {
    (days - 1) % 7 + 1
}

/// chrono's `NaiveDate::from_num_days_from_ce_opt`, `Datelike::weekday` and
/// `Weekday::number_from_monday`: the day of week of day `days` in the proleptic
/// Gregorian calendar that chrono documents, numbered from Monday. The day lies in
/// chrono's range, so the date exists.
#[verifier::external_body]
fn weekday_from_monday(days: i32) -> (n: u32)
    requires
        FIRST_DAY <= days <= LAST_DAY,
    ensures
        n == weekday_number(days),
{
    NaiveDate::from_num_days_from_ce_opt(days).unwrap().weekday().number_from_monday()
}

/// The day games are played on from `day`: Mondays are off, so a Monday moves to Tuesday.
pub open spec fn spec_next_playable_date(day: i32) -> int {
    if weekday_number(day) == 1 {
        day + 1
    } else {
        day as int
    }
}

/// The first day on or after `current_date` that games may be played: Monday moves to Tuesday.
pub fn next_playable_date(current_date: i32) -> (d: i32)
    requires
        FIRST_DAY <= current_date <= LAST_DAY,
    ensures
        d == spec_next_playable_date(current_date),
{
    if weekday_from_monday(current_date) == 1 {
        current_date + 1
    } else {
        current_date
    }
}

impl League {
    /// Team ids are unique within a league.
    pub open spec fn wf(&self) -> bool {
        forall|i: int, j: int|
            0 <= i < j < self.teams@.len() ==> #[trigger] self.teams@[i].id != #[trigger] self.teams@[j].id
    }
}

/// The team index at place `i` of the rotating part of the league in round `r`
/// (rounds count from 0): the first team stays fixed and the other `m` teams move
/// one place on each round, the last coming round to the front.
pub open spec fn rest_index(m: int, r: int, i: int) -> int {
    1 + (i - r) % m
}

/// The two team indices of pairing `p` in round `r`: the fixed team meets the middle
/// of the others, and the others meet from both ends inward.
pub open spec fn pairing(m: int, r: int, p: int) -> (int, int) {
    if p == 0 {
        (0, rest_index(m, r, m / 2))
    } else {
        (rest_index(m, r, p - 1), rest_index(m, r, m - p))
    }
}

pub open spec fn pairings_per_round(m: int) -> int {
    m / 2 + 1
}

/// How often team `k` takes part in the first `p` pairings of round `r`.
pub open spec fn appearances(m: int, r: int, k: int, p: int) -> nat
    decreases p,
{
    if p <= 0 {
        0
    } else {
        appearances(m, r, k, p - 1) + (if pairing(m, r, p - 1).0 == k {
            1nat
        } else {
            0nat
        }) + (if pairing(m, r, p - 1).1 == k {
            1nat
        } else {
            0nat
        })
    }
}

/// The games team `k` is credited with before round `r`: three for each pairing it is in.
pub open spec fn played(m: int, k: int, r: nat) -> nat
    decreases r,
{
    if r == 0 {
        0
    } else {
        played(m, k, (r - 1) as nat) + 3 * appearances(m, r - 1, k, pairings_per_round(m))
    }
}

proof fn lemma_rest_index_range(m: int, r: int, i: int)
    requires
        m >= 1,
    ensures
        1 <= rest_index(m, r, i) <= m,
{
    lemma_mod_bound(i - r, m);
}

proof fn lemma_rest_index_injective(m: int, r: int, i: int, j: int)
    requires
        m >= 1,
        0 <= i < m,
        0 <= j < m,
        rest_index(m, r, i) == rest_index(m, r, j),
    ensures
        i == j,
{
    lemma_mod_equivalence(i - r, j - r, m);
    assert((i - r) - (j - r) == i - j);
    if i > j {
        lemma_small_mod((i - j) as nat, m as nat);
    } else if i < j {
        lemma_mod_equivalence(j - r, i - r, m);
        assert((j - r) - (i - r) == j - i);
        lemma_small_mod((j - i) as nat, m as nat);
    }
}

/// The place in round `r` where team `k` of the rotating part stands.
proof fn lemma_rest_index_place(m: int, r: int, k: int) -> (pos: int)
    requires
        m >= 1,
        1 <= k <= m,
        r >= 0,
    ensures
        0 <= pos < m,
        rest_index(m, r, pos) == k,
{
    let pos = (k - 1 + r) % m;
    lemma_mod_bound(k - 1 + r, m);
    lemma_add_mod_noop_right(-r, k - 1 + r, m);
    assert(-r + (k - 1 + r) == k - 1);
    lemma_small_mod((k - 1) as nat, m as nat);
    pos
}

/// In one round a team takes part in at most two pairings.
proof fn lemma_appearances_at_most_two(m: int, r: int, k: int)
    requires
        m >= 1,
        r >= 0,
    ensures
        appearances(m, r, k, pairings_per_round(m)) <= 2,
        k == 0 ==> appearances(m, r, k, pairings_per_round(m)) >= 1,
{
    let q = m / 2;
    if k == 0 {
        lemma_appearances_fixed(m, r, q + 1);
    } else if 1 <= k <= m {
        let pos = lemma_rest_index_place(m, r, k);
        lemma_appearances_rotating(m, r, k, pos, q + 1);
    } else {
        lemma_appearances_none(m, r, k, q + 1);
    }
}

proof fn lemma_appearances_fixed(m: int, r: int, p: int)
    requires
        m >= 1,
        1 <= p <= m / 2 + 1,
    ensures
        appearances(m, r, 0, p) == 1,
    decreases p,
{
    lemma_rest_index_range(m, r, m / 2);
    if p > 1 {
        lemma_appearances_fixed(m, r, p - 1);
        lemma_rest_index_range(m, r, p - 2);
        lemma_rest_index_range(m, r, m - (p - 1));
        assert(pairing(m, r, p - 1) == (rest_index(m, r, p - 2), rest_index(m, r, m - (p - 1))));
    } else {
        assert(appearances(m, r, 0, 0) == 0);
        assert(pairing(m, r, 0) == (0int, rest_index(m, r, m / 2)));
    }
}

proof fn lemma_appearances_none(m: int, r: int, k: int, p: int)
    requires
        m >= 1,
        k < 0 || k > m,
        0 <= p <= m / 2 + 1,
    ensures
        appearances(m, r, k, p) == 0,
    decreases p,
{
    if p > 0 {
        lemma_appearances_none(m, r, k, p - 1);
        lemma_rest_index_range(m, r, m / 2);
        lemma_rest_index_range(m, r, p - 2);
        lemma_rest_index_range(m, r, m - (p - 1));
    }
}

/// Team `k` of the rotating part, standing at place `pos`, meets the fixed team when
/// it stands in the middle, and is met once from each end at most.
proof fn lemma_appearances_rotating(m: int, r: int, k: int, pos: int, p: int)
    requires
        m >= 1,
        1 <= k <= m,
        0 <= pos < m,
        rest_index(m, r, pos) == k,
        1 <= p <= m / 2 + 1,
    ensures
        appearances(m, r, k, p) == (if pos == m / 2 {
            1nat
        } else {
            0nat
        }) + (if pos + 1 < p {
            1nat
        } else {
            0nat
        }) + (if m - pos < p {
            1nat
        } else {
            0nat
        }),
    decreases p,
{
    if p == 1 {
        assert(appearances(m, r, k, 0) == 0);
        assert(pairing(m, r, 0) == (0int, rest_index(m, r, m / 2)));
        if rest_index(m, r, m / 2) == k {
            lemma_rest_index_injective(m, r, m / 2, pos);
        }
    } else {
        assert(pairing(m, r, p - 1) == (rest_index(m, r, p - 2), rest_index(m, r, m - (p - 1))));
        lemma_appearances_rotating(m, r, k, pos, p - 1);
        if rest_index(m, r, p - 2) == k {
            lemma_rest_index_injective(m, r, p - 2, pos);
        }
        if rest_index(m, r, m - (p - 1)) == k {
            lemma_rest_index_injective(m, r, m - (p - 1), pos);
        }
    }
}

/// How many rounds the league plays: rounds go on until the fixed first team has its games.
pub open spec fn round_count_from(m: int, r: nat) -> nat
    decreases TOTAL_GAMES - r,
{
    if r >= TOTAL_GAMES || played(m, 0, r) >= TOTAL_GAMES {
        r
    } else {
        round_count_from(m, r + 1)
    }
}

/// The first day of round `r`: three days after the previous round began, Mondays off.
pub open spec fn round_date(start: i32, r: nat) -> int
    decreases r,
{
    if r == 0 {
        spec_next_playable_date(start)
    } else {
        spec_next_playable_date((round_date(start, (r - 1) as nat) + 3) as i32)
    }
}

/// Home and away of pairing `p` in round `r`: the sides swap from one round to the next.
pub open spec fn home_away(m: int, r: int, p: int) -> (int, int) {
    let (a, b) = pairing(m, r, p);
    if (r + 1) % 2 == 0 {
        (a, b)
    } else {
        (b, a)
    }
}

/// A scheduled game as round number, game number in the series, day, home and away
/// team index.
pub type GameSlot = (u16, u16, int, int, int);

/// The games of day `day` of round `r` among its first `p` pairings: one for each pairing
/// whose home team still has games to play.
pub open spec fn day_games(m: int, start: i32, r: nat, day: int, p: int) -> Seq<GameSlot>
    decreases p,
{
    if p <= 0 {
        Seq::empty()
    } else {
        let rest = day_games(m, start, r, day, p - 1);
        let (h, a) = home_away(m, r as int, p - 1);
        if played(m, h, r) < TOTAL_GAMES {
            rest.push(((r + 1) as u16, (day + 1) as u16, round_date(start, r) + day, h, a))
        } else {
            rest
        }
    }
}

/// The games of the first `days` days of round `r`: each round is a three-game series.
pub open spec fn round_games(m: int, start: i32, r: nat, days: int) -> Seq<GameSlot>
    decreases days,
{
    if days <= 0 {
        Seq::empty()
    } else {
        round_games(m, start, r, days - 1) + day_games(m, start, r, days - 1, pairings_per_round(m))
    }
}

/// The games of the first `r` rounds.
pub open spec fn season_games(m: int, start: i32, r: nat) -> Seq<GameSlot>
    decreases r,
{
    if r == 0 {
        Seq::empty()
    } else {
        season_games(m, start, (r - 1) as nat) + round_games(m, start, (r - 1) as nat, 3)
    }
}

/// Two team records with the same id, name and roster.
pub open spec fn same_team(a: Team, b: Team) -> bool {
    a.id == b.id && a.name == b.name && a.players@ == b.players@
}

/// `g` is the regular-season game of season `season + 1` that `slot` describes.
pub open spec fn scheduled_as(g: GameSchedule, league: League, game_season: GameSeason, slot: GameSlot) -> bool {
    &&& g.id == 0
    &&& g.season == game_season.season + 1
    &&& g.round_seq == slot.0
    &&& g.seq == slot.1
    &&& g.planned_date == slot.2
    &&& same_team(g.home_team, league.teams@[slot.3])
    &&& same_team(g.away_team, league.teams@[slot.4])
    &&& g.game_type == GameType::Regular
}

/// The schedule of a league: the slots of every round, as games.
pub open spec fn schedules_match(
    games: Seq<GameSchedule>,
    league: League,
    game_season: GameSeason,
    slots: Seq<GameSlot>,
) -> bool {
    games.len() == slots.len() && forall|k: int|
        0 <= k < slots.len() ==> scheduled_as(#[trigger] games[k], league, game_season, slots[k])
}

proof fn lemma_appearances_monotone(m: int, r: int, k: int, p: int, q: int)
    requires
        0 <= p <= q,
    ensures
        appearances(m, r, k, p) <= appearances(m, r, k, q),
    decreases q - p,
{
    if p < q {
        lemma_appearances_monotone(m, r, k, p, q - 1);
    }
}

proof fn lemma_played_bounds(m: int, k: int, r: nat)
    requires
        m >= 1,
    ensures
        played(m, k, r) <= 6 * r,
        k == 0 ==> played(m, k, r) >= 3 * r,
    decreases r,
{
    if r > 0 {
        lemma_played_bounds(m, k, (r - 1) as nat);
        lemma_appearances_at_most_two(m, r - 1, k);
    }
}

proof fn lemma_round_count(m: int, r: nat, total: nat)
    requires
        r <= total <= TOTAL_GAMES,
        played(m, 0, total) >= TOTAL_GAMES,
        forall|t: nat| r <= t < total ==> played(m, 0, t) < TOTAL_GAMES,
    ensures
        round_count_from(m, r) == total,
    decreases total - r,
{
    if r < total {
        assert(played(m, 0, r) < TOTAL_GAMES);
        lemma_round_count(m, r + 1, total);
    }
}

proof fn lemma_round_date_bounds(start: i32, r: nat)
    requires
        FIRST_DAY <= start,
        start + 4 * r + 4 <= LAST_DAY,
    ensures
        start <= round_date(start, r) <= start + 4 * r + 1,
    decreases r,
{
    if r > 0 {
        lemma_round_date_bounds(start, (r - 1) as nat);
    }
}

/// Place `i` of the rotating part in round `r`, computed without negative numbers.
fn rest_place(m: usize, r: u16, i: usize) -> (k: usize)
    requires
        m >= 1,
        i < m,
    ensures
        k == rest_index(m as int, r as int, i as int),
        1 <= k <= m,
{
    let shift = (r as usize) % m;
    let v = if i >= shift {
        i - shift
    } else {
        i + (m - shift)
    };
    let k = 1 + v;
    proof {
        lemma_fundamental_div_mod(r as int, m as int);
        let qt = (r as int) / (m as int);
        let a = if i >= shift {
            -qt
        } else {
            -qt - 1
        };
        assert(i - r == (m as int) * a + v) by (nonlinear_arith)
            requires
                shift == r as int - (m as int) * qt,
                a == (if i >= shift { -qt } else { -qt - 1 }),
                v == (if i >= shift { i - shift } else { i + m - shift }),
        ;
        lemma_mod_multiples_vanish(a, v as int, m as int);
        lemma_small_mod(v as nat, m as nat);
    }
    k
}

fn pairing_of(m: usize, r: u16, p: usize) -> (t: (usize, usize))
    requires
        m >= 1,
        p <= m / 2,
    ensures
        t.0 == pairing(m as int, r as int, p as int).0,
        t.1 == pairing(m as int, r as int, p as int).1,
        t.0 <= m,
        t.1 <= m,
{
    if p == 0 {
        (0, rest_place(m, r, m / 2))
    } else {
        (rest_place(m, r, p - 1), rest_place(m, r, m - p))
    }
}

impl Team {
    /// A copy of the team and its roster.
    pub fn duplicate(&self) -> (t: Team)
        ensures
            same_team(t, *self),
    {
        let mut players: Vec<crate::player::Player> = Vec::new();
        let mut j: usize = 0;
        while j < self.players.len()
            invariant
                j <= self.players@.len(),
                players@ == self.players@.take(j as int),
            decreases self.players@.len() - j,
        {
            players.push(self.players[j].duplicate());
            proof {
                assert(players@ =~= self.players@.take(j + 1));
            }
            j += 1;
        }
        proof {
            assert(self.players@.take(self.players@.len() as int) =~= self.players@);
        }
        Team { id: self.id, name: self.name.clone(), players }
    }
}

proof fn lemma_match_push(
    games: Seq<GameSchedule>,
    league: League,
    game_season: GameSeason,
    slots: Seq<GameSlot>,
    g: GameSchedule,
    slot: GameSlot,
)
    requires
        schedules_match(games, league, game_season, slots),
        scheduled_as(g, league, game_season, slot),
    ensures
        schedules_match(games.push(g), league, game_season, slots.push(slot)),
{
    assert forall|k: int| 0 <= k < slots.push(slot).len() implies scheduled_as(
        #[trigger] games.push(g)[k],
        league,
        game_season,
        slots.push(slot)[k],
    ) by {
        if k < slots.len() {
            assert(games.push(g)[k] == games[k]);
            assert(slots.push(slot)[k] == slots[k]);
        }
    }
}

/// The regular season of one league: a round robin of three-game series. In each round
/// the first team stays put and the others rotate one place; a game is played only while
/// its home team has games left, and rounds go on until the first team has played
/// `TOTAL_GAMES`. A league needs at least two teams.
pub fn schedule_league(league: &League, game_season: &GameSeason) -> (res: Result<
    Vec<GameSchedule>,
    ScheduleError,
>)
    requires
        league.wf(),
        game_season.season < u16::MAX,
        FIRST_DAY <= game_season.start_date,
        game_season.start_date + 4 * TOTAL_GAMES + 4 <= LAST_DAY,
    ensures
        league.teams@.len() < 2 ==> res == Err::<Vec<GameSchedule>, ScheduleError>(
            ScheduleError::TooFewTeams(league.id),
        ),
        league.teams@.len() >= 2 ==> (res matches Ok(games) && schedules_match(
            games@,
            *league,
            *game_season,
            season_games(
                league.teams@.len() - 1,
                game_season.start_date,
                round_count_from(league.teams@.len() - 1, 0),
            ),
        )),
{
    let n = league.teams.len();
    if n < 2 {
        return Err(ScheduleError::TooFewTeams(league.id));
    }
    let m = n - 1;
    let pairs = m / 2 + 1;
    let ghost mi = m as int;
    let ghost start = game_season.start_date;
    let mut counts: Vec<u16> = Vec::new();
    let mut j: usize = 0;
    while j < n
        invariant
            j <= n,
            counts@.len() == j,
            forall|k: int| 0 <= k < j ==> counts@[k] == 0,
        decreases n - j,
    {
        counts.push(0);
        j += 1;
    }
    let mut games: Vec<GameSchedule> = Vec::new();
    let mut current_date: i32 = game_season.start_date;
    let mut round: u16 = 0;
    while counts[0] < TOTAL_GAMES
        invariant
            n == league.teams@.len(),
            n >= 2,
            m == n - 1,
            mi == m as int,
            pairs == m / 2 + 1,
            start == game_season.start_date,
            FIRST_DAY <= start,
            start + 4 * TOTAL_GAMES + 4 <= LAST_DAY,
            game_season.season < u16::MAX,
            counts@.len() == n,
            forall|k: int| 0 <= k < n ==> counts@[k] == played(mi, k, round as nat),
            forall|t: nat| t < round ==> played(mi, 0, t) < TOTAL_GAMES,
            round <= TOTAL_GAMES,
            current_date == (if round == 0 {
                start as int
            } else {
                round_date(start, (round - 1) as nat) + 3
            }),
            schedules_match(games@, *league, *game_season, season_games(mi, start, round as nat)),
        decreases TOTAL_GAMES - round,
    {
        proof {
            lemma_played_bounds(mi, 0, round as nat);
            if round > 0 {
                lemma_round_date_bounds(start, (round - 1) as nat);
            }
        }
        let date = next_playable_date(current_date);
        proof {
            lemma_round_date_bounds(start, round as nat);
            assert(date == round_date(start, round as nat));
        }
        let ghost season_before = season_games(mi, start, round as nat);
        let mut day: usize = 0;
        while day < 3
            invariant
                day <= 3,
                n == league.teams@.len(),
                n >= 2,
                m == n - 1,
                mi == m as int,
                pairs == m / 2 + 1,
                start == game_season.start_date,
                game_season.season < u16::MAX,
                round < 47,
                counts@.len() == n,
                forall|k: int| 0 <= k < n ==> counts@[k] == played(mi, k, round as nat),
                date == round_date(start, round as nat),
                start <= date <= start + 4 * round + 1,
                start + 4 * TOTAL_GAMES + 4 <= LAST_DAY,
                season_before == season_games(mi, start, round as nat),
                schedules_match(
                    games@,
                    *league,
                    *game_season,
                    season_before + round_games(mi, start, round as nat, day as int),
                ),
            decreases 3 - day,
        {
            let ghost day_before = season_before + round_games(mi, start, round as nat, day as int);
            let mut p: usize = 0;
            while p < pairs
                invariant
                    p <= pairs,
                    day < 3,
                    n == league.teams@.len(),
                    n >= 2,
                    m == n - 1,
                    mi == m as int,
                    pairs == m / 2 + 1,
                    game_season.season < u16::MAX,
                    round < 47,
                    counts@.len() == n,
                    forall|k: int| 0 <= k < n ==> counts@[k] == played(mi, k, round as nat),
                    date == round_date(start, round as nat),
                    start <= date <= start + 4 * round + 1,
                    start + 4 * TOTAL_GAMES + 4 <= LAST_DAY,
                    day_before == season_before + round_games(mi, start, round as nat, day as int),
                    schedules_match(
                        games@,
                        *league,
                        *game_season,
                        day_before + day_games(mi, start, round as nat, day as int, p as int),
                    ),
                decreases pairs - p,
            {
                let (a, b) = pairing_of(m, round, p);
                let (home, away) = if (round + 1) % 2 == 0 {
                    (a, b)
                } else {
                    (b, a)
                };
                let ghost slots = day_before + day_games(mi, start, round as nat, day as int, p as int);
                if counts[home] < TOTAL_GAMES {
                    let g = GameSchedule {
                        id: 0,
                        season: game_season.season + 1,
                        round_seq: round + 1,
                        seq: (day + 1) as u16,
                        planned_date: date + day as i32,
                        away_team: league.teams[away].duplicate(),
                        home_team: league.teams[home].duplicate(),
                        game_type: GameType::Regular,
                    };
                    let ghost slot: GameSlot = (
                        (round + 1) as u16,
                        (day + 1) as u16,
                        round_date(start, round as nat) + day,
                        home as int,
                        away as int,
                    );
                    proof {
                        lemma_match_push(games@, *league, *game_season, slots, g, slot);
                        assert(slots.push(slot) =~= day_before + day_games(
                            mi,
                            start,
                            round as nat,
                            day as int,
                            p + 1,
                        ));
                    }
                    games.push(g);
                } else {
                    proof {
                        assert(slots =~= day_before + day_games(mi, start, round as nat, day as int, p + 1));
                    }
                }
                p += 1;
            }
            proof {
                assert(day_before + day_games(mi, start, round as nat, day as int, pairs as int)
                    =~= season_before + round_games(mi, start, round as nat, day + 1));
            }
            day += 1;
        }
        proof {
            assert(season_before + round_games(mi, start, round as nat, 3) =~= season_games(
                mi,
                start,
                (round + 1) as nat,
            ));
        }
        let mut p: usize = 0;
        while p < pairs
            invariant
                p <= pairs,
                n == league.teams@.len(),
                n >= 2,
                m == n - 1,
                mi == m as int,
                pairs == m / 2 + 1,
                round < 47,
                counts@.len() == n,
                forall|k: int|
                    0 <= k < n ==> counts@[k] == played(mi, k, round as nat) + 3 * appearances(
                        mi,
                        round as int,
                        k,
                        p as int,
                    ),
            decreases pairs - p,
        {
            let (a, b) = pairing_of(m, round, p);
            proof {
                assert forall|k: int| 0 <= k < n implies played(mi, k, round as nat) + 3 * appearances(
                    mi,
                    round as int,
                    k,
                    p + 1,
                ) <= 6 * round + 6 by {
                    lemma_played_bounds(mi, k, round as nat);
                    lemma_appearances_monotone(mi, round as int, k, p + 1, pairings_per_round(mi));
                    lemma_appearances_at_most_two(mi, round as int, k);
                }
            }
            let ca = counts[a];
            counts.set(a, ca + 3);
            let cb = counts[b];
            counts.set(b, cb + 3);
            p += 1;
        }
        proof {
            assert forall|k: int| 0 <= k < n implies counts@[k] == played(mi, k, (round + 1) as nat) by {}
        }
        current_date = date + 3;
        round += 1;
    }
    proof {
        lemma_round_count(mi, 0, round as nat);
    }
    Ok(games)
}

/// No team is paired with itself: in every round the pairings name two different teams.
pub proof fn lemma_no_team_meets_itself(m: int, r: int, p: int)
    requires
        m >= 1,
        r >= 0,
        0 <= p < pairings_per_round(m),
    ensures
        pairing(m, r, p).0 != pairing(m, r, p).1,
        0 <= pairing(m, r, p).0 <= m,
        0 <= pairing(m, r, p).1 <= m,
{
    lemma_rest_index_range(m, r, m / 2);
    if p > 0 {
        lemma_rest_index_range(m, r, p - 1);
        lemma_rest_index_range(m, r, m - p);
        if rest_index(m, r, p - 1) == rest_index(m, r, m - p) {
            lemma_rest_index_injective(m, r, p - 1, m - p);
        }
    }
}

proof fn lemma_day_games_distinct(m: int, start: i32, r: nat, day: int, p: int)
    requires
        m >= 1,
        0 <= p <= pairings_per_round(m),
    ensures
        forall|k: int|
            0 <= k < day_games(m, start, r, day, p).len() ==> (#[trigger] day_games(m, start, r, day, p)[k]).3
                != day_games(m, start, r, day, p)[k].4,
    decreases p,
{
    if p > 0 {
        lemma_day_games_distinct(m, start, r, day, p - 1);
        lemma_no_team_meets_itself(m, r as int, p - 1);
        let rest = day_games(m, start, r, day, p - 1);
        let (h, a) = home_away(m, r as int, p - 1);
        assert(h != a);
        if played(m, h, r) < TOTAL_GAMES {
            let slot: GameSlot = ((r + 1) as u16, (day + 1) as u16, round_date(start, r) + day, h, a);
            assert forall|k: int| 0 <= k < rest.push(slot).len() implies (#[trigger] rest.push(slot)[k]).3
                != rest.push(slot)[k].4 by {
                if k < rest.len() {
                    assert(rest.push(slot)[k] == rest[k]);
                }
            }
        }
    }
}

proof fn lemma_round_games_distinct(m: int, start: i32, r: nat, days: int)
    requires
        m >= 1,
    ensures
        forall|k: int|
            0 <= k < round_games(m, start, r, days).len() ==> (#[trigger] round_games(m, start, r, days)[k]).3
                != round_games(m, start, r, days)[k].4,
    decreases days,
{
    if days > 0 {
        lemma_round_games_distinct(m, start, r, days - 1);
        lemma_day_games_distinct(m, start, r, days - 1, pairings_per_round(m));
        let a = round_games(m, start, r, days - 1);
        let b = day_games(m, start, r, days - 1, pairings_per_round(m));
        assert forall|k: int| 0 <= k < (a + b).len() implies (#[trigger] (a + b)[k]).3 != (a + b)[k].4 by {
            if k < a.len() {
                assert((a + b)[k] == a[k]);
            } else {
                assert((a + b)[k] == b[k - a.len()]);
            }
        }
    }
}

/// No game of the season sets a team against itself.
pub proof fn lemma_season_has_no_team_against_itself(m: int, start: i32, r: nat)
    requires
        m >= 1,
    ensures
        forall|k: int|
            0 <= k < season_games(m, start, r).len() ==> (#[trigger] season_games(m, start, r)[k]).3
                != season_games(m, start, r)[k].4,
    decreases r,
{
    if r > 0 {
        lemma_season_has_no_team_against_itself(m, start, (r - 1) as nat);
        lemma_round_games_distinct(m, start, (r - 1) as nat, 3);
        let a = season_games(m, start, (r - 1) as nat);
        let b = round_games(m, start, (r - 1) as nat, 3);
        assert forall|k: int| 0 <= k < (a + b).len() implies (#[trigger] (a + b)[k]).3 != (a + b)[k].4 by {
            if k < a.len() {
                assert((a + b)[k] == a[k]);
            } else {
                assert((a + b)[k] == b[k - a.len()]);
            }
        }
    }
}

/// With an odd number of teams in the rotating part, every team of the league takes
/// part in exactly one pairing of a round, and no other index in any.
proof fn lemma_appearances_once(m: int, r: int, k: int)
    requires
        m >= 1,
        m % 2 == 1,
        r >= 0,
    ensures
        appearances(m, r, k, pairings_per_round(m)) <= 1,
        0 <= k <= m ==> appearances(m, r, k, pairings_per_round(m)) == 1,
{
    let q = m / 2;
    if k == 0 {
        lemma_appearances_fixed(m, r, q + 1);
    } else if 1 <= k <= m {
        let pos = lemma_rest_index_place(m, r, k);
        lemma_appearances_rotating(m, r, k, pos, q + 1);
    } else {
        lemma_appearances_none(m, r, k, q + 1);
    }
}

/// Two games that share no team.
pub open spec fn apart(x: GameSlot, y: GameSlot) -> bool {
    x.3 != y.3 && x.3 != y.4 && x.4 != y.3 && x.4 != y.4
}

/// Games of one day: all of round `r` and day `day`, their teams in the pairings counted
/// so far, and no two of them sharing a team.
proof fn lemma_day_games_apart(m: int, start: i32, r: nat, day: int, p: int)
    requires
        m >= 1,
        m % 2 == 1,
        0 <= p <= pairings_per_round(m),
    ensures
        forall|k: int|
            0 <= k < day_games(m, start, r, day, p).len() ==> {
                let g = #[trigger] day_games(m, start, r, day, p)[k];
                &&& g.0 == (r + 1) as u16
                &&& g.1 == (day + 1) as u16
                &&& g.2 == round_date(start, r) + day
                &&& 0 <= g.3 <= m
                &&& 0 <= g.4 <= m
                &&& appearances(m, r as int, g.3, p) >= 1
                &&& appearances(m, r as int, g.4, p) >= 1
            },
        forall|k1: int, k2: int|
            0 <= k1 < k2 < day_games(m, start, r, day, p).len() ==> apart(
                #[trigger] day_games(m, start, r, day, p)[k1],
                #[trigger] day_games(m, start, r, day, p)[k2],
            ),
    decreases p,
{
    if p > 0 {
        lemma_day_games_apart(m, start, r, day, p - 1);
        lemma_no_team_meets_itself(m, r as int, p - 1);
        let rest = day_games(m, start, r, day, p - 1);
        let (h, a) = home_away(m, r as int, p - 1);
        assert forall|t: int| appearances(m, r as int, t, p - 1) <= appearances(m, r as int, t, p) by {
            lemma_appearances_monotone(m, r as int, t, p - 1, p);
        }
        assert(appearances(m, r as int, h, p) >= appearances(m, r as int, h, p - 1) + 1);
        assert(appearances(m, r as int, a, p) >= appearances(m, r as int, a, p - 1) + 1);
        lemma_appearances_once(m, r as int, h);
        lemma_appearances_once(m, r as int, a);
        lemma_appearances_monotone(m, r as int, h, p, pairings_per_round(m));
        lemma_appearances_monotone(m, r as int, a, p, pairings_per_round(m));
        assert(appearances(m, r as int, h, p - 1) == 0);
        assert(appearances(m, r as int, a, p - 1) == 0);
        if played(m, h, r) < TOTAL_GAMES {
            let slot: GameSlot = ((r + 1) as u16, (day + 1) as u16, round_date(start, r) + day, h, a);
            let all = rest.push(slot);
            assert(all == day_games(m, start, r, day, p));
            assert forall|k: int| 0 <= k < rest.len() implies #[trigger] all[k] == rest[k] by {}
            assert forall|k1: int, k2: int| 0 <= k1 < k2 < all.len() implies apart(
                #[trigger] all[k1],
                #[trigger] all[k2],
            ) by {
                if k2 == rest.len() {
                    assert(all[k1] == rest[k1]);
                    assert(appearances(m, r as int, rest[k1].3, p - 1) >= 1);
                    assert(appearances(m, r as int, rest[k1].4, p - 1) >= 1);
                } else {
                    assert(all[k1] == rest[k1]);
                    assert(all[k2] == rest[k2]);
                }
            }
        }
    }
}

/// Games of the first `days` days of round `r`: all of that round, on day `.1 - 1` of
/// it, and no two of the same day sharing a team.
proof fn lemma_round_games_apart(m: int, start: i32, r: nat, days: int)
    requires
        m >= 1,
        m % 2 == 1,
        0 <= days <= 3,
    ensures
        forall|k: int|
            0 <= k < round_games(m, start, r, days).len() ==> {
                let g = #[trigger] round_games(m, start, r, days)[k];
                &&& g.0 == (r + 1) as u16
                &&& 1 <= g.1 <= days
                &&& g.2 == round_date(start, r) + g.1 - 1
                &&& 0 <= g.3 <= m
                &&& 0 <= g.4 <= m
            },
        forall|k1: int, k2: int|
            0 <= k1 < k2 < round_games(m, start, r, days).len() && (#[trigger] round_games(
                m,
                start,
                r,
                days,
            )[k1]).1 == (#[trigger] round_games(m, start, r, days)[k2]).1 ==> apart(
                round_games(m, start, r, days)[k1],
                round_games(m, start, r, days)[k2],
            ),
    decreases days,
{
    if days > 0 {
        lemma_round_games_apart(m, start, r, days - 1);
        lemma_day_games_apart(m, start, r, days - 1, pairings_per_round(m));
        let a = round_games(m, start, r, days - 1);
        let b = day_games(m, start, r, days - 1, pairings_per_round(m));
        let all = a + b;
        assert(all == round_games(m, start, r, days));
        assert forall|k: int| 0 <= k < all.len() implies ({
            let g = #[trigger] all[k];
            &&& g.0 == (r + 1) as u16
            &&& 1 <= g.1 <= days
            &&& g.2 == round_date(start, r) + g.1 - 1
            &&& 0 <= g.3 <= m
            &&& 0 <= g.4 <= m
        }) by {
            if k < a.len() {
                assert(all[k] == a[k]);
            } else {
                assert(all[k] == b[k - a.len()]);
            }
        }
        assert forall|k1: int, k2: int|
            0 <= k1 < k2 < all.len() && (#[trigger] all[k1]).1 == (#[trigger] all[k2]).1 implies apart(
            all[k1],
            all[k2],
        ) by {
            if k2 < a.len() {
                assert(all[k1] == a[k1]);
                assert(all[k2] == a[k2]);
            } else if k1 < a.len() {
                assert(all[k1] == a[k1]);
                assert(all[k2] == b[k2 - a.len()]);
            } else {
                assert(all[k1] == b[k1 - a.len()]);
                assert(all[k2] == b[k2 - a.len()]);
            }
        }
    }
}

/// Games of the first `rounds` rounds: numbered by round and day, dated by them, and no
/// two of the same round and day sharing a team.
proof fn lemma_season_games_apart(m: int, start: i32, rounds: nat)
    requires
        m >= 1,
        m % 2 == 1,
        rounds < u16::MAX,
    ensures
        forall|k: int|
            0 <= k < season_games(m, start, rounds).len() ==> {
                let g = #[trigger] season_games(m, start, rounds)[k];
                &&& 1 <= g.0 <= rounds
                &&& 1 <= g.1 <= 3
                &&& g.2 == round_date(start, (g.0 - 1) as nat) + g.1 - 1
                &&& 0 <= g.3 <= m
                &&& 0 <= g.4 <= m
            },
        forall|k1: int, k2: int|
            0 <= k1 < k2 < season_games(m, start, rounds).len() && (#[trigger] season_games(
                m,
                start,
                rounds,
            )[k1]).0 == (#[trigger] season_games(m, start, rounds)[k2]).0 && season_games(
                m,
                start,
                rounds,
            )[k1].1 == season_games(m, start, rounds)[k2].1 ==> apart(
                season_games(m, start, rounds)[k1],
                season_games(m, start, rounds)[k2],
            ),
    decreases rounds,
{
    if rounds > 0 {
        let r = (rounds - 1) as nat;
        lemma_season_games_apart(m, start, r);
        lemma_round_games_apart(m, start, r, 3);
        let a = season_games(m, start, r);
        let b = round_games(m, start, r, 3);
        let all = a + b;
        assert(all == season_games(m, start, rounds));
        assert forall|k: int| 0 <= k < all.len() implies ({
            let g = #[trigger] all[k];
            &&& 1 <= g.0 <= rounds
            &&& 1 <= g.1 <= 3
            &&& g.2 == round_date(start, (g.0 - 1) as nat) + g.1 - 1
            &&& 0 <= g.3 <= m
            &&& 0 <= g.4 <= m
        }) by {
            if k < a.len() {
                assert(all[k] == a[k]);
            } else {
                assert(all[k] == b[k - a.len()]);
            }
        }
        assert forall|k1: int, k2: int|
            0 <= k1 < k2 < all.len() && (#[trigger] all[k1]).0 == (#[trigger] all[k2]).0 && all[k1].1
                == all[k2].1 implies apart(all[k1], all[k2]) by {
            if k2 < a.len() {
                assert(all[k1] == a[k1]);
                assert(all[k2] == a[k2]);
            } else if k1 < a.len() {
                assert(all[k1] == a[k1]);
                assert(all[k2] == b[k2 - a.len()]);
            } else {
                assert(all[k1] == b[k1 - a.len()]);
                assert(all[k2] == b[k2 - a.len()]);
            }
        }
    }
}

/// Each round opens at least three days after the one before it.
proof fn lemma_round_date_increasing(start: i32, r1: nat, r2: nat)
    requires
        FIRST_DAY <= start,
        start + 4 * r2 + 4 <= LAST_DAY,
        r1 < r2,
    ensures
        round_date(start, r2) >= round_date(start, r1) + 3,
    decreases r2,
{
    let prev = (r2 - 1) as nat;
    lemma_round_date_bounds(start, prev);
    if r1 < prev {
        lemma_round_date_increasing(start, r1, prev);
    }
}

/// A season lasts 47 rounds at most: the first team plays at least three games a round.
proof fn lemma_round_count_bound(m: int, r: nat)
    requires
        m >= 1,
        r <= 47,
    ensures
        round_count_from(m, r) <= 47,
    decreases 47 - r,
{
    lemma_played_bounds(m, 0, r);
    if r < 47 && !(r >= TOTAL_GAMES || played(m, 0, r) >= TOTAL_GAMES) {
        lemma_round_count_bound(m, r + 1);
    }
}

/// With an even number of teams, no team plays twice on one day: any two games of the
/// league's schedule on the same date have four different teams.
pub proof fn lemma_no_team_plays_twice_a_day(
    league: League,
    game_season: GameSeason,
    games: Seq<GameSchedule>,
)
    requires
        league.wf(),
        league.teams@.len() >= 2,
        league.teams@.len() % 2 == 0,
        FIRST_DAY <= game_season.start_date,
        game_season.start_date + 4 * TOTAL_GAMES + 4 <= LAST_DAY,
        schedules_match(
            games,
            league,
            game_season,
            season_games(
                league.teams@.len() - 1,
                game_season.start_date,
                round_count_from(league.teams@.len() - 1, 0),
            ),
        ),
    ensures
        forall|i: int, j: int|
            0 <= i < j < games.len() && (#[trigger] games[i]).planned_date == (
            #[trigger] games[j]).planned_date ==> {
                &&& games[i].home_team.id != games[j].home_team.id
                &&& games[i].home_team.id != games[j].away_team.id
                &&& games[i].away_team.id != games[j].home_team.id
                &&& games[i].away_team.id != games[j].away_team.id
            },
{
    let n = league.teams@.len();
    let m = n - 1;
    let start = game_season.start_date;
    let rounds = round_count_from(m, 0);
    lemma_round_count_bound(m, 0);
    lemma_season_games_apart(m, start, rounds);
    let slots = season_games(m, start, rounds);
    assert forall|i: int, j: int|
        0 <= i < j < games.len() && (#[trigger] games[i]).planned_date == (
        #[trigger] games[j]).planned_date implies {
            &&& games[i].home_team.id != games[j].home_team.id
            &&& games[i].home_team.id != games[j].away_team.id
            &&& games[i].away_team.id != games[j].home_team.id
            &&& games[i].away_team.id != games[j].away_team.id
        } by {
        let x = slots[i];
        let y = slots[j];
        assert(scheduled_as(games[i], league, game_season, x));
        assert(scheduled_as(games[j], league, game_season, y));
        let rx = (x.0 - 1) as nat;
        let ry = (y.0 - 1) as nat;
        if rx < ry {
            lemma_round_date_increasing(start, rx, ry);
        } else if ry < rx {
            lemma_round_date_increasing(start, ry, rx);
        }
        assert(x.0 == y.0);
        assert(x.1 == y.1);
        assert(apart(x, y));
        assert forall|a: int, b: int| 0 <= a < n && 0 <= b < n && a != b implies league.teams@[a].id
            != league.teams@[b].id by {
            if a < b {
                assert(league.teams@[a].id != league.teams@[b].id);
            } else {
                assert(league.teams@[b].id != league.teams@[a].id);
            }
        }
        assert(0 <= x.3 < n && 0 <= x.4 < n && 0 <= y.3 < n && 0 <= y.4 < n);
    }
}

/// Whether game `g` involves team index `k`.
pub open spec fn slot_has(g: GameSlot, k: int) -> bool {
    g.3 == k || g.4 == k
}

/// How many of the games `s` involve team index `k`.
pub open spec fn team_slots(s: Seq<GameSlot>, k: int) -> nat
    decreases s.len(),
{
    if s.len() == 0 {
        0
    } else {
        team_slots(s.drop_last(), k) + if slot_has(s.last(), k) {
            1nat
        } else {
            0nat
        }
    }
}

proof fn lemma_team_slots_concat(a: Seq<GameSlot>, b: Seq<GameSlot>, k: int)
    ensures
        team_slots(a + b, k) == team_slots(a, k) + team_slots(b, k),
    decreases b.len(),
{
    if b.len() == 0 {
        assert(a + b =~= a);
    } else {
        lemma_team_slots_concat(a, b.drop_last(), k);
        assert((a + b).drop_last() =~= a + b.drop_last());
        assert((a + b).last() == b.last());
    }
}

/// With an even number of teams every team has three games credited per round.
proof fn lemma_played_even(m: int, k: int, r: nat)
    requires
        m >= 1,
        m % 2 == 1,
        0 <= k <= m,
    ensures
        played(m, k, r) == 3 * r,
    decreases r,
{
    if r > 0 {
        lemma_played_even(m, k, (r - 1) as nat);
        lemma_appearances_once(m, r - 1, k);
    }
}

/// With an even number of teams a season has 47 rounds: the first team reaches its
/// games in the round that takes it past them.
proof fn lemma_even_round_count(m: int, r: nat)
    requires
        m >= 1,
        m % 2 == 1,
        r <= 47,
    ensures
        round_count_from(m, r) == 47,
    decreases 47 - r,
{
    lemma_played_even(m, 0, r);
    if r < 47 {
        lemma_even_round_count(m, r + 1);
    }
}

/// In the first `p` pairings of a round before the last, team `k` has as many games on
/// a day as it has pairings: every home team still has games left.
proof fn lemma_day_team_slots(m: int, start: i32, r: nat, day: int, p: int, k: int)
    requires
        m >= 1,
        m % 2 == 1,
        r < 47,
        0 <= p <= pairings_per_round(m),
        0 <= k <= m,
    ensures
        team_slots(day_games(m, start, r, day, p), k) == appearances(m, r as int, k, p),
    decreases p,
{
    if p > 0 {
        lemma_day_team_slots(m, start, r, day, p - 1, k);
        lemma_no_team_meets_itself(m, r as int, p - 1);
        let rest = day_games(m, start, r, day, p - 1);
        let (h, a) = home_away(m, r as int, p - 1);
        lemma_played_even(m, h, r);
        let slot: GameSlot = ((r + 1) as u16, (day + 1) as u16, round_date(start, r) + day, h, a);
        assert(day_games(m, start, r, day, p) == rest.push(slot));
        assert(rest.push(slot).drop_last() == rest);
    }
}

proof fn lemma_round_team_slots(m: int, start: i32, r: nat, days: int, k: int)
    requires
        m >= 1,
        m % 2 == 1,
        r < 47,
        0 <= days <= 3,
        0 <= k <= m,
    ensures
        team_slots(round_games(m, start, r, days), k) == days,
    decreases days,
{
    if days > 0 {
        lemma_round_team_slots(m, start, r, days - 1, k);
        lemma_day_team_slots(m, start, r, days - 1, pairings_per_round(m), k);
        lemma_appearances_once(m, r as int, k);
        lemma_team_slots_concat(
            round_games(m, start, r, days - 1),
            day_games(m, start, r, days - 1, pairings_per_round(m)),
            k,
        );
    }
}

proof fn lemma_season_team_slots(m: int, start: i32, rounds: nat, k: int)
    requires
        m >= 1,
        m % 2 == 1,
        rounds <= 47,
        0 <= k <= m,
    ensures
        team_slots(season_games(m, start, rounds), k) == 3 * rounds,
    decreases rounds,
{
    if rounds > 0 {
        let r = (rounds - 1) as nat;
        lemma_season_team_slots(m, start, r, k);
        lemma_round_team_slots(m, start, r, 3, k);
        lemma_team_slots_concat(season_games(m, start, r), round_games(m, start, r, 3), k);
    }
}

/// How many of the games `games` team `id` plays, at home or away.
pub open spec fn games_of(games: Seq<GameSchedule>, id: u16) -> nat
    decreases games.len(),
{
    if games.len() == 0 {
        0
    } else {
        games_of(games.drop_last(), id) + if games.last().home_team.id == id
            || games.last().away_team.id == id {
            1nat
        } else {
            0nat
        }
    }
}

proof fn lemma_games_of_slots(
    games: Seq<GameSchedule>,
    league: League,
    game_season: GameSeason,
    slots: Seq<GameSlot>,
    t: int,
)
    requires
        league.wf(),
        0 <= t < league.teams@.len(),
        schedules_match(games, league, game_season, slots),
        forall|k: int|
            0 <= k < slots.len() ==> 0 <= (#[trigger] slots[k]).3 < league.teams@.len() && 0
                <= slots[k].4 < league.teams@.len(),
    ensures
        games_of(games, league.teams@[t].id) == team_slots(slots, t),
    decreases games.len(),
{
    if games.len() > 0 {
        let n = games.len() - 1;
        let g0 = games.drop_last();
        let s0 = slots.drop_last();
        assert forall|k: int| 0 <= k < s0.len() implies scheduled_as(
            #[trigger] g0[k],
            league,
            game_season,
            s0[k],
        ) by {
            assert(g0[k] == games[k]);
            assert(s0[k] == slots[k]);
        }
        assert forall|k: int| 0 <= k < s0.len() implies 0 <= (#[trigger] s0[k]).3
            < league.teams@.len() && 0 <= s0[k].4 < league.teams@.len() by {
            assert(s0[k] == slots[k]);
        }
        lemma_games_of_slots(g0, league, game_season, s0, t);
        let x = slots[n];
        assert(scheduled_as(games[n], league, game_season, x));
        let id = league.teams@[t].id;
        if x.3 != t {
            if x.3 < t {
                assert(league.teams@[x.3].id != league.teams@[t].id);
            } else {
                assert(league.teams@[t].id != league.teams@[x.3].id);
            }
        }
        if x.4 != t {
            if x.4 < t {
                assert(league.teams@[x.4].id != league.teams@[t].id);
            } else {
                assert(league.teams@[t].id != league.teams@[x.4].id);
            }
        }
    }
}

/// With an even number of teams every team plays a full season of 141 games: 47 rounds
/// of a three-game series each, the round that takes the first team past its 140 games
/// being the last.
pub proof fn lemma_every_team_plays_a_full_season(
    league: League,
    game_season: GameSeason,
    games: Seq<GameSchedule>,
)
    requires
        league.wf(),
        league.teams@.len() >= 2,
        league.teams@.len() % 2 == 0,
        schedules_match(
            games,
            league,
            game_season,
            season_games(
                league.teams@.len() - 1,
                game_season.start_date,
                round_count_from(league.teams@.len() - 1, 0),
            ),
        ),
    ensures
        forall|t: int| 0 <= t < league.teams@.len() ==> #[trigger] games_of(games, league.teams@[t].id) == 141,
{
    let n = league.teams@.len();
    let m = n - 1;
    let start = game_season.start_date;
    lemma_even_round_count(m, 0);
    let slots = season_games(m, start, 47);
    lemma_season_games_apart(m, start, 47);
    assert forall|t: int| 0 <= t < n implies #[trigger] games_of(games, league.teams@[t].id) == 141 by {
        lemma_season_team_slots(m, start, 47, t);
        lemma_games_of_slots(games, league, game_season, slots, t);
    }
}

} // verus!
