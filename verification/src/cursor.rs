use vstd::prelude::*;
use crate::game::{spec_game_type_key, BattingResult, Count, GameDetail, Inning, TB};
use crate::game_stats::{PlayerGameBattingView, PlayerGameEntryView, PlayerGameRunningView};
use crate::player::{spec_position_key, Player, PlayerInfo, Position};
use crate::team::Team;

verus! {

/// Why a view of a stored game cannot be shown.
#[derive(Debug)]
pub enum GameViewError {
    NoPlayerFor(String),
    NoRunnerFor(String),
    CurrentBatter,
    CurrentBattingResult,
}

/// A position in the replay of a stored game: a half inning and a count in it.
#[derive(Debug)]
pub struct GameCursor {
    pub game: GameDetail,
    pub inning_seq: u8,
    pub inning_tb: TB,
    pub count_seq: u16,
    pub is_last_bottom_inning_skiped: bool,
}

/// A batter's line in the box score so far.
#[derive(Clone, Debug)]
pub struct BatterGameStatView {
    pub team_id: u16,
    pub batting_order: u8,
    pub position: Position,
    pub player: PlayerInfo,
    pub plate_appearances: u16,
    pub at_bats: u16,
    pub hits: u16,
    pub doubles: u16,
    pub triples: u16,
    pub home_runs: u16,
}

/// The line score so far.
#[derive(Debug)]
pub struct ScoreBoard {
    pub away_team_name: String,
    pub home_team_name: String,
    pub max_inning_num: u8,
    pub away_total_point: u8,
    pub home_total_point: u8,
    pub away_innning_points: Vec<u8>,
    pub home_innning_points: Vec<u8>,
    pub is_last_bottom_inning_skiped: bool,
}

/// Index of the first half inning numbered `seq` on side `tb`.
pub open spec fn inning_index(innings: Seq<Inning>, seq: u8, tb: TB) -> Option<int>
    decreases innings.len(),
{
    if innings.len() == 0 {
        None
    } else {
        match inning_index(innings.drop_last(), seq, tb) {
            Some(i) => Some(i),
            None => if innings.last().seq == seq && innings.last().tb == tb {
                Some(innings.len() - 1)
            } else {
                None
            },
        }
    }
}

/// The highest count number among `counts`, 0 when there are none.
pub open spec fn max_count_seq_of(counts: Seq<Count>) -> u16
    decreases counts.len(),
{
    if counts.len() == 0 {
        0
    } else {
        let m = max_count_seq_of(counts.drop_last());
        if counts.last().seq > m {
            counts.last().seq
        } else {
            m
        }
    }
}

/// The lowest count number among `counts`, 0 when there are none.
pub open spec fn min_count_seq_of(counts: Seq<Count>) -> u16
    decreases counts.len(),
{
    if counts.len() == 0 {
        0
    } else if counts.len() == 1 {
        counts[0].seq
    } else {
        let m = min_count_seq_of(counts.drop_last());
        if counts.last().seq < m {
            counts.last().seq
        } else {
            m
        }
    }
}

/// The highest inning number of the game, 0 when it has none.
pub open spec fn max_inning_seq_of(innings: Seq<Inning>) -> u8
    decreases innings.len(),
{
    if innings.len() == 0 {
        0
    } else {
        let m = max_inning_seq_of(innings.drop_last());
        if innings.last().seq > m {
            innings.last().seq
        } else {
            m
        }
    }
}

fn max_count_seq_in(counts: &Vec<Count>) -> (m: u16)
    ensures
        m == max_count_seq_of(counts@),
{
    let mut m: u16 = 0;
    let mut j: usize = 0;
    while j < counts.len()
        invariant
            j <= counts@.len(),
            m == max_count_seq_of(counts@.take(j as int)),
        decreases counts@.len() - j,
    {
        proof {
            assert(counts@.take(j + 1).drop_last() =~= counts@.take(j as int));
        }
        if counts[j].seq > m {
            m = counts[j].seq;
        }
        j += 1;
    }
    proof {
        assert(counts@.take(counts@.len() as int) =~= counts@);
    }
    m
}

fn min_count_seq_in(counts: &Vec<Count>) -> (m: u16)
    ensures
        m == min_count_seq_of(counts@),
{
    if counts.len() == 0 {
        return 0;
    }
    let mut m: u16 = counts[0].seq;
    let mut j: usize = 1;
    proof {
        assert(counts@.take(1).len() == 1);
    }
    while j < counts.len()
        invariant
            1 <= j <= counts@.len(),
            m == min_count_seq_of(counts@.take(j as int)),
        decreases counts@.len() - j,
    {
        proof {
            assert(counts@.take(j + 1).drop_last() =~= counts@.take(j as int));
        }
        if counts[j].seq < m {
            m = counts[j].seq;
        }
        j += 1;
    }
    proof {
        assert(counts@.take(counts@.len() as int) =~= counts@);
    }
    m
}

impl GameCursor {
    /// The game being replayed.
    pub open spec fn detail(&self) -> GameDetail {
        self.game
    }

    /// Index of the half inning the cursor is in.
    pub open spec fn current_index(&self) -> Option<int> {
        inning_index(self.detail().innings@, self.inning_seq, self.inning_tb)
    }

    /// The cursor stands in a half inning of the game.
    pub open spec fn has_current_inning(&self) -> bool {
        self.current_index() is Some
    }

    pub open spec fn spec_current_inning(&self) -> Inning {
        self.detail().innings@[self.current_index().unwrap()]
    }

    pub open spec fn spec_max_count_seq(&self) -> u16 {
        max_count_seq_of(self.spec_current_inning().counts@)
    }

    pub open spec fn spec_min_count_seq(&self) -> u16 {
        min_count_seq_of(self.spec_current_inning().counts@)
    }

    /// The cursor at the first count of the top of the first.
    pub fn new(game: GameDetail) -> (c: Self)
        ensures
            c.detail() == game,
            c.inning_seq == 1,
            c.inning_tb == TB::Top,
            c.count_seq == 1,
            !c.is_last_bottom_inning_skiped,
    {
        GameCursor {
            game,
            inning_seq: 1,
            inning_tb: TB::Top,
            count_seq: 1,
            is_last_bottom_inning_skiped: false,
        }
    }

    /// Key of the game type's name in the message catalogue.
    pub fn game_type(&self) -> (s: String)
        ensures
            s@ == spec_game_type_key(self.detail().game_type),
    {
        String::from_str(self.game.game_type.message_key())
    }

    pub fn away_team_id(&self) -> (id: u16)
        ensures
            id == self.detail().away_team.id,
    {
        self.game.away_team.id
    }

    pub fn home_team_id(&self) -> (id: u16)
        ensures
            id == self.detail().home_team.id,
    {
        self.game.home_team.id
    }

    pub fn away_team_name(&self) -> (name: String)
        ensures
            name == self.detail().away_team.name,
    {
        self.game.away_team.name.clone()
    }

    pub fn home_team_name(&self) -> (name: String)
        ensures
            name == self.detail().home_team.name,
    {
        self.game.home_team.name.clone()
    }

    fn find_current_inning(&self) -> (i: Option<usize>)
        ensures
            match self.current_index() {
                Some(k) => i == Some(k as usize) && 0 <= k < self.detail().innings@.len(),
                None => i is None,
            },
    {
        let mut j: usize = 0;
        while j < self.game.innings.len()
            invariant
                j <= self.game.innings@.len(),
                inning_index(self.game.innings@.take(j as int), self.inning_seq, self.inning_tb)
                    is None,
            decreases self.game.innings@.len() - j,
        {
            proof {
                assert(self.game.innings@.take(j + 1).drop_last() =~= self.game.innings@.take(
                    j as int,
                ));
            }
            if self.game.innings[j].seq == self.inning_seq && self.game.innings[j].tb
                == self.inning_tb {
                proof {
                    lemma_inning_index_prefix(self.game.innings@, j + 1, self.inning_seq, self.inning_tb);
                }
                return Some(j);
            }
            j += 1;
        }
        proof {
            assert(self.game.innings@.take(self.game.innings@.len() as int) =~= self.game.innings@);
        }
        None
    }

    fn current_inning_ref(&self) -> (inning: &Inning)
        requires
            self.has_current_inning(),
        ensures
            *inning == self.spec_current_inning(),
    {
        let i = self.find_current_inning().unwrap();
        assert(self.game.innings@.len() == self.game.innings.len());
        assert(i as int == self.current_index().unwrap());
        &self.game.innings[i]
    }

    /// The half inning the cursor is in.
    pub fn current_inning(&self) -> (inning: Inning)
        requires
            self.has_current_inning(),
        ensures
            inning.seq == self.spec_current_inning().seq,
            inning.tb == self.spec_current_inning().tb,
            inning.counts@ == self.spec_current_inning().counts@,
    {
        self.current_inning_ref().duplicate()
    }

    /// The last count number of the current half inning.
    pub fn max_count_seq(&self) -> (m: u16)
        requires
            self.has_current_inning(),
        ensures
            m == self.spec_max_count_seq(),
    {
        max_count_seq_in(&self.current_inning_ref().counts)
    }

    /// The first count number of the current half inning.
    pub fn min_count_seq(&self) -> (m: u16)
        requires
            self.has_current_inning(),
        ensures
            m == self.spec_min_count_seq(),
    {
        min_count_seq_in(&self.current_inning_ref().counts)
    }

    /// The last inning number of the game.
    pub fn max_inning_seq(&self) -> (m: u8)
        ensures
            m == max_inning_seq_of(self.detail().innings@),
    {
        let mut m: u8 = 0;
        let mut j: usize = 0;
        while j < self.game.innings.len()
            invariant
                j <= self.game.innings@.len(),
                m == max_inning_seq_of(self.game.innings@.take(j as int)),
            decreases self.game.innings@.len() - j,
        {
            proof {
                assert(self.game.innings@.take(j + 1).drop_last() =~= self.game.innings@.take(
                    j as int,
                ));
            }
            if self.game.innings[j].seq > m {
                m = self.game.innings[j].seq;
            }
            j += 1;
        }
        proof {
            assert(self.game.innings@.take(self.game.innings@.len() as int) =~= self.game.innings@);
        }
        m
    }

    /// Whether the cursor is at the last count of its half inning.
    pub fn is_last_count(&self) -> (b: bool)
        requires
            self.has_current_inning(),
        ensures
            b == (self.count_seq == self.spec_max_count_seq()),
    {
        self.count_seq == self.max_count_seq()
    }

    /// Whether the cursor is in the game's last inning.
    pub fn is_last_inning(&self) -> (b: bool)
        ensures
            b == (self.inning_seq == max_inning_seq_of(self.detail().innings@)),
    {
        self.inning_seq == self.max_inning_seq()
    }

    fn is_first_count(&self) -> (b: bool)
        requires
            self.has_current_inning(),
        ensures
            b == (self.count_seq == self.spec_min_count_seq()),
    {
        self.count_seq == self.min_count_seq()
    }
}

/// Once a prefix holds the half inning, its first index is the one the whole game gives.
proof fn lemma_inning_index_prefix(innings: Seq<Inning>, n: int, seq: u8, tb: TB)
    requires
        0 < n <= innings.len(),
        inning_index(innings.take(n), seq, tb) is Some || (inning_index(innings.take(n - 1), seq, tb)
            is None && innings[n - 1].seq == seq && innings[n - 1].tb == tb),
    ensures
        inning_index(innings, seq, tb) == inning_index(innings.take(n), seq, tb),
        inning_index(innings, seq, tb) is Some,
    decreases innings.len(),
{
    assert(innings.take(n).drop_last() =~= innings.take(n - 1));
    if n < innings.len() {
        assert(innings.drop_last().take(n) =~= innings.take(n));
        assert(innings.drop_last().take(n - 1) =~= innings.take(n - 1));
        lemma_inning_index_prefix(innings.drop_last(), n, seq, tb);
    } else {
        assert(innings.take(n) =~= innings);
    }
}

/// Where a half inning falls in the game: by inning, the top before the bottom.
pub open spec fn inning_key(inning: Inning) -> int {
    inning.seq * 2 + if inning.tb == TB::Top {
        0int
    } else {
        1int
    }
}

/// The half inning with counts that comes next after `key`: the smallest key above it.
pub open spec fn next_with_counts(innings: Seq<Inning>, key: int) -> Option<int>
    decreases innings.len(),
{
    if innings.len() == 0 {
        None
    } else {
        let rest = next_with_counts(innings.drop_last(), key);
        let last = innings.last();
        if last.counts.len() > 0 && inning_key(last) > key {
            match rest {
                Some(r) => if inning_key(innings[r]) <= inning_key(last) {
                    Some(r)
                } else {
                    Some(innings.len() - 1)
                },
                None => Some(innings.len() - 1),
            }
        } else {
            rest
        }
    }
}

/// The half inning with counts that comes just before `key`: the largest key below it.
pub open spec fn prev_with_counts(innings: Seq<Inning>, key: int) -> Option<int>
    decreases innings.len(),
{
    if innings.len() == 0 {
        None
    } else {
        let rest = prev_with_counts(innings.drop_last(), key);
        let last = innings.last();
        if last.counts.len() > 0 && inning_key(last) < key {
            match rest {
                Some(r) => if inning_key(innings[r]) >= inning_key(last) {
                    Some(r)
                } else {
                    Some(innings.len() - 1)
                },
                None => Some(innings.len() - 1),
            }
        } else {
            rest
        }
    }
}

proof fn lemma_with_counts_bounds(innings: Seq<Inning>, key: int)
    ensures
        next_with_counts(innings, key) matches Some(j) ==> 0 <= j < innings.len()
            && innings[j].counts.len() > 0,
        prev_with_counts(innings, key) matches Some(j) ==> 0 <= j < innings.len()
            && innings[j].counts.len() > 0,
    decreases innings.len(),
{
    if innings.len() > 0 {
        lemma_with_counts_bounds(innings.drop_last(), key);
    }
}

/// A half inning that the game holds is found by its number and side.
proof fn lemma_inning_found(innings: Seq<Inning>, j: int)
    requires
        0 <= j < innings.len(),
    ensures
        inning_index(innings, innings[j].seq, innings[j].tb) is Some,
    decreases innings.len(),
{
    if j < innings.len() - 1 {
        assert(innings.drop_last()[j] == innings[j]);
        lemma_inning_found(innings.drop_last(), j);
    }
}

proof fn lemma_inning_index_bounds(innings: Seq<Inning>, seq: u8, tb: TB)
    ensures
        inning_index(innings, seq, tb) matches Some(i) ==> 0 <= i < innings.len() && innings[i].seq
            == seq && innings[i].tb == tb,
    decreases innings.len(),
{
    if innings.len() > 0 {
        lemma_inning_index_bounds(innings.drop_last(), seq, tb);
    }
}

fn key_of(inning: &Inning) -> (k: u16)
    ensures
        k == inning_key(*inning),
{
    let tb: u16 = match inning.tb {
        TB::Top => 0,
        TB::Bottom => 1,
    };
    inning.seq as u16 * 2 + tb
}

impl GameDetail {
    /// Each half inning is stored once.
    pub open spec fn wf(&self) -> bool {
        forall|i: int, j: int|
            0 <= i < j < self.innings@.len() ==> inning_key(#[trigger] self.innings@[i])
                != inning_key(#[trigger] self.innings@[j])
    }
}

impl GameCursor {
    /// The first count of the next half inning that has counts, if the current one has any.
    pub open spec fn spec_next_inning_cursor(&self) -> Option<(u8, TB, u16)> {
        let innings = self.detail().innings@;
        match self.current_index() {
            None => None,
            Some(c) => if innings[c].counts.len() == 0 {
                None
            } else {
                match next_with_counts(innings, inning_key(innings[c])) {
                    None => None,
                    Some(j) => Some((innings[j].seq, innings[j].tb, min_count_seq_of(innings[j].counts@))),
                }
            },
        }
    }

    /// The last count of the previous half inning that has counts, if the current one has any.
    pub open spec fn spec_prev_inning_cursor(&self) -> Option<(u8, TB, u16)> {
        let innings = self.detail().innings@;
        match self.current_index() {
            None => None,
            Some(c) => if innings[c].counts.len() == 0 {
                None
            } else {
                match prev_with_counts(innings, inning_key(innings[c])) {
                    None => None,
                    Some(j) => Some((innings[j].seq, innings[j].tb, max_count_seq_of(innings[j].counts@))),
                }
            },
        }
    }

    /// Whether the home side led after the top of the last inning, so its bottom half
    /// was not played.
    pub open spec fn spec_bottom_skipped(&self) -> bool {
        self.detail().away_points < self.detail().home_points
    }

    /// Where `next` moves the cursor: inning, side, count, and whether the unplayed
    /// bottom of the last inning has been passed.
    pub open spec fn spec_next(&self) -> (u8, TB, u16, bool) {
        let last_inning = self.inning_seq == max_inning_seq_of(self.detail().innings@);
        if self.count_seq != self.spec_max_count_seq() {
            let c = (self.count_seq + 1) as u16;
            (
                self.inning_seq,
                self.inning_tb,
                c,
                if self.inning_tb == TB::Top && last_inning && c == self.spec_max_count_seq()
                    && self.spec_bottom_skipped() {
                    true
                } else {
                    self.is_last_bottom_inning_skiped
                },
            )
        } else {
            match self.spec_next_inning_cursor() {
                Some((s, t, c)) => (s, t, c, self.is_last_bottom_inning_skiped),
                None => (
                    self.inning_seq,
                    self.inning_tb,
                    self.count_seq,
                    if self.inning_tb == TB::Top && last_inning && self.spec_bottom_skipped() {
                        true
                    } else {
                        self.is_last_bottom_inning_skiped
                    },
                ),
            }
        }
    }

    /// Where `prev` moves the cursor.
    pub open spec fn spec_prev(&self) -> (u8, TB, u16, bool) {
        if self.count_seq != self.spec_min_count_seq() {
            (self.inning_seq, self.inning_tb, (self.count_seq - 1) as u16, false)
        } else {
            match self.spec_prev_inning_cursor() {
                Some((s, t, c)) => (s, t, c, false),
                None => (self.inning_seq, self.inning_tb, self.count_seq, false),
            }
        }
    }

    fn next_inning_cursor(&self) -> (r: Option<(u8, TB, u16)>)
        ensures
            r == self.spec_next_inning_cursor(),
    {
        let c = match self.find_current_inning() {
            Some(c) => c,
            None => {
                return None;
            },
        };
        assert(self.game.innings@.len() == self.game.innings.len());
        if self.game.innings[c].counts.len() == 0 {
            return None;
        }
        let key = key_of(&self.game.innings[c]);
        let ghost innings = self.game.innings@;
        let mut best: Option<usize> = None;
        let mut j: usize = 0;
        while j < self.game.innings.len()
            invariant
                j <= innings.len(),
                innings == self.game.innings@,
                match best {
                    Some(b) => next_with_counts(innings.take(j as int), key as int) == Some(b as int)
                        && b < j,
                    None => next_with_counts(innings.take(j as int), key as int) is None,
                },
            decreases innings.len() - j,
        {
            proof {
                assert(innings.take(j + 1).drop_last() =~= innings.take(j as int));
                lemma_with_counts_bounds(innings.take(j as int), key as int);
            }
            let inning = &self.game.innings[j];
            if inning.counts.len() > 0 && key_of(inning) > key {
                match best {
                    Some(b) => {
                        if key_of(&self.game.innings[b]) > key_of(inning) {
                            best = Some(j);
                        }
                    },
                    None => {
                        best = Some(j);
                    },
                }
            }
            j += 1;
        }
        proof {
            assert(innings.take(innings.len() as int) =~= innings);
        }
        match best {
            Some(b) => {
                let inning = &self.game.innings[b];
                Some((inning.seq, inning.tb, min_count_seq_in(&inning.counts)))
            },
            None => None,
        }
    }

    fn prev_inning_cursor(&self) -> (r: Option<(u8, TB, u16)>)
        ensures
            r == self.spec_prev_inning_cursor(),
    {
        let c = match self.find_current_inning() {
            Some(c) => c,
            None => {
                return None;
            },
        };
        assert(self.game.innings@.len() == self.game.innings.len());
        if self.game.innings[c].counts.len() == 0 {
            return None;
        }
        let key = key_of(&self.game.innings[c]);
        let ghost innings = self.game.innings@;
        let mut best: Option<usize> = None;
        let mut j: usize = 0;
        while j < self.game.innings.len()
            invariant
                j <= innings.len(),
                innings == self.game.innings@,
                match best {
                    Some(b) => prev_with_counts(innings.take(j as int), key as int) == Some(b as int)
                        && b < j,
                    None => prev_with_counts(innings.take(j as int), key as int) is None,
                },
            decreases innings.len() - j,
        {
            proof {
                assert(innings.take(j + 1).drop_last() =~= innings.take(j as int));
                lemma_with_counts_bounds(innings.take(j as int), key as int);
            }
            let inning = &self.game.innings[j];
            if inning.counts.len() > 0 && key_of(inning) < key {
                match best {
                    Some(b) => {
                        if key_of(&self.game.innings[b]) < key_of(inning) {
                            best = Some(j);
                        }
                    },
                    None => {
                        best = Some(j);
                    },
                }
            }
            j += 1;
        }
        proof {
            assert(innings.take(innings.len() as int) =~= innings);
        }
        match best {
            Some(b) => {
                let inning = &self.game.innings[b];
                Some((inning.seq, inning.tb, max_count_seq_in(&inning.counts)))
            },
            None => None,
        }
    }

    /// Steps forward one count; from the last count of a half inning, to the first count
    /// of the next half inning that has counts. At the end of the game the cursor stays,
    /// and notes when the bottom of the last inning was not played.
    pub fn next(&mut self)
        requires
            old(self).has_current_inning(),
            old(self).detail().wf(),
            old(self).count_seq != old(self).spec_max_count_seq() ==> old(self).count_seq < u16::MAX,
        ensures
            (final(self).inning_seq, final(self).inning_tb, final(self).count_seq,
                final(self).is_last_bottom_inning_skiped) == old(self).spec_next(),
            final(self).detail() == old(self).detail(),
            final(self).has_current_inning(),
    {
        if !self.is_last_count() {
            self.count_seq += 1;
            if self.inning_tb == TB::Top && self.is_last_inning() && self.is_last_count()
                && self.game.away_points < self.game.home_points {
                self.is_last_bottom_inning_skiped = true;
            }
        } else {
            match self.next_inning_cursor() {
                Some((inning_seq, inning_tb, count_seq)) => {
                    proof {
                        let innings = self.game.innings@;
                        let c = self.current_index().unwrap();
                        lemma_with_counts_bounds(innings, inning_key(innings[c]));
                        lemma_inning_found(innings, next_with_counts(innings, inning_key(innings[c])).unwrap());
                    }
                    self.inning_seq = inning_seq;
                    self.inning_tb = inning_tb;
                    self.count_seq = count_seq;
                },
                None => {
                    if self.inning_tb == TB::Top && self.is_last_inning() && self.game.away_points
                        < self.game.home_points {
                        self.is_last_bottom_inning_skiped = true;
                    }
                },
            }
        }
    }

    /// Steps back one count; from the first count of a half inning, to the last count of
    /// the previous half inning that has counts.
    pub fn prev(&mut self)
        requires
            old(self).has_current_inning(),
            old(self).detail().wf(),
            old(self).count_seq != old(self).spec_min_count_seq() ==> old(self).count_seq > 0,
        ensures
            (final(self).inning_seq, final(self).inning_tb, final(self).count_seq,
                final(self).is_last_bottom_inning_skiped) == old(self).spec_prev(),
            final(self).detail() == old(self).detail(),
            final(self).has_current_inning(),
    {
        if !self.is_first_count() {
            self.count_seq -= 1;
        } else {
            match self.prev_inning_cursor() {
                Some((inning_seq, inning_tb, count_seq)) => {
                    proof {
                        let innings = self.game.innings@;
                        let c = self.current_index().unwrap();
                        lemma_with_counts_bounds(innings, inning_key(innings[c]));
                        lemma_inning_found(innings, prev_with_counts(innings, inning_key(innings[c])).unwrap());
                    }
                    self.inning_seq = inning_seq;
                    self.inning_tb = inning_tb;
                    self.count_seq = count_seq;
                },
                None => {},
            }
        }
        self.is_last_bottom_inning_skiped = false;
    }
}

/// Index of the first count numbered `seq`.
pub open spec fn count_index(counts: Seq<Count>, seq: u16) -> Option<int>
    decreases counts.len(),
{
    if counts.len() == 0 {
        None
    } else {
        match count_index(counts.drop_last(), seq) {
            Some(i) => Some(i),
            None => if counts.last().seq == seq {
                Some(counts.len() - 1)
            } else {
                None
            },
        }
    }
}

proof fn lemma_count_index_bounds(counts: Seq<Count>, seq: u16)
    ensures
        count_index(counts, seq) matches Some(i) ==> 0 <= i < counts.len() && counts[i].seq == seq,
    decreases counts.len(),
{
    if counts.len() > 0 {
        lemma_count_index_bounds(counts.drop_last(), seq);
    }
}

fn find_count(counts: &Vec<Count>, seq: u16) -> (i: Option<usize>)
    ensures
        match count_index(counts@, seq) {
            Some(k) => i == Some(k as usize) && 0 <= k < counts@.len(),
            None => i is None,
        },
{
    let mut j: usize = 0;
    while j < counts.len()
        invariant
            j <= counts@.len(),
            count_index(counts@.take(j as int), seq) is None,
        decreases counts@.len() - j,
    {
        proof {
            assert(counts@.take(j + 1).drop_last() =~= counts@.take(j as int));
        }
        if counts[j].seq == seq {
            proof {
                lemma_count_index_prefix(counts@, j + 1, seq);
            }
            return Some(j);
        }
        j += 1;
    }
    proof {
        assert(counts@.take(counts@.len() as int) =~= counts@);
    }
    None
}

proof fn lemma_count_index_prefix(counts: Seq<Count>, n: int, seq: u16)
    requires
        0 < n <= counts.len(),
        count_index(counts.take(n - 1), seq) is None,
        counts[n - 1].seq == seq,
    ensures
        count_index(counts, seq) == Some(n - 1),
    decreases counts.len(),
{
    assert(counts.take(n).drop_last() =~= counts.take(n - 1));
    if n < counts.len() {
        assert(counts.drop_last().take(n - 1) =~= counts.take(n - 1));
        lemma_count_index_prefix(counts.drop_last(), n, seq);
    } else {
        assert(counts.take(n - 1) =~= counts.drop_last());
    }
}

/// The running record of the count that comes last in its play order, when several share it.
pub open spec fn last_running_at(runnings: Seq<PlayerGameRunningView>, count_seq: u16) -> Option<int>
    decreases runnings.len(),
{
    if runnings.len() == 0 {
        None
    } else {
        let rest = last_running_at(runnings.drop_last(), count_seq);
        if runnings.last().count_seq == count_seq {
            match rest {
                Some(r) => if runnings[r].seq > runnings.last().seq {
                    Some(r)
                } else {
                    Some(runnings.len() - 1)
                },
                None => Some(runnings.len() - 1),
            }
        } else {
            rest
        }
    }
}

proof fn lemma_last_running_bounds(runnings: Seq<PlayerGameRunningView>, count_seq: u16)
    ensures
        last_running_at(runnings, count_seq) matches Some(i) ==> 0 <= i < runnings.len(),
    decreases runnings.len(),
{
    if runnings.len() > 0 {
        lemma_last_running_bounds(runnings.drop_last(), count_seq);
    }
}

/// The first roster index of player `id`.
pub open spec fn player_index(players: Seq<Player>, id: i64) -> Option<int>
    decreases players.len(),
{
    if players.len() == 0 {
        None
    } else {
        match player_index(players.drop_last(), id) {
            Some(i) => Some(i),
            None => if players.last().info.id == id {
                Some(players.len() - 1)
            } else {
                None
            },
        }
    }
}

proof fn lemma_player_index_bounds(players: Seq<Player>, id: i64)
    ensures
        player_index(players, id) matches Some(i) ==> 0 <= i < players.len() && players[i].info.id
            == id,
    decreases players.len(),
{
    if players.len() > 0 {
        lemma_player_index_bounds(players.drop_last(), id);
    }
}

proof fn lemma_player_index_prefix(players: Seq<Player>, n: int, id: i64)
    requires
        0 < n <= players.len(),
        player_index(players.take(n - 1), id) is None,
        players[n - 1].info.id == id,
    ensures
        player_index(players, id) == Some(n - 1),
    decreases players.len(),
{
    assert(players.take(n).drop_last() =~= players.take(n - 1));
    if n < players.len() {
        assert(players.drop_last().take(n - 1) =~= players.take(n - 1));
        lemma_player_index_prefix(players.drop_last(), n, id);
    } else {
        assert(players.take(n - 1) =~= players.drop_last());
    }
}

fn find_player(players: &Vec<Player>, id: i64) -> (i: Option<usize>)
    ensures
        match player_index(players@, id) {
            Some(k) => i == Some(k as usize) && 0 <= k < players@.len(),
            None => i is None,
        },
{
    let mut j: usize = 0;
    while j < players.len()
        invariant
            j <= players@.len(),
            player_index(players@.take(j as int), id) is None,
        decreases players@.len() - j,
    {
        proof {
            assert(players@.take(j + 1).drop_last() =~= players@.take(j as int));
        }
        if players[j].info.id == id {
            proof {
                lemma_player_index_prefix(players@, j + 1, id);
            }
            return Some(j);
        }
        j += 1;
    }
    proof {
        assert(players@.take(players@.len() as int) =~= players@);
    }
    None
}

/// A player of either team, the away roster searched first.
pub open spec fn spec_player_by_id(game: GameDetail, id: i64) -> Option<Player> {
    match player_index(game.away_team.players@, id) {
        Some(i) => Some(game.away_team.players@[i]),
        None => match player_index(game.home_team.players@, id) {
            Some(i) => Some(game.home_team.players@[i]),
            None => None,
        },
    }
}

impl GameCursor {
    /// The record of the count the cursor is at.
    pub open spec fn spec_current_count(&self) -> Count {
        self.spec_current_inning().counts@[count_index(
            self.spec_current_inning().counts@,
            self.count_seq,
        ).unwrap()]
    }

    /// The count the cursor is at.
    pub fn current_count(&mut self) -> (c: Count)
        requires
            old(self).has_current_inning(),
            count_index(old(self).spec_current_inning().counts@, old(self).count_seq) is Some,
        ensures
            c == old(self).spec_current_count(),
            *final(self) == *old(self),
    {
        let inning = self.current_inning_ref();
        let i = find_count(&inning.counts, self.count_seq).unwrap();
        proof {
            assert(inning.counts@.len() == inning.counts.len());
        }
        inning.counts[i]
    }

    pub open spec fn spec_current_running_view(&self) -> Option<PlayerGameRunningView> {
        match last_running_at(self.detail().player_runnings@, self.count_seq) {
            Some(i) => Some(self.detail().player_runnings@[i]),
            None => None,
        }
    }

    /// The last running record of the current count, which shows the runners it left.
    pub fn current_running_view(&self) -> (r: Option<PlayerGameRunningView>)
        ensures
            r == self.spec_current_running_view(),
    {
        let ghost runnings = self.game.player_runnings@;
        let mut best: Option<usize> = None;
        let mut j: usize = 0;
        while j < self.game.player_runnings.len()
            invariant
                j <= runnings.len(),
                runnings == self.game.player_runnings@,
                match best {
                    Some(b) => last_running_at(runnings.take(j as int), self.count_seq) == Some(
                        b as int,
                    ) && b < j,
                    None => last_running_at(runnings.take(j as int), self.count_seq) is None,
                },
            decreases runnings.len() - j,
        {
            proof {
                assert(runnings.take(j + 1).drop_last() =~= runnings.take(j as int));
                lemma_last_running_bounds(runnings.take(j as int), self.count_seq);
            }
            if self.game.player_runnings[j].count_seq == self.count_seq {
                match best {
                    Some(b) => {
                        if !(self.game.player_runnings[b].seq > self.game.player_runnings[j].seq) {
                            best = Some(j);
                        }
                    },
                    None => {
                        best = Some(j);
                    },
                }
            }
            j += 1;
        }
        proof {
            assert(runnings.take(runnings.len() as int) =~= runnings);
        }
        match best {
            Some(b) => Some(self.game.player_runnings[b].duplicate()),
            None => None,
        }
    }

    pub fn has_runner_on_first(&self) -> (b: bool)
        ensures
            b == (self.spec_current_running_view() matches Some(v) && v.runner_1st is Some),
    {
        match self.current_running_view() {
            Some(v) => v.runner_1st.is_some(),
            None => false,
        }
    }

    pub fn has_runner_on_second(&self) -> (b: bool)
        ensures
            b == (self.spec_current_running_view() matches Some(v) && v.runner_2nd is Some),
    {
        match self.current_running_view() {
            Some(v) => v.runner_2nd.is_some(),
            None => false,
        }
    }

    pub fn has_runner_on_third(&self) -> (b: bool)
        ensures
            b == (self.spec_current_running_view() matches Some(v) && v.runner_3rd is Some),
    {
        match self.current_running_view() {
            Some(v) => v.runner_3rd.is_some(),
            None => false,
        }
    }

    pub open spec fn spec_fielding_team(&self) -> Team {
        if self.inning_tb == TB::Top {
            self.detail().home_team
        } else {
            self.detail().away_team
        }
    }

    /// The team in the field: the home team in the top half, the away team in the bottom.
    fn current_fielding_team(&self) -> (t: &Team)
        ensures
            *t == self.spec_fielding_team(),
    {
        if self.inning_tb == TB::Top {
            &self.game.home_team
        } else {
            &self.game.away_team
        }
    }

    /// A player of either team.
    fn player_by_id(&self, player_id: i64) -> (p: Option<Player>)
        ensures
            p == spec_player_by_id(self.detail(), player_id),
    {
        assert(self.game.away_team.players@.len() == self.game.away_team.players.len());
        assert(self.game.home_team.players@.len() == self.game.home_team.players.len());
        match find_player(&self.game.away_team.players, player_id) {
            Some(i) => Some(self.game.away_team.players[i].duplicate()),
            None => match find_player(&self.game.home_team.players, player_id) {
                Some(i) => Some(self.game.home_team.players[i].duplicate()),
                None => None,
            },
        }
    }
}

/// The first stored entry with `position` filled for team `team_id` at count `count_seq`.
pub open spec fn entry_index(
    entries: Seq<PlayerGameEntryView>,
    team_id: u16,
    position: Position,
    count_seq: u16,
) -> Option<int>
    decreases entries.len(),
{
    if entries.len() == 0 {
        None
    } else {
        match entry_index(entries.drop_last(), team_id, position, count_seq) {
            Some(i) => Some(i),
            None => if entries.last().spec_is_position(team_id, position, count_seq) {
                Some(entries.len() - 1)
            } else {
                None
            },
        }
    }
}

/// The first batting record of count `count_seq`.
pub open spec fn batting_at(battings: Seq<PlayerGameBattingView>, count_seq: u16) -> Option<int>
    decreases battings.len(),
{
    if battings.len() == 0 {
        None
    } else {
        match batting_at(battings.drop_last(), count_seq) {
            Some(i) => Some(i),
            None => if battings.last().count_seq == count_seq {
                Some(battings.len() - 1)
            } else {
                None
            },
        }
    }
}

/// The batting record of the latest count up to `count_seq`; the last stored of those.
pub open spec fn latest_batting(battings: Seq<PlayerGameBattingView>, count_seq: u16) -> Option<int>
    decreases battings.len(),
{
    if battings.len() == 0 {
        None
    } else {
        let rest = latest_batting(battings.drop_last(), count_seq);
        let last = battings.last();
        if last.count_seq <= count_seq {
            match rest {
                Some(r) => if battings[r].count_seq > last.count_seq {
                    Some(r)
                } else {
                    Some(battings.len() - 1)
                },
                None => Some(battings.len() - 1),
            }
        } else {
            rest
        }
    }
}

/// The batting records up to count `count_seq`, in stored order.
pub open spec fn battings_upto(battings: Seq<PlayerGameBattingView>, count_seq: u16) -> Seq<
    PlayerGameBattingView,
>
    decreases battings.len(),
{
    if battings.len() == 0 {
        Seq::empty()
    } else {
        let rest = battings_upto(battings.drop_last(), count_seq);
        if battings.last().count_seq <= count_seq {
            rest.push(battings.last())
        } else {
            rest
        }
    }
}

proof fn lemma_batting_bounds(battings: Seq<PlayerGameBattingView>, count_seq: u16)
    ensures
        batting_at(battings, count_seq) matches Some(i) ==> 0 <= i < battings.len(),
        latest_batting(battings, count_seq) matches Some(i) ==> 0 <= i < battings.len(),
    decreases battings.len(),
{
    if battings.len() > 0 {
        lemma_batting_bounds(battings.drop_last(), count_seq);
    }
}

proof fn lemma_entry_bounds(
    entries: Seq<PlayerGameEntryView>,
    team_id: u16,
    position: Position,
    count_seq: u16,
)
    ensures
        entry_index(entries, team_id, position, count_seq) matches Some(i) ==> 0 <= i
            < entries.len(),
    decreases entries.len(),
{
    if entries.len() > 0 {
        lemma_entry_bounds(entries.drop_last(), team_id, position, count_seq);
    }
}

impl GameCursor {
    /// Who plays `position` for the fielding team at the current count.
    pub open spec fn spec_current_position(&self, position: Position) -> Option<Player> {
        let entries = self.detail().player_entries@;
        match entry_index(entries, self.spec_fielding_team().id, position, self.count_seq) {
            Some(i) => spec_player_by_id(self.detail(), entries[i].player.id),
            None => None,
        }
    }

    /// Who plays `position` for the fielding team at the current count.
    fn current_position(&mut self, position: Position) -> (r: Result<Player, GameViewError>)
        ensures
            *final(self) == *old(self),
            match old(self).spec_current_position(position) {
                Some(p) => r == Ok::<Player, GameViewError>(p),
                None => r matches Err(GameViewError::NoPlayerFor(s)) && s@ == spec_position_key(
                    position,
                ),
            },
    {
        let team_id = self.current_fielding_team().id;
        let ghost entries = self.game.player_entries@;
        let mut j: usize = 0;
        while j < self.game.player_entries.len()
            invariant
                j <= entries.len(),
                entries == self.game.player_entries@,
                team_id == self.spec_fielding_team().id,
                entry_index(entries.take(j as int), team_id, position, self.count_seq) is None,
            decreases entries.len() - j,
        {
            proof {
                assert(entries.take(j + 1).drop_last() =~= entries.take(j as int));
            }
            if self.game.player_entries[j].is_position(team_id, position, self.count_seq) {
                proof {
                    lemma_entry_prefix(entries, j + 1, team_id, position, self.count_seq);
                }
                return match self.player_by_id(self.game.player_entries[j].player.id) {
                    Some(p) => Ok(p),
                    None => Err(GameViewError::NoPlayerFor(String::from_str(position.message_key()))),
                };
            }
            j += 1;
        }
        proof {
            assert(entries.take(entries.len() as int) =~= entries);
        }
        Err(GameViewError::NoPlayerFor(String::from_str(position.message_key())))
    }

    pub fn current_pitcher(&mut self) -> (r: Result<Player, GameViewError>)
        ensures
            *final(self) == *old(self),
            match old(self).spec_current_position(Position::P) {
                Some(p) => r == Ok::<Player, GameViewError>(p),
                None => r matches Err(GameViewError::NoPlayerFor(s)) && s@ == spec_position_key(Position::P),
            },
    {
        self.current_position(Position::P)
    }

    pub fn current_catcher(&mut self) -> (r: Result<Player, GameViewError>)
        ensures
            *final(self) == *old(self),
            match old(self).spec_current_position(Position::C) {
                Some(p) => r == Ok::<Player, GameViewError>(p),
                None => r matches Err(GameViewError::NoPlayerFor(s)) && s@ == spec_position_key(Position::C),
            },
    {
        self.current_position(Position::C)
    }

    pub fn current_fb(&mut self) -> (r: Result<Player, GameViewError>)
        ensures
            *final(self) == *old(self),
            match old(self).spec_current_position(Position::FB) {
                Some(p) => r == Ok::<Player, GameViewError>(p),
                None => r matches Err(GameViewError::NoPlayerFor(s)) && s@ == spec_position_key(Position::FB),
            },
    {
        self.current_position(Position::FB)
    }

    pub fn current_sb(&mut self) -> (r: Result<Player, GameViewError>)
        ensures
            *final(self) == *old(self),
            match old(self).spec_current_position(Position::SB) {
                Some(p) => r == Ok::<Player, GameViewError>(p),
                None => r matches Err(GameViewError::NoPlayerFor(s)) && s@ == spec_position_key(Position::SB),
            },
    {
        self.current_position(Position::SB)
    }

    pub fn current_tb(&mut self) -> (r: Result<Player, GameViewError>)
        ensures
            *final(self) == *old(self),
            match old(self).spec_current_position(Position::TB) {
                Some(p) => r == Ok::<Player, GameViewError>(p),
                None => r matches Err(GameViewError::NoPlayerFor(s)) && s@ == spec_position_key(Position::TB),
            },
    {
        self.current_position(Position::TB)
    }

    pub fn current_ss(&mut self) -> (r: Result<Player, GameViewError>)
        ensures
            *final(self) == *old(self),
            match old(self).spec_current_position(Position::SS) {
                Some(p) => r == Ok::<Player, GameViewError>(p),
                None => r matches Err(GameViewError::NoPlayerFor(s)) && s@ == spec_position_key(Position::SS),
            },
    {
        self.current_position(Position::SS)
    }

    pub fn current_rf(&mut self) -> (r: Result<Player, GameViewError>)
        ensures
            *final(self) == *old(self),
            match old(self).spec_current_position(Position::RF) {
                Some(p) => r == Ok::<Player, GameViewError>(p),
                None => r matches Err(GameViewError::NoPlayerFor(s)) && s@ == spec_position_key(Position::RF),
            },
    {
        self.current_position(Position::RF)
    }

    pub fn current_cf(&mut self) -> (r: Result<Player, GameViewError>)
        ensures
            *final(self) == *old(self),
            match old(self).spec_current_position(Position::CF) {
                Some(p) => r == Ok::<Player, GameViewError>(p),
                None => r matches Err(GameViewError::NoPlayerFor(s)) && s@ == spec_position_key(Position::CF),
            },
    {
        self.current_position(Position::CF)
    }

    pub fn current_lf(&mut self) -> (r: Result<Player, GameViewError>)
        ensures
            *final(self) == *old(self),
            match old(self).spec_current_position(Position::LF) {
                Some(p) => r == Ok::<Player, GameViewError>(p),
                None => r matches Err(GameViewError::NoPlayerFor(s)) && s@ == spec_position_key(Position::LF),
            },
    {
        self.current_position(Position::LF)
    }

    /// The batter at the current count, or at the latest count before it.
    pub fn current_batter(&mut self) -> (r: Result<Player, GameViewError>)
        ensures
            *final(self) == *old(self),
            match latest_batting(old(self).detail().player_battings@, old(self).count_seq) {
                Some(i) => match spec_player_by_id(
                    old(self).detail(),
                    old(self).detail().player_battings@[i].batter.id,
                ) {
                    Some(p) => r == Ok::<Player, GameViewError>(p),
                    None => r matches Err(GameViewError::NoPlayerFor(s)) && s@ == "batter"@,
                },
                None => r matches Err(GameViewError::NoPlayerFor(s)) && s@ == "batter"@,
            },
    {
        proof {
            reveal_strlit("batter");
        }
        match self.current_or_previous_batting_view() {
            Some(v) => match self.player_by_id(v.batter.id) {
                Some(p) => Ok(p),
                None => Err(GameViewError::NoPlayerFor(String::from_str("batter"))),
            },
            None => Err(GameViewError::NoPlayerFor(String::from_str("batter"))),
        }
    }

    /// What the batter did at the current count.
    pub fn current_batting_result(&self) -> (r: Result<BattingResult, GameViewError>)
        ensures
            match batting_at(self.detail().player_battings@, self.count_seq) {
                Some(i) => r == Ok::<BattingResult, GameViewError>(
                    self.detail().player_battings@[i].result,
                ),
                None => r matches Err(GameViewError::CurrentBattingResult),
            },
    {
        match self.current_batting_view() {
            Some(v) => Ok(v.result),
            None => Err(GameViewError::CurrentBattingResult),
        }
    }

    /// The batting record of the current count.
    pub fn current_batting_view(&self) -> (v: Option<&PlayerGameBattingView>)
        ensures
            match batting_at(self.detail().player_battings@, self.count_seq) {
                Some(i) => v matches Some(b) && *b == self.detail().player_battings@[i],
                None => v is None,
            },
    {
        let ghost battings = self.game.player_battings@;
        let mut j: usize = 0;
        while j < self.game.player_battings.len()
            invariant
                j <= battings.len(),
                battings == self.game.player_battings@,
                batting_at(battings.take(j as int), self.count_seq) is None,
            decreases battings.len() - j,
        {
            proof {
                assert(battings.take(j + 1).drop_last() =~= battings.take(j as int));
            }
            if self.game.player_battings[j].is(self.count_seq) {
                proof {
                    lemma_batting_at_prefix(battings, j + 1, self.count_seq);
                }
                return Some(&self.game.player_battings[j]);
            }
            j += 1;
        }
        proof {
            assert(battings.take(battings.len() as int) =~= battings);
        }
        None
    }

    fn current_or_previous_batting_view(&self) -> (v: Option<&PlayerGameBattingView>)
        ensures
            match latest_batting(self.detail().player_battings@, self.count_seq) {
                Some(i) => v matches Some(b) && *b == self.detail().player_battings@[i],
                None => v is None,
            },
    {
        let ghost battings = self.game.player_battings@;
        let mut best: Option<usize> = None;
        let mut j: usize = 0;
        while j < self.game.player_battings.len()
            invariant
                j <= battings.len(),
                battings == self.game.player_battings@,
                match best {
                    Some(b) => latest_batting(battings.take(j as int), self.count_seq) == Some(
                        b as int,
                    ) && b < j,
                    None => latest_batting(battings.take(j as int), self.count_seq) is None,
                },
            decreases battings.len() - j,
        {
            proof {
                assert(battings.take(j + 1).drop_last() =~= battings.take(j as int));
                lemma_batting_bounds(battings.take(j as int), self.count_seq);
            }
            if self.game.player_battings[j].count_seq <= self.count_seq {
                match best {
                    Some(b) => {
                        if !(self.game.player_battings[b].count_seq
                            > self.game.player_battings[j].count_seq) {
                            best = Some(j);
                        }
                    },
                    None => {
                        best = Some(j);
                    },
                }
            }
            j += 1;
        }
        proof {
            assert(battings.take(battings.len() as int) =~= battings);
        }
        match best {
            Some(b) => Some(&self.game.player_battings[b]),
            None => None,
        }
    }

    /// The batting records up to the current count.
    pub fn current_batting_stats(&self) -> (v: Vec<PlayerGameBattingView>)
        ensures
            v@ == battings_upto(self.detail().player_battings@, self.count_seq),
    {
        let ghost battings = self.game.player_battings@;
        let mut v: Vec<PlayerGameBattingView> = Vec::new();
        let mut j: usize = 0;
        while j < self.game.player_battings.len()
            invariant
                j <= battings.len(),
                battings == self.game.player_battings@,
                v@ == battings_upto(battings.take(j as int), self.count_seq),
            decreases battings.len() - j,
        {
            proof {
                assert(battings.take(j + 1).drop_last() =~= battings.take(j as int));
            }
            if self.game.player_battings[j].count_seq <= self.count_seq {
                v.push(self.game.player_battings[j].duplicate());
            }
            j += 1;
        }
        proof {
            assert(battings.take(battings.len() as int) =~= battings);
        }
        v
    }
}

proof fn lemma_entry_prefix(
    entries: Seq<PlayerGameEntryView>,
    n: int,
    team_id: u16,
    position: Position,
    count_seq: u16,
)
    requires
        0 < n <= entries.len(),
        entry_index(entries.take(n - 1), team_id, position, count_seq) is None,
        entries[n - 1].spec_is_position(team_id, position, count_seq),
    ensures
        entry_index(entries, team_id, position, count_seq) == Some(n - 1),
    decreases entries.len(),
{
    assert(entries.take(n).drop_last() =~= entries.take(n - 1));
    if n < entries.len() {
        assert(entries.drop_last().take(n - 1) =~= entries.take(n - 1));
        lemma_entry_prefix(entries.drop_last(), n, team_id, position, count_seq);
    } else {
        assert(entries.take(n - 1) =~= entries.drop_last());
    }
}

proof fn lemma_batting_at_prefix(battings: Seq<PlayerGameBattingView>, n: int, count_seq: u16)
    requires
        0 < n <= battings.len(),
        batting_at(battings.take(n - 1), count_seq) is None,
        battings[n - 1].count_seq == count_seq,
    ensures
        batting_at(battings, count_seq) == Some(n - 1),
    decreases battings.len(),
{
    assert(battings.take(n).drop_last() =~= battings.take(n - 1));
    if n < battings.len() {
        assert(battings.drop_last().take(n - 1) =~= battings.take(n - 1));
        lemma_batting_at_prefix(battings.drop_last(), n, count_seq);
    } else {
        assert(battings.take(n - 1) =~= battings.drop_last());
    }
}

/// The first half inning, in stored order, that is the cursor's and holds the cursor's count.
pub open spec fn stop_inning(innings: Seq<Inning>, seq: u8, tb: TB, count_seq: u16) -> Option<int>
    decreases innings.len(),
{
    if innings.len() == 0 {
        None
    } else {
        match stop_inning(innings.drop_last(), seq, tb, count_seq) {
            Some(i) => Some(i),
            None => {
                let last = innings.last();
                if last.seq == seq && last.tb == tb && count_index(last.counts@, count_seq) is Some {
                    Some(innings.len() - 1)
                } else {
                    None
                }
            },
        }
    }
}

/// How many half innings, in stored order, the line score at the cursor takes in.
pub open spec fn innings_counted(innings: Seq<Inning>, seq: u8, tb: TB, count_seq: u16) -> int {
    match stop_inning(innings, seq, tb, count_seq) {
        Some(si) => si + 1,
        None => innings.len() as int,
    }
}

/// The counts of half inning `i` that the line score at the cursor takes in: all of
/// them, but in the cursor's half inning only those up to the cursor's count.
pub open spec fn counted(innings: Seq<Inning>, seq: u8, tb: TB, count_seq: u16, i: int) -> Seq<Count> {
    match stop_inning(innings, seq, tb, count_seq) {
        Some(si) => if i == si {
            innings[i].counts@.take(count_index(innings[i].counts@, count_seq).unwrap() + 1)
        } else {
            innings[i].counts@
        },
        None => innings[i].counts@,
    }
}

/// The runs the counts scored.
pub open spec fn points_sum(counts: Seq<Count>) -> nat
    decreases counts.len(),
{
    if counts.len() == 0 {
        0
    } else {
        points_sum(counts.drop_last()) + counts.last().point as nat
    }
}

/// The runs of side `side` per half inning, over the first `n` half innings taken in.
pub open spec fn line(innings: Seq<Inning>, seq: u8, tb: TB, count_seq: u16, side: TB, n: int) -> Seq<
    nat,
>
    decreases n,
{
    if n <= 0 {
        Seq::empty()
    } else {
        let rest = line(innings, seq, tb, count_seq, side, n - 1);
        if innings[n - 1].tb == side {
            rest.push(points_sum(counted(innings, seq, tb, count_seq, n - 1)))
        } else {
            rest
        }
    }
}

pub open spec fn nat_sum(s: Seq<nat>) -> nat
    decreases s.len(),
{
    if s.len() == 0 {
        0
    } else {
        nat_sum(s.drop_last()) + s.last()
    }
}

proof fn lemma_points_sum_prefix(counts: Seq<Count>, j: int, k: int)
    requires
        0 <= j <= k <= counts.len(),
    ensures
        points_sum(counts.take(j)) <= points_sum(counts.take(k)),
    decreases k - j,
{
    if j < k {
        lemma_points_sum_prefix(counts, j, k - 1);
        assert(counts.take(k).drop_last() =~= counts.take(k - 1));
    }
}

proof fn lemma_line_prefix(innings: Seq<Inning>, seq: u8, tb: TB, count_seq: u16, side: TB, i: int, n: int)
    requires
        0 <= i <= n,
    ensures
        nat_sum(line(innings, seq, tb, count_seq, side, i)) <= nat_sum(
            line(innings, seq, tb, count_seq, side, n),
        ),
    decreases n - i,
{
    if i < n {
        lemma_line_prefix(innings, seq, tb, count_seq, side, i, n - 1);
        let rest = line(innings, seq, tb, count_seq, side, n - 1);
        if innings[n - 1].tb == side {
            assert(rest.push(points_sum(counted(innings, seq, tb, count_seq, n - 1))).drop_last()
                =~= rest);
        }
    }
}

proof fn lemma_stop_inning_bounds(innings: Seq<Inning>, seq: u8, tb: TB, count_seq: u16)
    ensures
        stop_inning(innings, seq, tb, count_seq) matches Some(i) ==> 0 <= i < innings.len()
            && count_index(innings[i].counts@, count_seq) is Some,
    decreases innings.len(),
{
    if innings.len() > 0 {
        lemma_stop_inning_bounds(innings.drop_last(), seq, tb, count_seq);
    }
}

proof fn lemma_stop_inning_prefix(innings: Seq<Inning>, n: int, seq: u8, tb: TB, count_seq: u16)
    requires
        0 < n <= innings.len(),
        stop_inning(innings.take(n - 1), seq, tb, count_seq) is None,
        innings[n - 1].seq == seq,
        innings[n - 1].tb == tb,
        count_index(innings[n - 1].counts@, count_seq) is Some,
    ensures
        stop_inning(innings, seq, tb, count_seq) == Some(n - 1),
    decreases innings.len(),
{
    assert(innings.take(n).drop_last() =~= innings.take(n - 1));
    if n < innings.len() {
        assert(innings.drop_last().take(n - 1) =~= innings.take(n - 1));
        lemma_stop_inning_prefix(innings.drop_last(), n, seq, tb, count_seq);
    } else {
        assert(innings.take(n - 1) =~= innings.drop_last());
    }
}

impl GameCursor {
    pub open spec fn spec_line(&self, side: TB) -> Seq<nat> {
        let innings = self.detail().innings@;
        line(
            innings,
            self.inning_seq,
            self.inning_tb,
            self.count_seq,
            side,
            innings_counted(innings, self.inning_seq, self.inning_tb, self.count_seq),
        )
    }

    fn find_stop(&self) -> (r: Option<(usize, usize)>)
        ensures
            match stop_inning(self.detail().innings@, self.inning_seq, self.inning_tb, self.count_seq) {
                Some(si) => r matches Some((i, c)) && i == si && Some(c as int) == count_index(
                    self.detail().innings@[si].counts@,
                    self.count_seq,
                ) && i < self.detail().innings@.len(),
                None => r is None,
            },
    {
        let ghost innings = self.game.innings@;
        let mut j: usize = 0;
        while j < self.game.innings.len()
            invariant
                j <= innings.len(),
                innings == self.game.innings@,
                stop_inning(innings.take(j as int), self.inning_seq, self.inning_tb, self.count_seq)
                    is None,
            decreases innings.len() - j,
        {
            proof {
                assert(innings.take(j + 1).drop_last() =~= innings.take(j as int));
            }
            let inning = &self.game.innings[j];
            assert(inning.counts@.len() == inning.counts.len());
            if inning.seq == self.inning_seq && inning.tb == self.inning_tb {
                match find_count(&inning.counts, self.count_seq) {
                    Some(c) => {
                        proof {
                            lemma_stop_inning_prefix(innings, j + 1, self.inning_seq, self.inning_tb, self.count_seq);
                        }
                        return Some((j, c));
                    },
                    None => {},
                }
            }
            j += 1;
        }
        proof {
            assert(innings.take(innings.len() as int) =~= innings);
        }
        None
    }

    /// The line score up to the current count: for each half inning in stored order, up
    /// to the cursor's, the runs scored, and each side's total.
    pub fn current_scoreboard(&mut self) -> (sb: ScoreBoard)
        requires
            nat_sum(old(self).spec_line(TB::Top)) <= u8::MAX,
            nat_sum(old(self).spec_line(TB::Bottom)) <= u8::MAX,
        ensures
            *final(self) == *old(self),
            sb.away_team_name == old(self).detail().away_team.name,
            sb.home_team_name == old(self).detail().home_team.name,
            sb.max_inning_num == max_inning_seq_of(old(self).detail().innings@),
            sb.is_last_bottom_inning_skiped == old(self).is_last_bottom_inning_skiped,
            sb.away_innning_points@.map_values(|p: u8| p as nat) == old(self).spec_line(TB::Top),
            sb.home_innning_points@.map_values(|p: u8| p as nat) == old(self).spec_line(TB::Bottom),
            sb.away_total_point == nat_sum(old(self).spec_line(TB::Top)),
            sb.home_total_point == nat_sum(old(self).spec_line(TB::Bottom)),
    {
        let ghost innings = self.game.innings@;
        let ghost seq = self.inning_seq;
        let ghost tb = self.inning_tb;
        let ghost cs = self.count_seq;
        let ghost total_n = innings_counted(innings, seq, tb, cs);
        let stop = self.find_stop();
        proof {
            lemma_stop_inning_bounds(innings, seq, tb, cs);
            assert(innings.len() == self.game.innings.len());
        }
        let n = match stop {
            Some((si, _)) => si + 1,
            None => self.game.innings.len(),
        };
        let mut away: Vec<u8> = Vec::new();
        let mut home: Vec<u8> = Vec::new();
        let mut away_total: u8 = 0;
        let mut home_total: u8 = 0;
        let mut i: usize = 0;
        while i < n
            invariant
                i <= n,
                n == total_n,
                n <= innings.len(),
                innings == self.game.innings@,
                seq == self.inning_seq,
                tb == self.inning_tb,
                cs == self.count_seq,
                total_n == innings_counted(innings, seq, tb, cs),
                match stop_inning(innings, seq, tb, cs) {
                    Some(si) => stop matches Some((a, c)) && a == si && Some(c as int) == count_index(
                        innings[si].counts@,
                        cs,
                    ),
                    None => stop is None,
                },
                nat_sum(line(innings, seq, tb, cs, TB::Top, total_n)) <= u8::MAX,
                nat_sum(line(innings, seq, tb, cs, TB::Bottom, total_n)) <= u8::MAX,
                away@.map_values(|p: u8| p as nat) == line(innings, seq, tb, cs, TB::Top, i as int),
                home@.map_values(|p: u8| p as nat) == line(innings, seq, tb, cs, TB::Bottom, i as int),
                away_total == nat_sum(line(innings, seq, tb, cs, TB::Top, i as int)),
                home_total == nat_sum(line(innings, seq, tb, cs, TB::Bottom, i as int)),
            decreases n - i,
        {
            let inning = &self.game.innings[i];
            let ghost counts = counted(innings, seq, tb, cs, i as int);
            proof {
                lemma_count_index_bounds(innings[i as int].counts@, cs);
                assert(inning.counts@.len() == inning.counts.len());
            }
            let limit = match stop {
                Some((si, c)) => if i == si {
                    c + 1
                } else {
                    inning.counts.len()
                },
                None => inning.counts.len(),
            };
            proof {
                lemma_count_index_bounds(innings[i as int].counts@, cs);
                assert(counts =~= inning.counts@.take(limit as int));
                lemma_line_prefix(innings, seq, tb, cs, inning.tb, i + 1, total_n);
            }
            let ghost side_line = line(innings, seq, tb, cs, inning.tb, i + 1);
            proof {
                assert(side_line == line(innings, seq, tb, cs, inning.tb, i as int).push(points_sum(counts)));
                assert(side_line.drop_last() =~= line(innings, seq, tb, cs, inning.tb, i as int));
            }
            let mut sum: u8 = 0;
            let mut j: usize = 0;
            while j < limit
                invariant
                    j <= limit,
                    limit <= inning.counts@.len(),
                    counts == inning.counts@.take(limit as int),
                    sum == points_sum(counts.take(j as int)),
                    points_sum(counts) + nat_sum(line(innings, seq, tb, cs, inning.tb, i as int)) <= u8::MAX,
                decreases limit - j,
            {
                proof {
                    assert(counts.take(j + 1).drop_last() =~= counts.take(j as int));
                    assert(counts.take(j + 1).last() == inning.counts@[j as int]);
                    lemma_points_sum_prefix(counts, j + 1, limit as int);
                    assert(counts.take(limit as int) =~= counts);
                }
                sum = sum + inning.counts[j].point;
                j += 1;
            }
            proof {
                assert(counts.take(limit as int) =~= counts);
            }
            if inning.tb == TB::Top {
                away.push(sum);
                away_total = away_total + sum;
                proof {
                    assert(away@.map_values(|p: u8| p as nat) =~= line(innings, seq, tb, cs, TB::Top, i + 1));
                    assert(home@.map_values(|p: u8| p as nat) =~= line(innings, seq, tb, cs, TB::Bottom, i + 1));
                }
            } else {
                home.push(sum);
                home_total = home_total + sum;
                proof {
                    assert(away@.map_values(|p: u8| p as nat) =~= line(innings, seq, tb, cs, TB::Top, i + 1));
                    assert(home@.map_values(|p: u8| p as nat) =~= line(innings, seq, tb, cs, TB::Bottom, i + 1));
                }
            }
            i += 1;
        }
        ScoreBoard {
            away_team_name: self.game.away_team.name.clone(),
            home_team_name: self.game.home_team.name.clone(),
            max_inning_num: self.max_inning_seq(),
            away_total_point: away_total,
            home_total_point: home_total,
            away_innning_points: away,
            home_innning_points: home,
            is_last_bottom_inning_skiped: self.is_last_bottom_inning_skiped,
        }
    }
}

/// An entry of team `team_id`'s opening lineup with a batting order.
pub open spec fn opening_batter(e: PlayerGameEntryView, team_id: u16) -> bool {
    e.team_id == team_id && e.start_count_seq == 1 && e.batting_order > 0
}

/// A later opening entry of the team names the same player; the later one is the one read.
pub open spec fn named_later(entries: Seq<PlayerGameEntryView>, team_id: u16, i: int) -> bool {
    exists|j: int|
        i < j < entries.len() && opening_batter(#[trigger] entries[j], team_id) && entries[j].player.id
            == entries[i].player.id
}

/// Indices below `n` of the opening batters read for team `team_id` with batting order `k`.
pub open spec fn rows_with_order(entries: Seq<PlayerGameEntryView>, team_id: u16, k: int, n: int) -> Seq<
    int,
>
    decreases n,
{
    if n <= 0 {
        Seq::empty()
    } else {
        let rest = rows_with_order(entries, team_id, k, n - 1);
        let e = entries[n - 1];
        if opening_batter(e, team_id) && e.batting_order == k && !named_later(entries, team_id, n - 1) {
            rest.push(n - 1)
        } else {
            rest
        }
    }
}

/// The opening batters read for team `team_id` with batting order below `k`, by order;
/// entries with equal order in stored order.
pub open spec fn rows_below(entries: Seq<PlayerGameEntryView>, team_id: u16, k: int) -> Seq<int>
    decreases k,
{
    if k <= 0 {
        Seq::empty()
    } else {
        rows_below(entries, team_id, k - 1) + rows_with_order(entries, team_id, k - 1, entries.len() as int)
    }
}

/// What a batting record adds to plate appearances, at-bats, hits, doubles, triples and
/// home runs. Walks and hit batsmen are plate appearances only; a strikeout is also an
/// at-bat; a pitch that does not end the plate appearance adds nothing.
pub open spec fn credit(r: BattingResult) -> (nat, nat, nat, nat, nat, nat) {
    match r {
        BattingResult::Single => (1, 1, 1, 0, 0, 0),
        BattingResult::Double => (1, 1, 1, 1, 0, 0),
        BattingResult::Triple => (1, 1, 1, 0, 1, 0),
        BattingResult::HomeRun => (1, 1, 1, 0, 0, 1),
        BattingResult::FieldersChoice | BattingResult::Out | BattingResult::DoublePlay
        | BattingResult::Strikeout => (1, 1, 0, 0, 0, 0),
        BattingResult::Walk | BattingResult::HitByPitch => (1, 0, 0, 0, 0, 0),
        BattingResult::Foul | BattingResult::StrikeSwung | BattingResult::WildPitch
        | BattingResult::Take => (0, 0, 0, 0, 0, 0),
    }
}

/// Player `id`'s totals over the batting records `bs`.
pub open spec fn tally(bs: Seq<PlayerGameBattingView>, id: i64) -> (nat, nat, nat, nat, nat, nat)
    decreases bs.len(),
{
    if bs.len() == 0 {
        (0, 0, 0, 0, 0, 0)
    } else {
        let t = tally(bs.drop_last(), id);
        if bs.last().batter.id == id {
            let c = credit(bs.last().result);
            (t.0 + c.0, t.1 + c.1, t.2 + c.2, t.3 + c.3, t.4 + c.4, t.5 + c.5)
        } else {
            t
        }
    }
}

proof fn lemma_tally_bound(bs: Seq<PlayerGameBattingView>, id: i64)
    ensures
        tally(bs, id).0 <= bs.len(),
        tally(bs, id).1 <= bs.len(),
        tally(bs, id).2 <= bs.len(),
        tally(bs, id).3 <= bs.len(),
        tally(bs, id).4 <= bs.len(),
        tally(bs, id).5 <= bs.len(),
    decreases bs.len(),
{
    if bs.len() > 0 {
        lemma_tally_bound(bs.drop_last(), id);
    }
}

proof fn lemma_battings_upto_len(bs: Seq<PlayerGameBattingView>, count_seq: u16)
    ensures
        battings_upto(bs, count_seq).len() <= bs.len(),
    decreases bs.len(),
{
    if bs.len() > 0 {
        lemma_battings_upto_len(bs.drop_last(), count_seq);
    }
}

/// The box-score line of opening entry `i` at count `count_seq`.
pub open spec fn stat_row(game: GameDetail, team_id: u16, count_seq: u16, i: int) -> BatterGameStatView {
    let e = game.player_entries@[i];
    let t = tally(battings_upto(game.player_battings@, count_seq), e.player.id);
    BatterGameStatView {
        team_id,
        batting_order: e.batting_order,
        position: e.position,
        player: e.player,
        plate_appearances: t.0 as u16,
        at_bats: t.1 as u16,
        hits: t.2 as u16,
        doubles: t.3 as u16,
        triples: t.4 as u16,
        home_runs: t.5 as u16,
    }
}

fn credit_of(r: BattingResult) -> (c: (u16, u16, u16, u16, u16, u16))
    ensures
        c.0 == credit(r).0,
        c.1 == credit(r).1,
        c.2 == credit(r).2,
        c.3 == credit(r).3,
        c.4 == credit(r).4,
        c.5 == credit(r).5,
{
    match r {
        BattingResult::Single => (1, 1, 1, 0, 0, 0),
        BattingResult::Double => (1, 1, 1, 1, 0, 0),
        BattingResult::Triple => (1, 1, 1, 0, 1, 0),
        BattingResult::HomeRun => (1, 1, 1, 0, 0, 1),
        BattingResult::FieldersChoice | BattingResult::Out | BattingResult::DoublePlay
        | BattingResult::Strikeout => (1, 1, 0, 0, 0, 0),
        BattingResult::Walk | BattingResult::HitByPitch => (1, 0, 0, 0, 0, 0),
        BattingResult::Foul | BattingResult::StrikeSwung | BattingResult::WildPitch
        | BattingResult::Take => (0, 0, 0, 0, 0, 0),
    }
}

fn tally_of(bs: &Vec<PlayerGameBattingView>, id: i64) -> (t: (u16, u16, u16, u16, u16, u16))
    requires
        bs@.len() <= u16::MAX,
    ensures
        t.0 == tally(bs@, id).0,
        t.1 == tally(bs@, id).1,
        t.2 == tally(bs@, id).2,
        t.3 == tally(bs@, id).3,
        t.4 == tally(bs@, id).4,
        t.5 == tally(bs@, id).5,
{
    let mut t: (u16, u16, u16, u16, u16, u16) = (0, 0, 0, 0, 0, 0);
    let mut j: usize = 0;
    while j < bs.len()
        invariant
            j <= bs@.len(),
            bs@.len() <= u16::MAX,
            t.0 == tally(bs@.take(j as int), id).0,
            t.1 == tally(bs@.take(j as int), id).1,
            t.2 == tally(bs@.take(j as int), id).2,
            t.3 == tally(bs@.take(j as int), id).3,
            t.4 == tally(bs@.take(j as int), id).4,
            t.5 == tally(bs@.take(j as int), id).5,
        decreases bs@.len() - j,
    {
        proof {
            assert(bs@.take(j + 1).drop_last() =~= bs@.take(j as int));
            lemma_tally_bound(bs@.take(j + 1), id);
        }
        if bs[j].batter.id == id {
            let c = credit_of(bs[j].result);
            t = (t.0 + c.0, t.1 + c.1, t.2 + c.2, t.3 + c.3, t.4 + c.4, t.5 + c.5);
        }
        j += 1;
    }
    proof {
        assert(bs@.take(bs@.len() as int) =~= bs@);
    }
    t
}

impl GameCursor {
    fn named_later_exec(&self, team_id: u16, i: usize) -> (b: bool)
        requires
            i < self.detail().player_entries@.len(),
        ensures
            b == named_later(self.detail().player_entries@, team_id, i as int),
    {
        let ghost entries = self.game.player_entries@;
        let id = self.game.player_entries[i].player.id;
        assert(entries.len() == self.game.player_entries.len());
        let mut j: usize = i + 1;
        while j < self.game.player_entries.len()
            invariant
                i < j <= entries.len(),
                entries == self.game.player_entries@,
                id == entries[i as int].player.id,
                forall|t: int|
                    i < t < j ==> !(opening_batter(#[trigger] entries[t], team_id) && entries[t].player.id
                        == id),
            decreases entries.len() - j,
        {
            let e = &self.game.player_entries[j];
            if e.team_id == team_id && e.start_count_seq == 1 && e.batting_order > 0 && e.player.id == id {
                assert(opening_batter(entries[j as int], team_id));
                return true;
            }
            j += 1;
        }
        false
    }

    /// The box score of team `team_id` up to the current count: one line per player of
    /// the opening lineup who bats, in batting order, with the plate appearances, at-bats,
    /// hits, doubles, triples and home runs of the batting records so far.
    pub fn current_batting_stats_for_team(&self, team_id: u16) -> (rows: Vec<BatterGameStatView>)
        requires
            self.detail().player_battings@.len() <= u16::MAX,
        ensures
            rows@ == box_score(self.detail(), team_id, self.count_seq),
    {
        let ghost entries = self.game.player_entries@;
        let ghost game = self.game;
        let ups = self.current_batting_stats();
        proof {
            lemma_battings_upto_len(self.game.player_battings@, self.count_seq);
        }
        let mut rows: Vec<BatterGameStatView> = Vec::new();
        let mut k: u16 = 0;
        while k < 256
            invariant
                k <= 256,
                entries == self.game.player_entries@,
                game == self.game,
                ups@ == battings_upto(game.player_battings@, self.count_seq),
                ups@.len() <= u16::MAX,
                rows@ == rows_below(entries, team_id, k as int).map_values(
                    |i: int| stat_row(game, team_id, self.count_seq, i),
                ),
            decreases 256 - k,
        {
            let ghost before = rows@;
            let mut i: usize = 0;
            while i < self.game.player_entries.len()
                invariant
                    i <= entries.len(),
                    k < 256,
                    entries == self.game.player_entries@,
                    game == self.game,
                    ups@ == battings_upto(game.player_battings@, self.count_seq),
                    ups@.len() <= u16::MAX,
                    before == rows_below(entries, team_id, k as int).map_values(
                        |i: int| stat_row(game, team_id, self.count_seq, i),
                    ),
                    rows@ == before + rows_with_order(entries, team_id, k as int, i as int).map_values(
                        |i: int| stat_row(game, team_id, self.count_seq, i),
                    ),
                decreases entries.len() - i,
            {
                let e = &self.game.player_entries[i];
                let ghost w = rows_with_order(entries, team_id, k as int, i as int);
                if e.team_id == team_id && e.start_count_seq == 1 && e.batting_order > 0
                    && e.batting_order as u16 == k && !self.named_later_exec(team_id, i) {
                    let t = tally_of(&ups, e.player.id);
                    let row = BatterGameStatView {
                        team_id,
                        batting_order: e.batting_order,
                        position: e.position,
                        player: e.player.duplicate(),
                        plate_appearances: t.0,
                        at_bats: t.1,
                        hits: t.2,
                        doubles: t.3,
                        triples: t.4,
                        home_runs: t.5,
                    };
                    rows.push(row);
                    proof {
                        assert(row == stat_row(game, team_id, self.count_seq, i as int));
                        assert(rows_with_order(entries, team_id, k as int, i + 1) == w.push(i as int));
                        assert(rows@ =~= before + rows_with_order(entries, team_id, k as int, i + 1).map_values(
                            |i: int| stat_row(game, team_id, self.count_seq, i),
                        ));
                    }
                } else {
                    proof {
                        assert(rows_with_order(entries, team_id, k as int, i + 1) == w);
                    }
                }
                i += 1;
            }
            proof {
                assert(rows_below(entries, team_id, k + 1) == rows_below(entries, team_id, k as int)
                    + rows_with_order(entries, team_id, k as int, entries.len() as int));
                assert(rows@ =~= rows_below(entries, team_id, k + 1).map_values(
                    |i: int| stat_row(game, team_id, self.count_seq, i),
                ));
            }
            k += 1;
        }
        rows
    }
}

/// Team `team_id`'s box score at count `count_seq`: a line for each opening batter,
/// by batting order.
pub open spec fn box_score(game: GameDetail, team_id: u16, count_seq: u16) -> Seq<BatterGameStatView> {
    rows_below(game.player_entries@, team_id, 256).map_values(
        |i: int| stat_row(game, team_id, count_seq, i),
    )
}

/// The entries read for batting order `k` among the first `n`: opening batters of the
/// team with that order that no later entry names again, in stored order.
proof fn lemma_rows_with_order_facts(entries: Seq<PlayerGameEntryView>, team_id: u16, k: int, n: int)
    requires
        0 <= n <= entries.len(),
    ensures
        forall|a: int|
            0 <= a < rows_with_order(entries, team_id, k, n).len() ==> {
                let j = #[trigger] rows_with_order(entries, team_id, k, n)[a];
                &&& 0 <= j < n
                &&& opening_batter(entries[j], team_id)
                &&& entries[j].batting_order == k
                &&& !named_later(entries, team_id, j)
            },
        forall|a: int, b: int|
            0 <= a < b < rows_with_order(entries, team_id, k, n).len() ==> #[trigger] rows_with_order(
                entries,
                team_id,
                k,
                n,
            )[a] < #[trigger] rows_with_order(entries, team_id, k, n)[b],
    decreases n,
{
    if n > 0 {
        lemma_rows_with_order_facts(entries, team_id, k, n - 1);
        let rest = rows_with_order(entries, team_id, k, n - 1);
        let r = rows_with_order(entries, team_id, k, n);
        if r != rest {
            assert(r == rest.push(n - 1));
            assert forall|a: int| 0 <= a < rest.len() implies #[trigger] r[a] == rest[a] by {}
        }
    }
}

/// The entries read for batting orders below `k`: opening batters of the team that no
/// later entry names again, ordered by batting order and then by stored order.
proof fn lemma_rows_below_facts(entries: Seq<PlayerGameEntryView>, team_id: u16, k: int)
    ensures
        forall|a: int|
            0 <= a < rows_below(entries, team_id, k).len() ==> {
                let j = #[trigger] rows_below(entries, team_id, k)[a];
                &&& 0 <= j < entries.len()
                &&& opening_batter(entries[j], team_id)
                &&& entries[j].batting_order < k
                &&& !named_later(entries, team_id, j)
            },
        forall|a: int, b: int|
            0 <= a < b < rows_below(entries, team_id, k).len() ==> {
                let i = #[trigger] rows_below(entries, team_id, k)[a];
                let j = #[trigger] rows_below(entries, team_id, k)[b];
                entries[i].batting_order < entries[j].batting_order || (entries[i].batting_order
                    == entries[j].batting_order && i < j)
            },
    decreases k,
{
    if k > 0 {
        lemma_rows_below_facts(entries, team_id, k - 1);
        lemma_rows_with_order_facts(entries, team_id, k - 1, entries.len() as int);
        let x = rows_below(entries, team_id, k - 1);
        let y = rows_with_order(entries, team_id, k - 1, entries.len() as int);
        let r = rows_below(entries, team_id, k);
        assert(r == x + y);
        assert forall|a: int| 0 <= a < r.len() implies ({
            let j = #[trigger] r[a];
            &&& 0 <= j < entries.len()
            &&& opening_batter(entries[j], team_id)
            &&& entries[j].batting_order < k
            &&& !named_later(entries, team_id, j)
        }) by {
            if a < x.len() {
                assert(r[a] == x[a]);
            } else {
                assert(r[a] == y[a - x.len()]);
            }
        }
        assert forall|a: int, b: int| 0 <= a < b < r.len() implies ({
            let i = #[trigger] r[a];
            let j = #[trigger] r[b];
            entries[i].batting_order < entries[j].batting_order || (entries[i].batting_order
                == entries[j].batting_order && i < j)
        }) by {
            if b < x.len() {
                assert(r[a] == x[a]);
                assert(r[b] == x[b]);
            } else if a < x.len() {
                assert(r[a] == x[a]);
                assert(r[b] == y[b - x.len()]);
            } else {
                assert(r[a] == y[a - x.len()]);
                assert(r[b] == y[b - x.len()]);
            }
        }
    }
}

/// Extra hits never outnumber hits, hits never outnumber at-bats, and at-bats never
/// outnumber plate appearances.
proof fn lemma_tally_ordered(bs: Seq<PlayerGameBattingView>, id: i64)
    ensures
        tally(bs, id).3 + tally(bs, id).4 + tally(bs, id).5 <= tally(bs, id).2,
        tally(bs, id).2 <= tally(bs, id).1,
        tally(bs, id).1 <= tally(bs, id).0,
    decreases bs.len(),
{
    if bs.len() > 0 {
        lemma_tally_ordered(bs.drop_last(), id);
    }
}

/// Each total only grows as the cursor moves on: the records up to `c1` are among those
/// up to `c2`.
proof fn lemma_tally_grows(bs: Seq<PlayerGameBattingView>, id: i64, c1: u16, c2: u16)
    requires
        c1 <= c2,
    ensures
        ({
            let t1 = tally(battings_upto(bs, c1), id);
            let t2 = tally(battings_upto(bs, c2), id);
            t1.0 <= t2.0 && t1.1 <= t2.1 && t1.2 <= t2.2 && t1.3 <= t2.3 && t1.4 <= t2.4 && t1.5
                <= t2.5
        }),
    decreases bs.len(),
{
    if bs.len() > 0 {
        let rest = bs.drop_last();
        lemma_tally_grows(rest, id, c1, c2);
        let u1 = battings_upto(rest, c1);
        let u2 = battings_upto(rest, c2);
        let x = bs.last();
        assert(u1.push(x).drop_last() == u1);
        assert(u2.push(x).drop_last() == u2);
    }
}

/// The box score of a team at any count: one line per opening batter, in batting order,
/// no player listed twice; on each line extra-base hits never outnumber hits, hits never
/// outnumber at-bats, and at-bats never outnumber plate appearances; and moving the cursor
/// on from count `c1` to count `c2` keeps the same lines and never lowers a figure.
pub proof fn lemma_box_score(game: GameDetail, team_id: u16, c1: u16, c2: u16)
    requires
        game.player_battings@.len() <= u16::MAX,
        c1 <= c2,
    ensures
        box_score(game, team_id, c1).len() == box_score(game, team_id, c2).len(),
        forall|a: int, b: int|
            0 <= a < b < box_score(game, team_id, c2).len() ==> (#[trigger] box_score(
                game,
                team_id,
                c2,
            )[a]).batting_order <= (#[trigger] box_score(game, team_id, c2)[b]).batting_order
                && box_score(game, team_id, c2)[a].player.id != box_score(
                game,
                team_id,
                c2,
            )[b].player.id,
        forall|a: int|
            0 <= a < box_score(game, team_id, c2).len() ==> {
                let s = #[trigger] box_score(game, team_id, c2)[a];
                let t = box_score(game, team_id, c1)[a];
                &&& s.team_id == team_id
                &&& s.batting_order > 0
                &&& s.doubles + s.triples + s.home_runs <= s.hits
                &&& s.hits <= s.at_bats
                &&& s.at_bats <= s.plate_appearances
                &&& t.player == s.player
                &&& t.batting_order == s.batting_order
                &&& t.position == s.position
                &&& t.plate_appearances <= s.plate_appearances
                &&& t.at_bats <= s.at_bats
                &&& t.hits <= s.hits
                &&& t.doubles <= s.doubles
                &&& t.triples <= s.triples
                &&& t.home_runs <= s.home_runs
            },
{
    let entries = game.player_entries@;
    let bs = game.player_battings@;
    let rows = rows_below(entries, team_id, 256);
    lemma_rows_below_facts(entries, team_id, 256);
    let b1 = box_score(game, team_id, c1);
    let b2 = box_score(game, team_id, c2);
    assert forall|a: int, b: int| 0 <= a < b < b2.len() implies (#[trigger] b2[a]).batting_order
        <= (#[trigger] b2[b]).batting_order && b2[a].player.id != b2[b].player.id by {
        let i = rows[a];
        let j = rows[b];
        assert(b2[a] == stat_row(game, team_id, c2, i));
        assert(b2[b] == stat_row(game, team_id, c2, j));
        if entries[i].player.id == entries[j].player.id {
            if i < j {
                assert(opening_batter(entries[j], team_id));
                assert(named_later(entries, team_id, i));
            } else {
                assert(opening_batter(entries[i], team_id));
                assert(named_later(entries, team_id, j));
            }
        }
    }
    assert forall|a: int| 0 <= a < b2.len() implies ({
        let s = #[trigger] b2[a];
        let t = b1[a];
        &&& s.team_id == team_id
        &&& s.batting_order > 0
        &&& s.doubles + s.triples + s.home_runs <= s.hits
        &&& s.hits <= s.at_bats
        &&& s.at_bats <= s.plate_appearances
        &&& t.player == s.player
        &&& t.batting_order == s.batting_order
        &&& t.position == s.position
        &&& t.plate_appearances <= s.plate_appearances
        &&& t.at_bats <= s.at_bats
        &&& t.hits <= s.hits
        &&& t.doubles <= s.doubles
        &&& t.triples <= s.triples
        &&& t.home_runs <= s.home_runs
    }) by {
        let i = rows[a];
        let id = entries[i].player.id;
        assert(opening_batter(entries[i], team_id));
        lemma_battings_upto_len(bs, c1);
        lemma_battings_upto_len(bs, c2);
        lemma_tally_bound(battings_upto(bs, c1), id);
        lemma_tally_bound(battings_upto(bs, c2), id);
        lemma_tally_ordered(battings_upto(bs, c2), id);
        lemma_tally_grows(bs, id, c1, c2);
        assert(b2[a] == stat_row(game, team_id, c2, i));
        assert(b1[a] == stat_row(game, team_id, c1, i));
    }
}

/// What `next_with_counts` finds: a half inning with counts whose key is the least
/// above `key`, or none when no half inning with counts lies above it.
proof fn lemma_next_with_counts_least(innings: Seq<Inning>, key: int)
    ensures
        match next_with_counts(innings, key) {
            Some(j) => 0 <= j < innings.len() && innings[j].counts.len() > 0 && inning_key(innings[j])
                > key && forall|i: int|
                0 <= i < innings.len() && innings[i].counts.len() > 0 && #[trigger] inning_key(
                    innings[i],
                ) > key ==> inning_key(innings[j]) <= inning_key(innings[i]),
            None => forall|i: int|
                0 <= i < innings.len() && innings[i].counts.len() > 0 ==> #[trigger] inning_key(
                    innings[i],
                ) <= key,
        },
    decreases innings.len(),
{
    if innings.len() > 0 {
        let rest = innings.drop_last();
        let n = innings.len() - 1;
        lemma_next_with_counts_least(rest, key);
        if let Some(r) = next_with_counts(rest, key) {
            assert(rest[r] == innings[r]);
        }
        match next_with_counts(innings, key) {
            Some(j) => {
                assert forall|i: int|
                    0 <= i < innings.len() && innings[i].counts.len() > 0 && #[trigger] inning_key(
                        innings[i],
                    ) > key implies inning_key(innings[j]) <= inning_key(innings[i]) by {
                    if i < n {
                        assert(rest[i] == innings[i]);
                    }
                }
            },
            None => {
                assert forall|i: int|
                    0 <= i < innings.len() && innings[i].counts.len() > 0 implies #[trigger] inning_key(
                        innings[i],
                    ) <= key by {
                    if i < n {
                        assert(rest[i] == innings[i]);
                    }
                }
            },
        }
    }
}

/// What `prev_with_counts` finds: a half inning with counts whose key is the greatest
/// below `key`, or none when no half inning with counts lies below it.
proof fn lemma_prev_with_counts_greatest(innings: Seq<Inning>, key: int)
    ensures
        match prev_with_counts(innings, key) {
            Some(j) => 0 <= j < innings.len() && innings[j].counts.len() > 0 && inning_key(innings[j])
                < key && forall|i: int|
                0 <= i < innings.len() && innings[i].counts.len() > 0 && #[trigger] inning_key(
                    innings[i],
                ) < key ==> inning_key(innings[i]) <= inning_key(innings[j]),
            None => forall|i: int|
                0 <= i < innings.len() && innings[i].counts.len() > 0 ==> #[trigger] inning_key(
                    innings[i],
                ) >= key,
        },
    decreases innings.len(),
{
    if innings.len() > 0 {
        let rest = innings.drop_last();
        let n = innings.len() - 1;
        lemma_prev_with_counts_greatest(rest, key);
        if let Some(r) = prev_with_counts(rest, key) {
            assert(rest[r] == innings[r]);
        }
        match prev_with_counts(innings, key) {
            Some(j) => {
                assert forall|i: int|
                    0 <= i < innings.len() && innings[i].counts.len() > 0 && #[trigger] inning_key(
                        innings[i],
                    ) < key implies inning_key(innings[i]) <= inning_key(innings[j]) by {
                    if i < n {
                        assert(rest[i] == innings[i]);
                    }
                }
            },
            None => {
                assert forall|i: int|
                    0 <= i < innings.len() && innings[i].counts.len() > 0 implies #[trigger] inning_key(
                        innings[i],
                    ) >= key by {
                    if i < n {
                        assert(rest[i] == innings[i]);
                    }
                }
            },
        }
    }
}

/// In a game that stores each half inning once, a half inning is found at the index it
/// stands at.
proof fn lemma_inning_index_of(game: GameDetail, j: int)
    requires
        game.wf(),
        0 <= j < game.innings@.len(),
    ensures
        inning_index(game.innings@, game.innings@[j].seq, game.innings@[j].tb) == Some(j),
{
    let innings = game.innings@;
    lemma_inning_found(innings, j);
    lemma_inning_index_bounds(innings, innings[j].seq, innings[j].tb);
    let i = inning_index(innings, innings[j].seq, innings[j].tb).unwrap();
    assert(inning_key(innings[i]) == inning_key(innings[j]));
    if i < j {
        assert(inning_key(innings[i]) != inning_key(innings[j]));
    } else if j < i {
        assert(inning_key(innings[j]) != inning_key(innings[i]));
    }
}

/// In a game that stores each half inning once, two half innings with the same key
/// are the same one.
proof fn lemma_key_identifies(game: GameDetail, i: int, j: int)
    requires
        game.wf(),
        0 <= i < game.innings@.len(),
        0 <= j < game.innings@.len(),
        inning_key(game.innings@[i]) == inning_key(game.innings@[j]),
    ensures
        i == j,
{
    if i < j {
        assert(inning_key(game.innings@[i]) != inning_key(game.innings@[j]));
    } else if j < i {
        assert(inning_key(game.innings@[j]) != inning_key(game.innings@[i]));
    }
}

impl GameCursor {
    /// The cursor over the same game, moved to `pos`: inning, side, count and whether
    /// the unplayed bottom of the last inning has been passed.
    pub open spec fn at(self, pos: (u8, TB, u16, bool)) -> GameCursor {
        GameCursor {
            game: self.game,
            inning_seq: pos.0,
            inning_tb: pos.1,
            count_seq: pos.2,
            is_last_bottom_inning_skiped: pos.3,
        }
    }

    /// The cursor stands on a count of a half inning with counts.
    pub open spec fn on_count(self) -> bool {
        &&& self.has_current_inning()
        &&& self.detail().wf()
        &&& self.spec_current_inning().counts@.len() > 0
        &&& self.spec_min_count_seq() <= self.count_seq <= self.spec_max_count_seq()
    }
}

/// Stepping forward and then back returns the cursor to the count it stood on, within
/// a half inning and from the last count of one half inning to the first of the next
/// alike, wherever a step forward moves it.
pub proof fn lemma_prev_undoes_next(c: GameCursor)
    requires
        c.on_count(),
        c.count_seq != c.spec_max_count_seq() || c.spec_next_inning_cursor() is Some,
    ensures
        ({
            let back = c.at(c.spec_next()).spec_prev();
            back.0 == c.inning_seq && back.1 == c.inning_tb && back.2 == c.count_seq
        }),
{
    let innings = c.detail().innings@;
    let ci = c.current_index().unwrap();
    lemma_inning_index_bounds(innings, c.inning_seq, c.inning_tb);
    if c.count_seq == c.spec_max_count_seq() {
        let key = inning_key(innings[ci]);
        lemma_next_with_counts_least(innings, key);
        let j = next_with_counts(innings, key).unwrap();
        lemma_inning_index_of(c.detail(), j);
        let moved = c.at(c.spec_next());
        assert(moved.current_index() == Some(j));
        lemma_prev_with_counts_greatest(innings, inning_key(innings[j]));
        assert(inning_key(innings[ci]) < inning_key(innings[j]));
        let i = prev_with_counts(innings, inning_key(innings[j])).unwrap();
        assert(inning_key(innings[ci]) <= inning_key(innings[i]));
        if inning_key(innings[ci]) < inning_key(innings[i]) {
            assert(inning_key(innings[j]) <= inning_key(innings[i]));
        }
        lemma_key_identifies(c.detail(), i, ci);
    }
}

/// Stepping back and then forward returns the cursor to the count it stood on, within
/// a half inning and from the first count of one half inning to the last of the one
/// before alike, wherever a step back moves it.
pub proof fn lemma_next_undoes_prev(c: GameCursor)
    requires
        c.on_count(),
        c.count_seq != c.spec_min_count_seq() || c.spec_prev_inning_cursor() is Some,
    ensures
        ({
            let back = c.at(c.spec_prev()).spec_next();
            back.0 == c.inning_seq && back.1 == c.inning_tb && back.2 == c.count_seq
        }),
{
    let innings = c.detail().innings@;
    let ci = c.current_index().unwrap();
    lemma_inning_index_bounds(innings, c.inning_seq, c.inning_tb);
    if c.count_seq == c.spec_min_count_seq() {
        let key = inning_key(innings[ci]);
        lemma_prev_with_counts_greatest(innings, key);
        let j = prev_with_counts(innings, key).unwrap();
        lemma_inning_index_of(c.detail(), j);
        let moved = c.at(c.spec_prev());
        assert(moved.current_index() == Some(j));
        lemma_next_with_counts_least(innings, inning_key(innings[j]));
        assert(inning_key(innings[j]) < inning_key(innings[ci]));
        let i = next_with_counts(innings, inning_key(innings[j])).unwrap();
        assert(inning_key(innings[i]) <= inning_key(innings[ci]));
        if inning_key(innings[i]) < inning_key(innings[ci]) {
            assert(inning_key(innings[i]) <= inning_key(innings[j]));
        }
        lemma_key_identifies(c.detail(), i, ci);
    }
}

/// How many of player `id`'s batting records in `bs` have result `r`.
pub open spec fn results_of(bs: Seq<PlayerGameBattingView>, id: i64, r: BattingResult) -> nat
    decreases bs.len(),
{
    if bs.len() == 0 {
        0
    } else {
        results_of(bs.drop_last(), id, r) + if bs.last().batter.id == id && bs.last().result == r {
            1nat
        } else {
            0nat
        }
    }
}

/// Each figure of a batter's totals counts the results it names: doubles the doubles,
/// triples the triples, home runs the home runs; hits are the singles, doubles, triples and
/// home runs; at-bats are the hits and the outs made at bat (outs, double plays, fielder's
/// choices, strikeouts); plate appearances are the at-bats, walks and hit batsmen.
pub proof fn lemma_tally_counts_results(bs: Seq<PlayerGameBattingView>, id: i64)
    ensures
        tally(bs, id).3 == results_of(bs, id, BattingResult::Double),
        tally(bs, id).4 == results_of(bs, id, BattingResult::Triple),
        tally(bs, id).5 == results_of(bs, id, BattingResult::HomeRun),
        tally(bs, id).2 == results_of(bs, id, BattingResult::Single) + results_of(
            bs,
            id,
            BattingResult::Double,
        ) + results_of(bs, id, BattingResult::Triple) + results_of(bs, id, BattingResult::HomeRun),
        tally(bs, id).1 == tally(bs, id).2 + results_of(bs, id, BattingResult::Out) + results_of(
            bs,
            id,
            BattingResult::DoublePlay,
        ) + results_of(bs, id, BattingResult::FieldersChoice) + results_of(
            bs,
            id,
            BattingResult::Strikeout,
        ),
        tally(bs, id).0 == tally(bs, id).1 + results_of(bs, id, BattingResult::Walk) + results_of(
            bs,
            id,
            BattingResult::HitByPitch,
        ),
    decreases bs.len(),
{
    if bs.len() > 0 {
        lemma_tally_counts_results(bs.drop_last(), id);
    }
}

/// A line of the box score counts the batter's records up to the cursor's count: its
/// doubles, triples and home runs are how many of each he has, its hits his singles,
/// doubles, triples and home runs, its at-bats those and his outs at bat, and its plate
/// appearances those and his walks and hit batsmen.
pub proof fn lemma_box_score_counts_results(game: GameDetail, team_id: u16, count_seq: u16)
    requires
        game.player_battings@.len() <= u16::MAX,
    ensures
        forall|a: int|
            0 <= a < box_score(game, team_id, count_seq).len() ==> {
                let s = #[trigger] box_score(game, team_id, count_seq)[a];
                let bs = battings_upto(game.player_battings@, count_seq);
                let id = s.player.id;
                &&& s.doubles == results_of(bs, id, BattingResult::Double)
                &&& s.triples == results_of(bs, id, BattingResult::Triple)
                &&& s.home_runs == results_of(bs, id, BattingResult::HomeRun)
                &&& s.hits == results_of(bs, id, BattingResult::Single) + results_of(
                    bs,
                    id,
                    BattingResult::Double,
                ) + results_of(bs, id, BattingResult::Triple) + results_of(
                    bs,
                    id,
                    BattingResult::HomeRun,
                )
                &&& s.at_bats == s.hits + results_of(bs, id, BattingResult::Out) + results_of(
                    bs,
                    id,
                    BattingResult::DoublePlay,
                ) + results_of(bs, id, BattingResult::FieldersChoice) + results_of(
                    bs,
                    id,
                    BattingResult::Strikeout,
                )
                &&& s.plate_appearances == s.at_bats + results_of(bs, id, BattingResult::Walk)
                    + results_of(bs, id, BattingResult::HitByPitch)
            },
{
    let entries = game.player_entries@;
    let rows = rows_below(entries, team_id, 256);
    let bs = battings_upto(game.player_battings@, count_seq);
    let b = box_score(game, team_id, count_seq);
    lemma_rows_below_facts(entries, team_id, 256);
    lemma_battings_upto_len(game.player_battings@, count_seq);
    assert forall|a: int| 0 <= a < b.len() implies ({
        let s = #[trigger] b[a];
        let id = s.player.id;
        &&& s.doubles == results_of(bs, id, BattingResult::Double)
        &&& s.triples == results_of(bs, id, BattingResult::Triple)
        &&& s.home_runs == results_of(bs, id, BattingResult::HomeRun)
        &&& s.hits == results_of(bs, id, BattingResult::Single) + results_of(
            bs,
            id,
            BattingResult::Double,
        ) + results_of(bs, id, BattingResult::Triple) + results_of(bs, id, BattingResult::HomeRun)
        &&& s.at_bats == s.hits + results_of(bs, id, BattingResult::Out) + results_of(
            bs,
            id,
            BattingResult::DoublePlay,
        ) + results_of(bs, id, BattingResult::FieldersChoice) + results_of(
            bs,
            id,
            BattingResult::Strikeout,
        )
        &&& s.plate_appearances == s.at_bats + results_of(bs, id, BattingResult::Walk)
            + results_of(bs, id, BattingResult::HitByPitch)
    }) by {
        let i = rows[a];
        let id = entries[i].player.id;
        assert(b[a] == stat_row(game, team_id, count_seq, i));
        lemma_tally_bound(bs, id);
        lemma_tally_counts_results(bs, id);
    }
}

} // verus!
