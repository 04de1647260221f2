use vstd::prelude::*;

verus! {

/// A team's wins and losses in the standings.
#[derive(Clone, Copy, PartialEq, Eq, Structural, Debug)]
pub struct WinLoss {
    pub wins: u16,
    pub losses: u16,
}

/// Twice the games a team stands behind the leader: the leader's surplus of wins plus
/// the team's surplus of losses.
pub open spec fn spec_games_behind_halves(leader: WinLoss, team: WinLoss) -> int {
    (leader.wins - team.wins) + (team.losses - leader.losses)
}

/// Whether no team of `rows` has more wins or fewer losses than the first, the team
/// ranked at the top of the standings.
pub open spec fn leader_dominates(rows: Seq<WinLoss>) -> bool {
    rows.len() > 0 && forall|i: int|
        0 <= i < rows.len() ==> #[trigger] rows[i].wins <= rows[0].wins && rows[0].losses
            <= rows[i].losses
}

/// Games behind of each team of standings already ranked, counted in half games: the
/// first row is the leader, and each team's figure is the leader's surplus of wins plus
/// the team's surplus of losses. The leader's own figure is zero.
pub fn games_behind_halves(rows: &Vec<WinLoss>) -> (gb: Vec<u32>)
    requires
        leader_dominates(rows@),
    ensures
        gb@.len() == rows@.len(),
        forall|i: int|
            0 <= i < rows@.len() ==> #[trigger] gb@[i] == spec_games_behind_halves(
                rows@[0],
                rows@[i],
            ),
{
    let leader = rows[0];
    let mut gb: Vec<u32> = Vec::new();
    let mut i: usize = 0;
    while i < rows.len()
        invariant
            i <= rows@.len(),
            leader == rows@[0],
            leader_dominates(rows@),
            gb@.len() == i,
            forall|k: int|
                0 <= k < i ==> #[trigger] gb@[k] == spec_games_behind_halves(rows@[0], rows@[k]),
        decreases rows@.len() - i,
    {
        let row = rows[i];
        assert(row.wins <= leader.wins && leader.losses <= row.losses);
        let win_diff: u32 = (leader.wins - row.wins) as u32;
        let loss_diff: u32 = (row.losses - leader.losses) as u32;
        gb.push(win_diff + loss_diff);
        i = i + 1;
    }
    gb
}

} // verus!
