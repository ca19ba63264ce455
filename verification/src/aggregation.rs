//! Folding the scores of validated players into a team's total.
//!
//! A player's score is at most 255 and the total at most 65535. Each score
//! is widened to the total's range before it is added. A total that would
//! leave that range is not stored: the fold then gives nothing.

use crate::state::{player_views, Player, PlayerView};
use vstd::prelude::*;

verus! {

/// The sum of the players' scores. A player that is listed twice counts
/// twice.
pub open spec fn score_sum(players: Seq<PlayerView>) -> nat
    decreases players.len(),
{
    if players.len() == 0 {
        0
    } else {
        score_sum(players.drop_last()) + players.last().score as nat
    }
}

/// The total after the players' scores were added to `total`, or nothing
/// where that sum is above 65535.
pub open spec fn total_after(total: u16, players: Seq<PlayerView>) -> Option<u16> {
    if total + score_sum(players) <= u16::MAX {
        Some((total + score_sum(players)) as u16)
    } else {
        None
    }
}

/// Adds the players' scores to `total`.
pub fn add_scores(total: u16, players: &Vec<Player>) -> (sum: Option<u16>)
    ensures
        sum == total_after(total, player_views(players@)),
{
    let ghost views = player_views(players@);
    let mut running: u16 = total;
    let mut i: usize = 0;
    assert(views.take(0) =~= Seq::<PlayerView>::empty());
    while i < players.len()
        invariant
            i <= players.len(),
            views == player_views(players@),
            running == total + score_sum(views.take(i as int)),
        decreases players.len() - i,
    {
        proof {
            assert(views.take(i + 1).drop_last() =~= views.take(i as int));
            lemma_score_sum_grows(views, i + 1);
        }
        let score: u16 = players[i].score as u16;
        match running.checked_add(score) {
            None => {
                return None;
            },
            Some(next) => {
                running = next;
            },
        }
        i += 1;
    }
    assert(views.take(i as int) =~= views);
    Some(running)
}

/// The sum over the first `n` players is no more than the sum over all.
pub proof fn lemma_score_sum_grows(players: Seq<PlayerView>, n: int)
    requires
        0 <= n <= players.len(),
    ensures
        score_sum(players.take(n)) <= score_sum(players),
    decreases players.len(),
{
    if n == players.len() {
        assert(players.take(n) =~= players);
    } else {
        assert(players.drop_last().take(n) =~= players.take(n));
        lemma_score_sum_grows(players.drop_last(), n);
    }
}

/// The sum over two lists put together is the sum of their sums.
pub proof fn lemma_score_sum_concat(first: Seq<PlayerView>, second: Seq<PlayerView>)
    ensures
        score_sum(first + second) == score_sum(first) + score_sum(second),
    decreases second.len(),
{
    if second.len() == 0 {
        assert(first + second =~= first);
    } else {
        assert((first + second).drop_last() =~= first + second.drop_last());
        lemma_score_sum_concat(first, second.drop_last());
    }
}

/// The sum over one player is that player's score.
pub proof fn lemma_score_sum_one(player: PlayerView)
    ensures
        score_sum(seq![player]) == player.score,
{
    let one = seq![player];
    assert(one.drop_last() =~= Seq::<PlayerView>::empty());
    assert(score_sum(one.drop_last()) == 0);
}

/// Taking one player out of a list lowers the sum by that player's score.
pub proof fn lemma_score_sum_remove(players: Seq<PlayerView>, at: int)
    requires
        0 <= at < players.len(),
    ensures
        score_sum(players) == score_sum(players.remove(at)) + players[at].score,
{
    let before = players.take(at);
    let one = seq![players[at]];
    let after = players.skip(at + 1);
    assert(players =~= before + one + after);
    assert(players.remove(at) =~= before + after);
    lemma_score_sum_one(players[at]);
    lemma_score_sum_concat(before, one);
    lemma_score_sum_concat(before + one, after);
    lemma_score_sum_concat(before, after);
}

/// The order of the players does not matter to the sum: two lists that hold
/// the same players, each as often in one as in the other, have the same
/// sum.
pub proof fn law_score_sum_any_order(first: Seq<PlayerView>, second: Seq<PlayerView>)
    requires
        first.to_multiset() == second.to_multiset(),
    ensures
        score_sum(first) == score_sum(second),
    decreases first.len(),
{
    broadcast use vstd::seq_lib::group_to_multiset_ensures;

    assert(first.len() == first.to_multiset().len());
    assert(second.len() == second.to_multiset().len());
    if first.len() == 0 {
        assert(second.len() == 0);
    } else {
        let front = first.drop_last();
        let last = first.last();
        assert(first =~= front.push(last));
        assert(second.to_multiset().count(last) > 0);
        assert(second.contains(last));
        let at = choose|at: int| 0 <= at < second.len() && second[at] == last;
        assert(second.remove(at).to_multiset() =~= front.to_multiset());
        law_score_sum_any_order(front, second.remove(at));
        lemma_score_sum_remove(second, at);
    }
}

} // verus!
