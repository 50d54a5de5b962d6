use vstd::prelude::*;

use crate::game::{lemma_outcome_extends, outcome, play, play_with_rolls, ALICE, BOB};

verus! {

/// The target of the original variant, in which Bob scores on even totals.
pub const NORMAL_TARGET: u32 = 13;

/// The target of the bonus variant, in which Bob scores on odd totals.
pub const BONUS_TARGET: u32 = 300;

/// The number of games played for each variant by the experiment.
pub const RUNS: u32 = 100_000;

/// The winners of `runs` games played one after another on the totals
/// `rolls` from index `i` on, each game starting just past the round that
/// decided the one before; `None` when the totals run out first.
pub open spec fn replay(rolls: Seq<u32>, i: nat, runs: nat, n: nat, bonus_state: bool) -> Option<Seq<u32>>
    decreases runs,
{
    if runs == 0 {
        Some(Seq::empty())
    } else {
        match outcome(rolls, i, 0, 0, n, bonus_state) {
            None => None,
            Some((w, e)) => match replay(rolls, e, (runs - 1) as nat, n, bonus_state) {
                None => None,
                Some(ws) => Some(seq![w] + ws),
            },
        }
    }
}

/// The number of games in `winners` that Alice won.
pub open spec fn alice_wins(winners: Seq<u32>) -> nat
    decreases winners.len(),
{
    if winners.len() == 0 {
        0
    } else {
        alice_wins(winners.drop_last()) + if winners.last() == ALICE {
            1nat
        } else {
            0nat
        }
    }
}

/// Each of `winners` names Alice or Bob.
pub open spec fn all_decided(winners: Seq<u32>) -> bool {
    forall|k: int| 0 <= k < winners.len() ==> #[trigger] winners[k] == ALICE || winners[k] == BOB
}

proof fn lemma_alice_wins_bound(winners: Seq<u32>)
    ensures
        alice_wins(winners) <= winners.len(),
    decreases winners.len(),
{
    if winners.len() > 0 {
        lemma_alice_wins_bound(winners.drop_last());
    }
}

/// Counts the games in `winners` that Alice won.
pub fn tally(winners: &Vec<u32>) -> (r: u32)
    requires
        winners@.len() <= u32::MAX,
    ensures
        r == alice_wins(winners@),
{
    let mut wins: u32 = 0;
    let mut i: usize = 0;
    while i < winners.len()
        invariant
            i <= winners@.len(),
            winners@.len() <= u32::MAX,
            wins == alice_wins(winners@.take(i as int)),
            wins <= i,
        decreases winners.len() - i,
    {
        proof {
            assert(winners@.take(i + 1).drop_last() =~= winners@.take(i as int));
        }
        if winners[i] == ALICE {
            wins = wins + 1;
        }
        i = i + 1;
    }
    proof {
        assert(winners@.take(i as int) =~= winners@);
    }
    wins
}

/// Replayed games are reproduced exactly from the totals they used: a
/// source that goes on past them gives the same winners.
pub proof fn lemma_replay_extends(rolls: Seq<u32>, more: Seq<u32>, i: nat, runs: nat, n: nat, bonus_state: bool)
    requires
        replay(rolls, i, runs, n, bonus_state) is Some,
    ensures
        replay(rolls + more, i, runs, n, bonus_state) == replay(rolls, i, runs, n, bonus_state),
    decreases runs,
{
    if runs > 0 {
        lemma_outcome_extends(rolls, more, i, 0, 0, n, bonus_state);
        let e = outcome(rolls, i, 0, 0, n, bonus_state).unwrap().1;
        lemma_replay_extends(rolls, more, e, (runs - 1) as nat, n, bonus_state);
    }
}

/// Plays `runs` games to `n` points one after another on the totals
/// `rolls`, each starting just past the round that decided the one before.
/// Returns the winners in order with the number of Alice's wins, or `None`
/// when the totals run out first.
pub fn replay_games(rolls: &Vec<u32>, runs: u32, n: u32, bonus_state: bool) -> (r: Option<(Vec<u32>, u32)>)
    ensures
        match r {
            Some((ws, wins)) => {
                &&& replay(rolls@, 0, runs as nat, n as nat, bonus_state) == Some(ws@)
                &&& wins == alice_wins(ws@)
            },
            None => replay(rolls@, 0, runs as nat, n as nat, bonus_state) is None,
        },
{
    let mut winners: Vec<u32> = Vec::new();
    let mut pos: usize = 0;
    let mut k: u32 = 0;
    while k < runs
        invariant
            k <= runs,
            winners@.len() == k,
            replay(rolls@, 0, runs as nat, n as nat, bonus_state) == match replay(
                rolls@,
                pos as nat,
                (runs - k) as nat,
                n as nat,
                bonus_state,
            ) {
                None => None,
                Some(ws) => Some(winners@ + ws),
            },
        decreases runs - k,
    {
        let ghost old_winners = winners@;
        match play_with_rolls(rolls, pos, n, bonus_state) {
            None => {
                return None;
            },
            Some((w, e)) => {
                winners.push(w);
                proof {
                    let rest = replay(rolls@, e as nat, (runs - k - 1) as nat, n as nat, bonus_state);
                    if let Some(ws) = rest {
                        assert(old_winners + (seq![w] + ws) =~= winners@ + ws);
                    }
                }
                pos = e;
            },
        }
        k = k + 1;
    }
    proof {
        assert(winners@ + Seq::empty() =~= winners@);
    }
    let wins = tally(&winners);
    Some((winners, wins))
}

/// Plays `runs` games of each variant on fresh rolls of the dice and
/// returns how many of them Alice won: first in the original variant to
/// `NORMAL_TARGET`, then in the bonus variant to `BONUS_TARGET`. Which side
/// wins each game depends on the dice, so the counts are stated of the
/// winners `play` reported. Returns `None` only when a game stays undecided
/// for `MAX_ROUNDS` rounds; with no games to play it always succeeds.
pub fn experiment(runs: u32) -> (r: Option<(u32, u32)>)
    ensures
        runs == 0 ==> r == Some((0u32, 0u32)),
        r matches Some((normal, bonus)) ==> {
            &&& normal <= runs
            &&& bonus <= runs
            &&& exists|ws1: Seq<u32>, ws2: Seq<u32>|
                {
                    &&& ws1.len() == runs
                    &&& ws2.len() == runs
                    &&& all_decided(ws1)
                    &&& all_decided(ws2)
                    &&& normal == #[trigger] alice_wins(ws1)
                    &&& bonus == #[trigger] alice_wins(ws2)
                }
        },
{
    let mut normal_winners: Vec<u32> = Vec::new();
    let mut bonus_winners: Vec<u32> = Vec::new();
    let mut k: u32 = 0;
    while k < runs
        invariant
            k <= runs,
            normal_winners@.len() == k,
            bonus_winners@.len() == k,
            all_decided(normal_winners@),
            all_decided(bonus_winners@),
        decreases runs - k,
    {
        let w1 = match play(NORMAL_TARGET, false) {
            Some(w) => w,
            None => {
                return None;
            },
        };
        let w2 = match play(BONUS_TARGET, true) {
            Some(w) => w,
            None => {
                return None;
            },
        };
        normal_winners.push(w1);
        bonus_winners.push(w2);
        k = k + 1;
    }
    let normal = tally(&normal_winners);
    let bonus = tally(&bonus_winners);
    proof {
        lemma_alice_wins_bound(normal_winners@);
        lemma_alice_wins_bound(bonus_winners@);
        if runs == 0 {
            assert(normal_winners@.len() == 0);
        }
    }
    Some((normal, bonus))
}

} // verus!
