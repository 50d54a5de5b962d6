use vstd::prelude::*;

use crate::dice::roll;
use crate::prime::{is_prime, prime};

verus! {

/// The result that reports a win for Alice.
pub const ALICE: u32 = 1;

/// The result that reports a win for Bob.
pub const BOB: u32 = 0;

/// The most rounds that `play` runs before it gives up on a game. It lies far
/// beyond the length of any game the dice produce in practice.
pub const MAX_ROUNDS: u64 = 1_099_511_627_776;

/// A round with total `roll` scores for Alice.
pub open spec fn alice_scores(roll: u32) -> bool {
    prime(roll as nat)
}

/// A round with total `roll` scores for Bob: the total is not prime and
/// is odd in the bonus variant, even in the original one.
pub open spec fn bob_scores(roll: u32, bonus_state: bool) -> bool {
    &&& !prime(roll as nat)
    &&& roll % 2 == (if bonus_state { 1u32 } else { 0u32 })
}

/// The scores after a round with total `roll`, from Alice at `a` and Bob
/// at `b`. A round that scores for nobody is void and changes nothing.
pub open spec fn next_scores(a: nat, b: nat, roll: u32, bonus_state: bool) -> (nat, nat) {
    if alice_scores(roll) {
        (a + 1, b)
    } else if bob_scores(roll, bonus_state) {
        (a, b + 1)
    } else {
        (a, b)
    }
}

/// The winner decided by a round with total `roll`, from Alice at `a` and
/// Bob at `b`, when the target is `n`; `None` when the game goes on.
pub open spec fn round_winner(a: nat, b: nat, roll: u32, n: nat, bonus_state: bool) -> Option<u32> {
    if alice_scores(roll) {
        if a + 1 >= n {
            Some(ALICE)
        } else {
            None
        }
    } else if bob_scores(roll, bonus_state) {
        if b + 1 >= n {
            Some(BOB)
        } else {
            None
        }
    } else {
        None
    }
}

/// The game played on the totals `rolls` from index `i` on, with Alice at
/// `a` and Bob at `b`: the winner and the index just past the deciding
/// round, or `None` when the totals run out first.
pub open spec fn outcome(rolls: Seq<u32>, i: nat, a: nat, b: nat, n: nat, bonus_state: bool) -> Option<(u32, nat)>
    decreases rolls.len() - i,
{
    if i >= rolls.len() {
        None
    } else {
        match round_winner(a, b, rolls[i as int], n, bonus_state) {
            Some(w) => Some((w, i + 1)),
            None => {
                let (a2, b2) = next_scores(a, b, rolls[i as int], bonus_state);
                outcome(rolls, i + 1, a2, b2, n, bonus_state)
            },
        }
    }
}

/// A game never ends in a tie: when it is decided, the winner is Alice or
/// Bob, and the deciding round lies among the totals given.
pub proof fn lemma_no_tie(rolls: Seq<u32>, i: nat, a: nat, b: nat, n: nat, bonus_state: bool)
    ensures
        outcome(rolls, i, a, b, n, bonus_state) matches Some((w, e)) ==> {
            &&& w == ALICE || w == BOB
            &&& i < e <= rolls.len()
        },
    decreases rolls.len() - i,
{
    if i < rolls.len() && round_winner(a, b, rolls[i as int], n, bonus_state) is None {
        let (a2, b2) = next_scores(a, b, rolls[i as int], bonus_state);
        lemma_no_tie(rolls, i + 1, a2, b2, n, bonus_state);
    }
}

/// A decided game is decided by the totals up to its deciding round: more
/// totals after them change nothing.
pub proof fn lemma_outcome_extends(
    rolls: Seq<u32>,
    more: Seq<u32>,
    i: nat,
    a: nat,
    b: nat,
    n: nat,
    bonus_state: bool,
)
    requires
        outcome(rolls, i, a, b, n, bonus_state) is Some,
    ensures
        outcome(rolls + more, i, a, b, n, bonus_state) == outcome(rolls, i, a, b, n, bonus_state),
    decreases rolls.len() - i,
{
    assert((rolls + more)[i as int] == rolls[i as int]);
    if round_winner(a, b, rolls[i as int], n, bonus_state) is None {
        let (a2, b2) = next_scores(a, b, rolls[i as int], bonus_state);
        lemma_outcome_extends(rolls, more, i + 1, a2, b2, n, bonus_state);
    }
}

/// The state of one game: the target, the rule variant and both scores.
pub struct Game {
    pub n: u32,
    pub bonus_state: bool,
    pub alice_pts: u32,
    pub bob_pts: u32,
}

impl Game {
    /// Both scores can still go up by one.
    pub open spec fn wf(&self) -> bool {
        &&& self.alice_pts < u32::MAX
        &&& self.bob_pts < u32::MAX
    }

    /// A game to `n` points under the given rule variant, at no points each.
    pub fn new(n: u32, bonus_state: bool) -> (g: Game)
        ensures
            g.wf(),
            g == (Game { n, bonus_state, alice_pts: 0, bob_pts: 0 }),
    {
        Game { n, bonus_state, alice_pts: 0, bob_pts: 0 }
    }

    /// Plays one round with the total `roll`: scores it, and returns the
    /// winner when that round decides the game.
    pub fn play_round(&mut self, roll: u32) -> (r: Option<u32>)
        requires
            old(self).wf(),
        ensures
            r == round_winner(
                old(self).alice_pts as nat,
                old(self).bob_pts as nat,
                roll,
                old(self).n as nat,
                old(self).bonus_state,
            ),
            (final(self).alice_pts as nat, final(self).bob_pts as nat) == next_scores(
                old(self).alice_pts as nat,
                old(self).bob_pts as nat,
                roll,
                old(self).bonus_state,
            ),
            final(self).n == old(self).n,
            final(self).bonus_state == old(self).bonus_state,
            r is None ==> final(self).wf(),
    {
        if is_prime(roll) {
            self.alice_pts = self.alice_pts + 1;
            if self.alice_pts >= self.n {
                return Some(ALICE);
            }
        } else if roll % 2 == (if self.bonus_state { 1u32 } else { 0u32 }) {
            self.bob_pts = self.bob_pts + 1;
            if self.bob_pts >= self.n {
                return Some(BOB);
            }
        }
        None
    }
}

/// Plays one game to `n` points on the totals `rolls`, from index `start`
/// on, and returns the winner with the index just past the deciding round;
/// `None` when the totals run out before the game is decided.
pub fn play_with_rolls(rolls: &Vec<u32>, start: usize, n: u32, bonus_state: bool) -> (r: Option<(u32, usize)>)
    ensures
        match r {
            Some((w, e)) => outcome(rolls@, start as nat, 0, 0, n as nat, bonus_state) == Some((w, e as nat)),
            None => outcome(rolls@, start as nat, 0, 0, n as nat, bonus_state) is None,
        },
{
    let mut game = Game::new(n, bonus_state);
    let mut i: usize = start;
    while i < rolls.len()
        invariant
            game.wf(),
            game.n == n,
            game.bonus_state == bonus_state,
            outcome(rolls@, start as nat, 0, 0, n as nat, bonus_state) == outcome(
                rolls@,
                i as nat,
                game.alice_pts as nat,
                game.bob_pts as nat,
                n as nat,
                bonus_state,
            ),
        decreases rolls.len() - i,
    {
        if let Some(w) = game.play_round(rolls[i]) {
            return Some((w, i + 1));
        }
        i = i + 1;
    }
    None
}

/// Plays one game to `n` points on fresh rolls of the dice and returns its
/// winner, `ALICE` or `BOB`; each round is scored by `Game::play_round`.
/// Which side wins depends on the dice, so the contract rules out any other
/// value and nothing more. Returns `None` only when `MAX_ROUNDS` rounds pass
/// without a decision.
pub fn play(n: u32, bonus_state: bool) -> (r: Option<u32>)
    ensures
        r matches Some(w) ==> w == ALICE || w == BOB,
{
    let mut game = Game::new(n, bonus_state);
    let mut rounds: u64 = 0;
    while rounds < MAX_ROUNDS
        invariant
            game.wf(),
            game.n == n,
            game.bonus_state == bonus_state,
        decreases MAX_ROUNDS - rounds,
    {
        if let Some(w) = game.play_round(roll()) {
            return Some(w);
        }
        rounds = rounds + 1;
    }
    None
}

} // verus!
