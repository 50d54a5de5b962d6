use rand::Rng;
use vstd::prelude::*;

verus! {

/// The face counts of the six dice rolled each round, in order.
pub open spec fn die_faces() -> Seq<u32> {
    seq![4u32, 6u32, 8u32, 9u32, 12u32, 20u32]
}

/// The lowest value a die with `faces` faces can show: the nine-faced die
/// runs from 0 to 9, every other die from 1 to its face count.
pub open spec fn lowest_face(faces: u32) -> u32 {
    if faces == 9 {
        0
    } else {
        1
    }
}

/// One value for each die, each within that die's range.
pub open spec fn valid_draws(draws: Seq<u32>) -> bool {
    &&& draws.len() == die_faces().len()
    &&& forall|k: int|
        0 <= k < draws.len() ==> lowest_face(die_faces()[k]) <= #[trigger] draws[k] <= die_faces()[k]
}

/// The sum of a sequence of draws.
pub open spec fn total(draws: Seq<u32>) -> int
    decreases draws.len(),
{
    if draws.len() == 0 {
        0
    } else {
        total(draws.drop_last()) + draws.last()
    }
}

/// `r` is the total of one roll of the six dice.
pub open spec fn is_roll_total(r: u32) -> bool {
    exists|draws: Seq<u32>| valid_draws(draws) && total(draws) == r
}

/// The smallest total a roll can give.
pub const MIN_TOTAL: u32 = 5;

/// The largest total a roll can give.
pub const MAX_TOTAL: u32 = 59;

proof fn lemma_partial_total_bounds(draws: Seq<u32>, k: nat)
    requires
        valid_draws(draws),
        k <= draws.len(),
    ensures
        total(draws.take(k as int)) >= total(die_faces().take(k as int).map_values(|f: u32| lowest_face(f))),
        total(draws.take(k as int)) <= total(die_faces().take(k as int)),
    decreases k,
{
    if k > 0 {
        lemma_partial_total_bounds(draws, (k - 1) as nat);
        assert(draws.take(k as int).drop_last() =~= draws.take(k - 1));
        assert(die_faces().take(k as int).drop_last() =~= die_faces().take(k - 1));
        assert(die_faces().take(k as int).map_values(|f: u32| lowest_face(f)).drop_last()
            =~= die_faces().take(k - 1).map_values(|f: u32| lowest_face(f)));
    }
}

/// Every roll total lies between `MIN_TOTAL` and `MAX_TOTAL`.
pub proof fn lemma_roll_total_bounds(draws: Seq<u32>)
    requires
        valid_draws(draws),
    ensures
        MIN_TOTAL <= total(draws) <= MAX_TOTAL,
{
    lemma_partial_total_bounds(draws, 6);
    assert(draws.take(6) =~= draws);
    assert(die_faces().take(6) =~= die_faces());
    reveal_with_fuel(total, 7);
}

/// Relies on rand::thread_rng and Rng::gen_range over an inclusive range:
/// a value from `lo` to `hi`, both included. `gen_range` panics only on an
/// empty range, which `lo <= hi` rules out.
#[verifier::external_body]
fn draw(lo: u32, hi: u32) -> (r: u32)
    requires
        lo <= hi,
    ensures
        lo <= r <= hi,
{
    rand::thread_rng().gen_range(lo..=hi)
}

/// The range of values that a die with `faces` faces can show, both ends
/// included.
pub fn die_range(faces: u32) -> (r: (u32, u32))
    ensures
        r == (lowest_face(faces), faces),
{
    if faces == 9 {
        (0, faces)
    } else {
        (1, faces)
    }
}

/// Adds up one value for each die.
pub fn sum_draws(draws: &Vec<u32>) -> (r: u32)
    requires
        valid_draws(draws@),
    ensures
        r == total(draws@),
{
    let mut sum: u32 = 0;
    let mut i: usize = 0;
    while i < draws.len()
        invariant
            valid_draws(draws@),
            i <= draws@.len(),
            sum == total(draws@.take(i as int)),
            sum <= 20 * i,
        decreases draws.len() - i,
    {
        proof {
            assert(draws@.take(i + 1).drop_last() =~= draws@.take(i as int));
            assert(draws@[i as int] <= die_faces()[i as int]);
        }
        sum = sum + draws[i];
        i = i + 1;
    }
    proof {
        assert(draws@.take(i as int) =~= draws@);
    }
    sum
}

/// Every total from `MIN_TOTAL` to `MAX_TOTAL` is the total of some valid
/// draws, so these are exactly the totals a roll can give.
pub proof fn lemma_every_total_reachable(v: u32)
    requires
        MIN_TOTAL <= v <= MAX_TOTAL,
    ensures
        is_roll_total(v),
{
    let x = v - MIN_TOTAL;
    let e0 = if x < 3 { x } else { 3 };
    let x1 = x - e0;
    let e1 = if x1 < 5 { x1 } else { 5 };
    let x2 = x1 - e1;
    let e2 = if x2 < 7 { x2 } else { 7 };
    let x3 = x2 - e2;
    let e3 = if x3 < 9 { x3 } else { 9 };
    let x4 = x3 - e3;
    let e4 = if x4 < 11 { x4 } else { 11 };
    let e5 = x4 - e4;
    let d: Seq<u32> = seq![
        (1 + e0) as u32,
        (1 + e1) as u32,
        (1 + e2) as u32,
        e3 as u32,
        (1 + e4) as u32,
        (1 + e5) as u32,
    ];
    assert(valid_draws(d));
    reveal_with_fuel(total, 7);
    assert(total(d) == v);
}

/// Rolls the six dice once and returns the sum of the values shown.
pub fn roll() -> (r: u32)
    ensures
        is_roll_total(r),
        MIN_TOTAL <= r <= MAX_TOTAL,
{
    let faces: [u32; 6] = [4, 6, 8, 9, 12, 20];
    assert(faces@ =~= die_faces());
    let mut draws: Vec<u32> = Vec::new();
    let mut i: usize = 0;
    while i < 6
        invariant
            i <= 6,
            faces@ == die_faces(),
            draws@.len() == i,
            forall|k: int|
                0 <= k < i ==> lowest_face(die_faces()[k]) <= #[trigger] draws@[k] <= die_faces()[k],
        decreases 6 - i,
    {
        let (lo, hi) = die_range(faces[i]);
        draws.push(draw(lo, hi));
        i = i + 1;
    }
    let sum = sum_draws(&draws);
    proof {
        lemma_roll_total_bounds(draws@);
    }
    sum
}

} // verus!
