use dice_game::dice::{die_range, roll, sum_draws, MAX_TOTAL, MIN_TOTAL};
use dice_game::experiment::{experiment, replay_games, tally};
use dice_game::game::{play, play_with_rolls, Game, ALICE, BOB};
use dice_game::prime::is_prime;

fn sieve(limit: usize) -> Vec<bool> {
    let mut is_p = vec![true; limit + 1];
    is_p[0] = false;
    is_p[1] = false;
    let mut i = 2;
    while i * i <= limit {
        if is_p[i] {
            let mut j = i * i;
            while j <= limit {
                is_p[j] = false;
                j += i;
            }
        }
        i += 1;
    }
    is_p
}

#[test]
fn is_prime_small_values() {
    assert!(!is_prime(0));
    assert!(!is_prime(1));
    assert!(is_prime(2));
    assert!(is_prime(3));
    assert!(!is_prime(4));
    assert!(!is_prime(9));
    assert!(is_prime(97));
    assert!(!is_prime(59 * 59));
}

#[test]
fn is_prime_agrees_with_sieve() {
    let table = sieve(10_000);
    for n in 0..=10_000u32 {
        assert_eq!(is_prime(n), table[n as usize], "n = {}", n);
    }
}

#[test]
fn is_prime_large_values() {
    assert!(is_prime(4_294_967_291));
    assert!(!is_prime(u32::MAX));
    assert!(!is_prime(65_521 * 65_521));
}

#[test]
fn die_ranges() {
    assert_eq!(die_range(9), (0, 9));
    assert_eq!(die_range(4), (1, 4));
    assert_eq!(die_range(20), (1, 20));
}

#[test]
fn roll_stays_in_range_and_varies() {
    let mut seen = vec![false; 60];
    for _ in 0..100_000 {
        let r = roll();
        assert!(MIN_TOTAL <= r && r <= MAX_TOTAL, "roll {}", r);
        seen[r as usize] = true;
    }
    assert_eq!(MIN_TOTAL, 5);
    assert_eq!(MAX_TOTAL, 59);
    assert!(seen.iter().filter(|s| **s).count() > 1);
}

#[test]
fn one_point_games_end_quickly() {
    let trials = 1_000;
    let mut decided = 0;
    for _ in 0..trials {
        let rolls: Vec<u32> = (0..100).map(|_| roll()).collect();
        if let Some((w, e)) = play_with_rolls(&rolls, 0, 1, false) {
            assert!(w == ALICE || w == BOB);
            assert!(e >= 1 && e <= 100);
            decided += 1;
        }
    }
    assert!(decided * 1000 >= trials * 999);
}

#[test]
fn play_never_ties() {
    for _ in 0..10_000 {
        let w = play(13, false).expect("game decided");
        assert!(w == ALICE || w == BOB);
    }
    for _ in 0..1_000 {
        let w = play(1, true).expect("game decided");
        assert!(w == ALICE || w == BOB);
    }
}

#[test]
fn replay_is_reproducible() {
    let rolls: Vec<u32> = vec![2, 4, 9, 6, 3, 8, 10, 5, 7, 12, 11, 4, 4, 13];
    let first = replay_games(&rolls, 4, 2, false);
    let second = replay_games(&rolls, 4, 2, false);
    assert_eq!(first, second);
    let (winners, wins) = first.expect("enough totals");
    assert_eq!(winners, vec![BOB, BOB, ALICE, BOB]);
    assert_eq!(wins, 1);
    let mut longer = rolls.clone();
    longer.extend_from_slice(&[2, 2, 2, 2]);
    assert_eq!(replay_games(&longer, 4, 2, false), Some((winners, wins)));
}

#[test]
fn replay_runs_out_of_totals() {
    let rolls: Vec<u32> = vec![2, 4, 2];
    assert_eq!(replay_games(&rolls, 2, 1, false), Some((vec![ALICE, BOB], 1)));
    assert_eq!(replay_games(&rolls, 4, 1, false), None);
    assert_eq!(replay_games(&rolls, 0, 1, false), Some((vec![], 0)));
}

#[test]
fn stub_prime_alice_wins_first_round() {
    let rolls = vec![2u32; 50];
    assert_eq!(play_with_rolls(&rolls, 0, 1, false), Some((ALICE, 1)));
    assert_eq!(play_with_rolls(&rolls, 0, 1, true), Some((ALICE, 1)));
}

#[test]
fn stub_even_bob_wins_first_round() {
    let rolls = vec![4u32; 50];
    assert_eq!(play_with_rolls(&rolls, 0, 1, false), Some((BOB, 1)));
}

#[test]
fn stub_even_bonus_never_ends() {
    let rolls = vec![4u32; 10_000];
    assert_eq!(play_with_rolls(&rolls, 0, 1, true), None);
}

#[test]
fn odd_nonprime_scores_for_bob_in_bonus() {
    let rolls = vec![9u32, 15, 21];
    assert_eq!(play_with_rolls(&rolls, 0, 3, true), Some((BOB, 3)));
    assert_eq!(play_with_rolls(&rolls, 0, 1, false), None);
}

#[test]
fn play_from_later_start() {
    let rolls = vec![2u32, 4, 4, 3];
    assert_eq!(play_with_rolls(&rolls, 1, 2, false), Some((BOB, 3)));
    assert_eq!(play_with_rolls(&rolls, 3, 1, false), Some((ALICE, 4)));
    assert_eq!(play_with_rolls(&rolls, 4, 1, false), None);
    assert_eq!(play_with_rolls(&rolls, 9, 1, false), None);
}

#[test]
fn zero_target_ends_on_first_scoring_round() {
    let rolls = vec![25u32, 4];
    assert_eq!(play_with_rolls(&rolls, 0, 0, false), Some((BOB, 2)));
    assert_eq!(play_with_rolls(&vec![], 0, 0, false), None);
}

#[test]
fn game_rounds_score_and_decide() {
    let mut g = Game::new(2, false);
    assert_eq!(g.play_round(5), None);
    assert_eq!((g.alice_pts, g.bob_pts), (1, 0));
    assert_eq!(g.play_round(9), None);
    assert_eq!((g.alice_pts, g.bob_pts), (1, 0));
    assert_eq!(g.play_round(8), None);
    assert_eq!((g.alice_pts, g.bob_pts), (1, 1));
    assert_eq!(g.play_round(59), Some(ALICE));
    assert_eq!((g.alice_pts, g.bob_pts), (2, 1));

    let mut b = Game::new(1, true);
    assert_eq!(b.play_round(8), None);
    assert_eq!(b.play_round(27), Some(BOB));
    assert_eq!((b.alice_pts, b.bob_pts), (0, 1));
}

#[test]
fn experiment_counts_lie_within_runs() {
    let (normal, bonus) = experiment(50).expect("games decided");
    assert!(normal <= 50);
    assert!(bonus <= 50);
    assert_eq!(experiment(0), Some((0, 0)));
}

#[test]
fn sum_draws_adds_each_die() {
    assert_eq!(sum_draws(&vec![1, 1, 1, 0, 1, 1]), 5);
    assert_eq!(sum_draws(&vec![4, 6, 8, 9, 12, 20]), 59);
    assert_eq!(sum_draws(&vec![2, 3, 5, 7, 11, 13]), 41);
}

#[test]
fn tally_counts_alice_wins() {
    assert_eq!(tally(&vec![]), 0);
    assert_eq!(tally(&vec![ALICE, BOB, ALICE, ALICE, BOB]), 3);
    assert_eq!(tally(&vec![BOB, BOB]), 0);
}
