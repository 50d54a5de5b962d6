//! A Monte Carlo model of a two-player dice game: each round six dice are
//! rolled, a prime total scores for Alice, a nonprime total of the right
//! parity scores for Bob, and the first to reach the target wins.

pub mod prime;
pub mod dice;
pub mod game;
pub mod experiment;
