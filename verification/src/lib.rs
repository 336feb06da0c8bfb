//! Real-time multiplayer room coordinator.
//!
//! Users join short-lived rooms identified by a six-character code,
//! synchronize readiness, get dealt hidden roles for a social-deduction
//! game, and run discussion/voting rounds that eliminate one player at a
//! time.  The room registry serializes every mutation and computes the
//! messages that have to be fanned out to the connected participants.

pub mod dashboard;
pub mod foods;
pub mod game_im;
pub mod orders;
pub mod codes;
pub mod errors;
pub mod hub;
pub mod ids;
pub mod laws;
pub mod protocol;
pub mod roles;
pub mod seqs;
pub mod session;
pub mod sign;
pub mod room;
pub mod tally;
pub mod text;
mod rng;
