//! A multi-round, pay-to-enter tournament protocol: players pay a fixed
//! entry fee into a pooled escrow, play repeated rounds of a
//! choice-matching game, and the organizer later distributes the pool to
//! the top performers and itself. This crate holds the state machine and
//! fund-custody rules; the ledger substrate, currency transfers and the
//! clock live outside it and hand it plain values.

pub mod errors;
pub mod game;
pub mod rng;
pub mod state;
pub mod tournament;
