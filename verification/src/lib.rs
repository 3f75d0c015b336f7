//! A verified core for a casino-style card game round: shoe (multi-deck
//! draw/discard pile) management, ace-aware hand valuation, bet validation,
//! a per-seat turn state machine, and the automated decision policies; plus
//! a small verified line-search utility that shares the source tree.
//!
//! Console input and output live outside this crate; randomness enters only
//! through the narrow wrappers in `rng`.

pub mod betting;
pub mod card;
pub mod deck;
pub mod game;
pub mod lando_grep;
pub mod player;
mod rng;
pub mod table;
