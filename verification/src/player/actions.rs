//! The capability interface a directed (human) participant implements: asked
//! for a turn, it answers with one of the legal plays. The console front end
//! outside this crate provides the implementation; nothing here promises
//! anything about it.

use crate::betting::{BetError, Play};
use crate::card::Card;
use vstd::prelude::*;

verus! {

/// Whether the decision opens a round (the initial two-card hand, where
/// doubling is still available) or continues one.
#[derive(Debug, Clone, Copy, PartialEq, Eq, Structural)]
pub enum TurnType {
    Initial,
    MidGame,
}

pub trait PlayerActions {
    fn turn(&mut self, turn_type: TurnType, cards: &[Card]) -> Result<Play, BetError>;
}

} // verus!
