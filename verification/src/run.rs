use crate::inventory::InventoryError;
use vstd::prelude::*;

verus! {

#[derive(Debug, Clone, Copy, PartialEq, Eq, Hash, Structural)]
pub enum BlindKind {
    Small,
    Big,
    Boss,
}

/// Phase of a round.
#[derive(Debug, Clone, Copy, PartialEq, Eq, Hash, Structural)]
pub enum Phase {
    Setup,
    Deal,
    Play,
    Score,
    Cleanup,
    Shop,
}

#[derive(Debug, Clone, Copy, PartialEq, Eq, Structural)]
pub enum BlindOutcome {
    Cleared,
    Failed,
}

/// Legacy rule triggers.
#[derive(Debug, Clone, Copy, PartialEq, Eq, Structural)]
pub enum Trigger {
    OnHandStart,
    OnCardPlayed,
    OnScoring,
    OnRoundEnd,
}

/// Why a run action was refused.
#[derive(Debug, Clone, Copy, PartialEq, Eq)]
pub enum RunError {
    MissingBlindRule(BlindKind),
    MissingAnteRule(u8),
    InvalidPhase(Phase),
    NoHandsLeft,
    NoDiscardsLeft,
    InvalidSelection,
    InvalidCardCount,
    HandNotAllowed,
    NotEnoughMoney,
    ShopNotAvailable,
    InvalidOfferIndex,
    InvalidJokerIndex,
    BlindNotCleared,
    PackNotAvailable,
    CannotSkipBoss,
    Inventory(InventoryError),
}

} // verus!
