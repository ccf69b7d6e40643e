//! What a player can ask the engine to do.

use vstd::prelude::*;
use crate::card::Card;

verus! {

/// What a one-off is aimed at.
#[derive(Clone, Copy, Debug, PartialEq, Eq, Structural)]
pub enum OneOffTarget {
    /// The one-off is aimed at nothing.
    NoTarget,
    Player { seat: u8 },
    Point { base: Card },
    Royal { card: Card },
    Jack { card: Card },
    Joker { card: Card },
}

/// How a card revealed by a seven is played.
#[derive(Clone, Copy, Debug, PartialEq, Eq, Structural)]
pub enum SevenPlay {
    Points,
    Scuttle { target: Card },
    Royal,
    Jack { target: Card },
    Joker { target: Card },
    OneOff { target: OneOffTarget },
    Discard,
}

#[derive(Clone, Copy, Debug, PartialEq, Eq, Structural)]
pub enum Action {
    Draw,
    Pass,
    PlayPoints { card: Card },
    Scuttle { card: Card, target_point_base: Card },
    PlayRoyal { card: Card },
    PlayJack { jack: Card, target_point_base: Card },
    PlayJoker { joker: Card, target_royal_card: Card },
    PlayOneOff { card: Card, target: OneOffTarget },
    CounterTwo { two_card: Card },
    CounterPass,
    ResolveThreePick { card_from_scrap: Card },
    ResolveFourDiscard { card: Card },
    ResolveFiveDiscard { card: Card },
    ResolveSevenChoose { card: Card, play: SevenPlay },
}

} // verus!
