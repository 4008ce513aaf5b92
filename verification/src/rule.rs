//! The rules of the game as the client side keeps them: the desk with the
//! places of the players who laid each card, and the hand of a player.

pub mod desk;
pub mod player;

use vstd::prelude::*;
use crate::game::Card;
use crate::proto::CardSuit;

verus! {

/// The card that stands for a card held face down by another player.
pub open spec fn spec_dummy_card() -> Card {
    Card { suit: CardSuit::Spade, num: 0 }
}

/// The card that stands for a card held face down by another player.
pub fn dummy_card() -> (c: Card)
    ensures
        c == spec_dummy_card(),
{
    Card { suit: CardSuit::Spade, num: 0 }
}

/// One move of the player at a place: lay a card on the desk, or hold it
/// face down.
#[derive(Clone, Copy, Debug)]
pub enum Play {
    Discard(Card, usize),
    Hold(Card, usize),
}

/// An error of the rules: something that the rules rule out happened.
#[derive(Clone, Debug)]
pub enum GameError {
    Internal(String),
}

/// The outcome of a rule.
pub type GameResult<T> = Result<T, GameError>;

/// The card that a play lays or holds.
pub open spec fn card_of_rule_play(play: Play) -> Card {
    match play {
        Play::Discard(c, _) => c,
        Play::Hold(c, _) => c,
    }
}

} // verus!
