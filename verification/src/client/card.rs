//! How a card is written on the terminal: a glyph for its suit and one for
//! its rank, and the ways a card can be drawn.

use vstd::prelude::*;
use crate::proto::CardSuit;
use crate::game::Card;

verus! {

/// The ways a card is drawn: whole, as a strip of a fan (standing or
/// lying), face down, marked as held, cut in half, or blank.
#[derive(Clone, Copy, Debug, PartialEq, Eq, Structural)]
pub enum CardAppearance {
    All,
    Vertical,
    Horizontal,
    Empty,
    Hold,
    Half,
    Clear,
    ClearHalf,
}

/// The glyph of a suit.
pub open spec fn suit_glyph(s: CardSuit) -> Seq<char> {
    match s {
        CardSuit::Spade => "󰣑"@,
        CardSuit::Heart => "󰣐"@,
        CardSuit::Club => "󰣎"@,
        CardSuit::Diamond => "󰣏"@,
    }
}

/// The glyph of a rank from 1 (ace) to 13 (king).
pub open spec fn num_glyph(n: u32) -> Seq<char> {
    if n == 1 {
        "󰫮"@
    } else if n == 2 {
        "󰬻"@
    } else if n == 3 {
        "󰬼"@
    } else if n == 4 {
        "󰬽"@
    } else if n == 5 {
        "󰬾"@
    } else if n == 6 {
        "󰬿"@
    } else if n == 7 {
        "󰭀"@
    } else if n == 8 {
        "󰭁"@
    } else if n == 9 {
        "󰭂"@
    } else if n == 10 {
        "󰿩"@
    } else if n == 11 {
        "󰫷"@
    } else if n == 12 {
        "󰫾"@
    } else {
        "󰫸"@
    }
}

/// The glyphs of a card: its suit and its rank. Only the ranks of a deck
/// have a glyph.
pub fn get_card_text(card: &Card) -> (r: (String, String))
    requires
        1 <= card.num <= 13,
    ensures
        r.0@ == suit_glyph(card.suit),
        r.1@ == num_glyph(card.num),
{
    let suit = match card.suit {
        CardSuit::Spade => "󰣑".to_owned(),
        CardSuit::Heart => "󰣐".to_owned(),
        CardSuit::Club => "󰣎".to_owned(),
        CardSuit::Diamond => "󰣏".to_owned(),
    };
    let num = match card.num {
        1 => "󰫮".to_owned(),
        2 => "󰬻".to_owned(),
        3 => "󰬼".to_owned(),
        4 => "󰬽".to_owned(),
        5 => "󰬾".to_owned(),
        6 => "󰬿".to_owned(),
        7 => "󰭀".to_owned(),
        8 => "󰭁".to_owned(),
        9 => "󰭂".to_owned(),
        10 => "󰿩".to_owned(),
        11 => "󰫷".to_owned(),
        12 => "󰫾".to_owned(),
        _ => "󰫸".to_owned(),
    };
    (suit, num)
}

} // verus!
