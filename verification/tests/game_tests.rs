use heart7::desk::Desk;
use heart7::error::{Code, RpcError};
use heart7::game::{public_play, Card, Game};
use heart7::proto::{CardInfo, CardSuit, Play};

fn card(suit: CardSuit, num: u32) -> Card {
    Card { suit, num }
}

fn info(suit: i32, num: u32) -> CardInfo {
    CardInfo { suit, num }
}

#[test]
fn card_from_info_maps_suit_numbers() {
    assert_eq!(Card::from_info(&info(0, 1)), card(CardSuit::Spade, 1));
    assert_eq!(Card::from_info(&info(1, 7)), card(CardSuit::Heart, 7));
    assert_eq!(Card::from_info(&info(2, 13)), card(CardSuit::Club, 13));
    assert_eq!(Card::from_info(&info(3, 4)), card(CardSuit::Diamond, 4));
    assert_eq!(Card::from_info(&info(9, 4)), card(CardSuit::Diamond, 4));
    assert_eq!(Card::from_info(&info(-1, 2)), card(CardSuit::Diamond, 2));
}

#[test]
fn card_into_info_and_result() {
    assert_eq!(card(CardSuit::Club, 12).into_info(), info(2, 12));
    let r = card(CardSuit::Heart, 7).into_result(3);
    assert_eq!(r.card, Some(info(1, 7)));
    assert_eq!(r.whose, 3);
}

#[test]
fn ready_twice_is_refused() {
    let mut g = Game::default();
    assert!(!g.is_ready());
    assert!(g.ready().is_ok());
    assert!(g.is_ready());
    let e = g.ready().unwrap_err();
    assert!(matches!(e, RpcError::AlreadyReady));
    assert_eq!(e.code(), Code::AlreadyExists);
    g.unready();
    assert!(!g.is_ready());
}

#[test]
fn add_card_deals_by_deck_number() {
    let mut g = Game::default();
    g.add_card(&19);
    g.add_card(&0);
    g.add_card(&51);
    g.add_card(&38);
    g.add_card(&19);
    let cards = g.get_cards();
    assert_eq!(cards, vec![info(1, 7), info(0, 1), info(3, 13), info(2, 13)]);
    assert!(g.has_cards());
    assert!(g.has_card(&card(CardSuit::Heart, 7)));
    assert!(!g.has_card(&card(CardSuit::Heart, 8)));
    assert_eq!(g.get_holds_num(), 0);
}

#[test]
fn new_game_clears_hand_and_holds() {
    let mut g = Game::default();
    g.add_card(&5);
    g.add_card(&6);
    let _ = g.play_card(&Play::Hold(info(0, 6)));
    assert_eq!(g.get_holds_num(), 1);
    g.new_game();
    assert!(!g.has_cards());
    assert_eq!(g.get_holds_num(), 0);
    assert!(g.get_holds().is_empty());
}

#[test]
fn valid_play_rules() {
    let desk = Desk::default();
    let mut g = Game::default();
    g.add_card(&19); // seven of hearts
    g.add_card(&0); // ace of spades
    // not in the hand
    let e = g.is_valid_play(&desk, &Play::Discard(info(2, 5)), true).unwrap_err();
    assert!(matches!(e, RpcError::NotOwned));
    assert_eq!(e.code(), Code::PermissionDenied);
    // the first card must be the seven of hearts
    let e = g.is_valid_play(&desk, &Play::Discard(info(0, 1)), true).unwrap_err();
    assert!(matches!(e, RpcError::InvalidDiscard));
    assert!(g.is_valid_play(&desk, &Play::Discard(info(1, 7)), true).is_ok());
    // holding is refused while a card fits
    let e = g.is_valid_play(&desk, &Play::Hold(info(0, 1)), true).unwrap_err();
    assert!(matches!(e, RpcError::MustDiscard));
    // without the seven, holding is allowed on the first play
    let mut h = Game::default();
    h.add_card(&0);
    assert!(h.is_valid_play(&desk, &Play::Hold(info(0, 1)), true).is_ok());
    let e = h.is_valid_play(&desk, &Play::Hold(info(0, 2)), true).unwrap_err();
    assert!(matches!(e, RpcError::NotOwned));
}

#[test]
fn play_card_moves_cards() {
    let mut g = Game::default();
    g.add_card(&19);
    g.add_card(&0);
    assert!(g.play_card(&Play::Discard(info(1, 7))).is_ok());
    assert_eq!(g.get_cards(), vec![info(0, 1)]);
    assert_eq!(g.get_holds_num(), 0);
    assert!(g.play_card(&Play::Hold(info(0, 1))).is_ok());
    assert!(!g.has_cards());
    assert_eq!(g.get_holds(), vec![info(0, 1)]);
    assert_eq!(g.get_hold_list().holds, vec![info(0, 1)]);
    // a card that is not in the hand leaves it unchanged
    assert!(g.play_card(&Play::Discard(info(3, 3))).is_ok());
    assert!(!g.has_cards());
}

#[test]
fn held_cards_are_told_blank() {
    assert_eq!(public_play(&Play::Discard(info(2, 9))), Play::Discard(info(2, 9)));
    assert_eq!(public_play(&Play::Hold(info(2, 9))), Play::Hold(info(0, 0)));
}

#[test]
fn cards_convert_into_wire_form() {
    let ci: CardInfo = card(CardSuit::Diamond, 11).into();
    assert_eq!(ci, info(3, 11));
    let r: heart7::proto::CardResult = (card(CardSuit::Spade, 7), 2u32).into();
    assert_eq!(r.card, Some(info(0, 7)));
    assert_eq!(r.whose, 2);
}
