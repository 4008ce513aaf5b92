use heart7::game::Card;
use heart7::proto::CardSuit;
use heart7::rule::desk::Desk;
use heart7::rule::player::Player;
use heart7::rule::{dummy_card, GameError, Play};

fn card(suit: CardSuit, num: u32) -> Card {
    Card { suit, num }
}

fn sorted(mut v: Vec<Card>) -> Vec<Card> {
    v.sort();
    v
}

#[test]
fn rule_desk_starts_with_seven_of_hearts() {
    let d = Desk::default();
    assert!(d.is_empty());
    assert_eq!(d.discard_candidates(), vec![card(CardSuit::Heart, 7)]);
    assert!(d.is_discard_candidates(&card(CardSuit::Heart, 7)));
    assert!(!d.is_discard_candidates(&card(CardSuit::Club, 7)));
    assert!(d.someone_has_discard_candidates(&vec![card(CardSuit::Spade, 1), card(CardSuit::Heart, 7)]));
    assert!(!d.someone_has_discard_candidates(&vec![card(CardSuit::Spade, 1)]));
    assert!(!d.someone_has_discard_candidates(&vec![]));
}

#[test]
fn rule_desk_lays_low_cards_in_front() {
    let mut d = Desk::default();
    d.play_card(Play::Discard(card(CardSuit::Heart, 7), 1));
    d.play_card(Play::Discard(card(CardSuit::Heart, 8), 2));
    d.play_card(Play::Discard(card(CardSuit::Heart, 6), 3));
    d.play_card(Play::Hold(card(CardSuit::Spade, 2), 0));
    assert!(!d.is_empty());
    let chain: Vec<(Card, usize)> = d.get_chain(CardSuit::Heart).iter().cloned().collect();
    assert_eq!(
        chain,
        vec![(card(CardSuit::Heart, 6), 3), (card(CardSuit::Heart, 7), 1), (card(CardSuit::Heart, 8), 2)]
    );
    assert!(d.get_chain(CardSuit::Spade).is_empty());
    assert_eq!(
        sorted(d.discard_candidates()),
        vec![
            card(CardSuit::Spade, 7),
            card(CardSuit::Heart, 5),
            card(CardSuit::Heart, 9),
            card(CardSuit::Club, 7),
            card(CardSuit::Diamond, 7)
        ]
    );
    let ex = d.export();
    assert_eq!(ex.len(), 4);
    assert!(ex[0].is_empty());
    assert_eq!(ex[1], vec![card(CardSuit::Heart, 6), card(CardSuit::Heart, 7), card(CardSuit::Heart, 8)]);
    let r = d.get_desk_result();
    let owners: Vec<u32> = r.heart.iter().map(|c| c.whose).collect();
    assert_eq!(owners, vec![3, 1, 2]);
    d.clear();
    assert!(d.is_empty());
}

#[test]
fn rule_player_hand_and_holds() {
    let mut p = Player::new("alice".to_string());
    assert_eq!(p.get_name(), "alice");
    assert!(!p.is_ready());
    p.get_ready();
    assert!(p.is_ready());
    assert!(p.add_card(card(CardSuit::Club, 3)).is_ok());
    assert!(p.add_card(card(CardSuit::Club, 4)).is_ok());
    let e = p.add_card(card(CardSuit::Club, 3)).unwrap_err();
    assert!(matches!(e, GameError::Internal(_)));
    assert_eq!(p.get_card_num(), 2);
    assert!(p.has_card(&card(CardSuit::Club, 4)));
    p.play_card(Play::Hold(card(CardSuit::Club, 4), 0));
    assert!(!p.has_card(&card(CardSuit::Club, 4)));
    assert!(p.is_holding(&card(CardSuit::Club, 4)));
    assert_eq!(p.get_hold_num(), 1);
    assert_eq!(p.get_holds(), vec![card(CardSuit::Club, 4)]);
    p.play_card(Play::Discard(card(CardSuit::Club, 3), 0));
    assert!(!p.has_card_left());
    assert_eq!(p.get_hold_num(), 1);
    p.reset();
    assert!(!p.is_ready());
    assert_eq!(p.get_hold_num(), 0);
    assert_eq!(p.get_name(), "alice");
}

#[test]
fn rule_player_init_cards_keeps_each_once() {
    let mut p = Player::default();
    p.add_card(card(CardSuit::Spade, 9)).unwrap();
    p.play_card(Play::Hold(card(CardSuit::Spade, 9), 0));
    p.init_cards(vec![card(CardSuit::Diamond, 1), card(CardSuit::Diamond, 2), card(CardSuit::Diamond, 1)]);
    assert_eq!(p.get_card_num(), 2);
    assert_eq!(p.get_hold_num(), 0);
    assert_eq!(sorted(p.get_cards()), vec![card(CardSuit::Diamond, 1), card(CardSuit::Diamond, 2)]);
    assert_eq!(p.get_cards_iter().len(), 2);
    p.init_dummy_cards();
    assert_eq!(p.get_cards(), vec![dummy_card()]);
    assert_eq!(dummy_card(), card(CardSuit::Spade, 0));
    p.clear();
    assert!(!p.has_card_left());
}
