use heart7::desk::Desk;
use heart7::game::Card;
use heart7::proto::{CardInfo, CardSuit, Play};

fn card(suit: CardSuit, num: u32) -> Card {
    Card { suit, num }
}

fn info(suit: i32, num: u32) -> CardInfo {
    CardInfo { suit, num }
}

fn sorted(mut v: Vec<Card>) -> Vec<Card> {
    v.sort();
    v
}

#[test]
fn first_candidate_is_seven_of_hearts() {
    let d = Desk::default();
    assert_eq!(d.discard_candidates(true), vec![card(CardSuit::Heart, 7)]);
    assert!(d.is_valid_discard(&card(CardSuit::Heart, 7), true));
    assert!(!d.is_valid_discard(&card(CardSuit::Spade, 7), true));
    // an empty desk after the first play takes any seven
    assert_eq!(
        sorted(d.discard_candidates(false)),
        vec![
            card(CardSuit::Spade, 7),
            card(CardSuit::Heart, 7),
            card(CardSuit::Club, 7),
            card(CardSuit::Diamond, 7)
        ]
    );
}

#[test]
fn candidates_grow_from_both_ends() {
    let mut d = Desk::default();
    d.update(&Play::Discard(info(1, 7)), 2);
    assert_eq!(
        sorted(d.discard_candidates(false)),
        vec![
            card(CardSuit::Spade, 7),
            card(CardSuit::Heart, 6),
            card(CardSuit::Heart, 8),
            card(CardSuit::Club, 7),
            card(CardSuit::Diamond, 7)
        ]
    );
    d.update(&Play::Discard(info(1, 6)), 3);
    d.update(&Play::Discard(info(1, 8)), 0);
    assert!(d.is_valid_discard(&card(CardSuit::Heart, 5), false));
    assert!(d.is_valid_discard(&card(CardSuit::Heart, 9), false));
    assert!(!d.is_valid_discard(&card(CardSuit::Heart, 7), false));
    // a held card does not change the desk
    d.update(&Play::Hold(info(1, 5)), 1);
    let r = d.get_desk_result();
    let hearts: Vec<(Option<CardInfo>, u32)> = r.heart.iter().map(|c| (c.card, c.whose)).collect();
    assert_eq!(hearts, vec![(Some(info(1, 6)), 3), (Some(info(1, 7)), 2), (Some(info(1, 8)), 0)]);
    assert!(r.spade.is_empty());
}

#[test]
fn ace_and_king_close_a_chain() {
    let mut d = Desk::default();
    d.update(&Play::Discard(info(0, 7)), 0);
    for n in (1..7).rev() {
        d.update(&Play::Discard(info(0, n)), 0);
    }
    for n in 8..14 {
        d.update(&Play::Discard(info(0, n)), 0);
    }
    let c = d.discard_candidates(false);
    assert!(!c.iter().any(|x| x.suit == CardSuit::Spade));
    assert_eq!(c.len(), 3);
}

#[test]
fn chain_info_reports_ends_and_round() {
    let mut d = Desk::default();
    assert!(d.get_desk_info(&vec![]).heart.is_none());
    d.update(&Play::Discard(info(1, 7)), 0);
    d.update(&Play::Discard(info(1, 8)), 1);
    d.update(&Play::Discard(info(1, 6)), 2);
    let thisround = vec![card(CardSuit::Heart, 6)];
    let di = d.get_desk_info(&thisround);
    let h = di.heart.unwrap();
    assert_eq!(h.front, Some(info(1, 6)));
    assert_eq!(h.back, Some(info(1, 8)));
    assert!(h.front_is_thisround);
    assert!(!h.back_is_thisround);
    assert!(di.spade.is_none());
    assert!(di.club.is_none());
    assert!(di.diamond.is_none());
}

#[test]
fn each_valid_discard_adds_one_card_and_keeps_chains_consecutive() {
    let mut d = Desk::default();
    d.update(&Play::Discard(info(1, 7)), 0);
    let mut laid = 1;
    for round in 0..30u32 {
        let cand = d.discard_candidates(false);
        if cand.is_empty() {
            break;
        }
        let c = cand[(round as usize) % cand.len()];
        assert!(d.is_valid_discard(&c, false));
        d.update(&Play::Discard(c.into_info()), round % 4);
        laid += 1;
        let r = d.get_desk_result();
        let total = r.spade.len() + r.heart.len() + r.club.len() + r.diamond.len();
        assert_eq!(total, laid);
        for chain in [&r.spade, &r.heart, &r.club, &r.diamond] {
            let nums: Vec<u32> = chain.iter().map(|x| x.card.unwrap().num).collect();
            for w in nums.windows(2) {
                assert_eq!(w[0] + 1, w[1]);
            }
            if !nums.is_empty() {
                assert!(nums[0] <= 7 && 7 <= *nums.last().unwrap());
            }
        }
    }
}
