//! The desk of the server: four chains, one per suit, of the cards laid so
//! far together with the place of the player who laid each, and the rule
//! that tells which cards may be laid next.

use vstd::prelude::*;
use std::collections::VecDeque;
use crate::proto::{CardSuit, CardInfo, CardResult, ChainInfo, DeskInfo, DeskResult, Play};
use crate::game::{Card, card_of_info, info_of_card, heart_seven, insert_card, contains_card};

verus! {

/// The cards that may be laid next to one chain of suit `suit`: the seven
/// of that suit while the chain is empty, otherwise the card just below its
/// lowest card (unless that is an ace) and the card just above its highest
/// card (unless that is a king).
pub open spec fn chain_candidates<T>(chain: Seq<(Card, T)>, suit: CardSuit) -> Set<Card> {
    if chain.len() == 0 {
        set![Card { suit, num: 7 }]
    } else {
        let front = chain[0].0.num;
        let back = chain[chain.len() - 1].0.num;
        let lo: Set<Card> = if front != 1 {
            set![Card { suit, num: (front - 1) as u32 }]
        } else {
            Set::empty()
        };
        let hi: Set<Card> = if back != 13 {
            set![Card { suit, num: (back + 1) as u32 }]
        } else {
            Set::empty()
        };
        lo + hi
    }
}

/// The cards that may be laid next to any of four chains.
pub open spec fn four_candidates<T>(
    spade: Seq<(Card, T)>,
    heart: Seq<(Card, T)>,
    club: Seq<(Card, T)>,
    diamond: Seq<(Card, T)>,
) -> Set<Card> {
    chain_candidates(spade, CardSuit::Spade) + chain_candidates(heart, CardSuit::Heart)
        + chain_candidates(club, CardSuit::Club) + chain_candidates(diamond, CardSuit::Diamond)
}

/// The ends of a chain can be stepped past without leaving the range of
/// `u32`: the lowest card is not a zero and the highest is not the largest
/// number.
pub open spec fn chain_fits<T>(chain: Seq<(Card, T)>) -> bool {
    chain.len() > 0 ==> (chain[0].0.num >= 1 && chain[chain.len() - 1].0.num < u32::MAX)
}

/// A chain is a run: cards of its suit with consecutive ranks, lowest first,
/// from at most the seven up to at least the seven, within ace to king.
pub open spec fn is_run<T>(chain: Seq<(Card, T)>, suit: CardSuit) -> bool {
    &&& forall|i: int|
        0 <= i < chain.len() ==> (#[trigger] chain[i]).0.suit == suit && chain[i].0.num == chain[0].0.num + i
    &&& chain.len() > 0 ==> (1 <= chain[0].0.num <= 7 && 7 <= chain[chain.len() - 1].0.num <= 13)
}

/// Where a laid card goes in its chain: below the seven to the front, from
/// the seven on to the back.
pub open spec fn chain_after_lay<T>(chain: Seq<(Card, T)>, c: Card, who: T) -> Seq<(Card, T)> {
    if c.num < 7 {
        seq![(c, who)] + chain
    } else {
        chain.push((c, who))
    }
}

/// What is reported of one chain: nothing while it is empty, otherwise its
/// two ends and whether each was laid in the current round.
pub open spec fn spec_chain_info(thisround: Seq<Card>, chain: Seq<(Card, u32)>) -> Option<ChainInfo> {
    if chain.len() == 0 {
        None
    } else {
        Some(
            ChainInfo {
                front: Some(info_of_card(chain[0].0)),
                back: Some(info_of_card(chain[chain.len() - 1].0)),
                front_is_thisround: thisround.contains(chain[0].0),
                back_is_thisround: thisround.contains(chain[chain.len() - 1].0),
            },
        )
    }
}

/// Every card of a chain in order, in wire form, with its owner.
pub open spec fn spec_chain_result<T>(chain: Seq<(Card, T)>, whose: spec_fn(T) -> u32) -> Seq<CardResult> {
    Seq::new(chain.len(), |i: int| CardResult { card: Some(info_of_card(chain[i].0)), whose: whose(chain[i].1) })
}

/// The owner of a card on the server's desk, as it is reported.
pub open spec fn whose_u32(w: u32) -> u32 {
    w
}

/// Adds the cards that may be laid next to `chain` to a list without
/// repetitions.
pub fn add_chain_candidates<T>(ret: &mut Vec<Card>, chain: &VecDeque<(Card, T)>, suit: CardSuit)
    requires
        old(ret)@.no_duplicates(),
        chain_fits(chain@),
    ensures
        final(ret)@.no_duplicates(),
        final(ret)@.to_set() == old(ret)@.to_set() + chain_candidates(chain@, suit),
{
    if chain.len() == 0 {
        insert_card(ret, Card { suit, num: 7 });
        proof {
            assert(old(ret)@.to_set().insert(Card { suit, num: 7 }) =~= old(ret)@.to_set()
                + chain_candidates(chain@, suit));
        }
    } else {
        let front = chain[0].0.num;
        let ghost r0 = ret@;
        if front != 1 {
            insert_card(ret, Card { suit, num: front - 1 });
        }
        let ghost r1 = ret@;
        let back = chain[chain.len() - 1].0.num;
        if back != 13 {
            insert_card(ret, Card { suit, num: back + 1 });
        }
        proof {
            assert(ret@.to_set() =~= r0.to_set() + chain_candidates(chain@, suit));
        }
    }
}

/// Maps a chain to what is reported of its cards.
fn chain_result(chain: &VecDeque<(Card, u32)>) -> (r: Vec<CardResult>)
    ensures
        r@ == spec_chain_result(chain@, |w: u32| whose_u32(w)),
{
    let mut r: Vec<CardResult> = Vec::new();
    let mut i: usize = 0;
    while i < chain.len()
        invariant
            i <= chain@.len(),
            r@ == spec_chain_result(chain@, |w: u32| whose_u32(w)).take(i as int),
        decreases chain@.len() - i,
    {
        let (c, w) = chain[i];
        r.push(c.into_result(w));
        i = i + 1;
        proof {
            assert(r@ =~= spec_chain_result(chain@, |w: u32| whose_u32(w)).take(i as int));
        }
    }
    proof {
        assert(r@ =~= spec_chain_result(chain@, |w: u32| whose_u32(w)));
    }
    r
}

/// Lays `c` by player `who` into `chain`.
fn lay_into(chain: &mut VecDeque<(Card, u32)>, c: Card, who: u32)
    ensures
        final(chain)@ == chain_after_lay(old(chain)@, c, who),
{
    if c.num < 7 {
        chain.push_front((c, who));
    } else {
        chain.push_back((c, who));
    }
}

/// The desk of the server.
#[derive(Clone, Debug)]
pub struct Desk {
    spade: VecDeque<(Card, u32)>,
    heart: VecDeque<(Card, u32)>,
    club: VecDeque<(Card, u32)>,
    diamond: VecDeque<(Card, u32)>,
}

impl Desk {
    /// The chain of suit `s`.
    pub closed spec fn chain(&self, s: CardSuit) -> Seq<(Card, u32)> {
        match s {
            CardSuit::Spade => self.spade@,
            CardSuit::Heart => self.heart@,
            CardSuit::Club => self.club@,
            CardSuit::Diamond => self.diamond@,
        }
    }

    /// No card lies on the desk.
    pub open spec fn spec_is_empty(&self) -> bool {
        forall|s: CardSuit| #[trigger] self.chain(s).len() == 0
    }

    /// Every chain can be stepped past at both ends within `u32`.
    pub open spec fn fits(&self) -> bool {
        forall|s: CardSuit| chain_fits(#[trigger] self.chain(s))
    }

    /// Every chain is a run of its suit around the seven.
    pub open spec fn well_laid(&self) -> bool {
        forall|s: CardSuit| is_run(#[trigger] self.chain(s), s)
    }

    /// The cards that may be laid next: only the seven of hearts for the
    /// first card of a game, otherwise whatever fits next to a chain.
    pub open spec fn candidates(&self, is_first: bool) -> Set<Card> {
        if is_first {
            set![heart_seven()]
        } else {
            four_candidates(
                self.chain(CardSuit::Spade),
                self.chain(CardSuit::Heart),
                self.chain(CardSuit::Club),
                self.chain(CardSuit::Diamond),
            )
        }
    }

    /// The desk after `play` by player `pid`: a discarded card joins the
    /// chain of its suit, a held card leaves the desk as it was.
    pub open spec fn after_play(&self, other: &Desk, play: Play, pid: u32) -> bool {
        forall|s: CardSuit|
            #[trigger] other.chain(s) == match play {
                Play::Discard(ci) => if card_of_info(ci).suit == s {
                    chain_after_lay(self.chain(s), card_of_info(ci), pid)
                } else {
                    self.chain(s)
                },
                Play::Hold(_) => self.chain(s),
            }
    }

    fn chain_ref(&self, s: CardSuit) -> (r: &VecDeque<(Card, u32)>)
        ensures
            r@ == self.chain(s),
    {
        match s {
            CardSuit::Spade => &self.spade,
            CardSuit::Heart => &self.heart,
            CardSuit::Club => &self.club,
            CardSuit::Diamond => &self.diamond,
        }
    }

    /// What is reported of the four chains; a card counts as laid in this
    /// round when it is in `thisround`.
    pub fn get_desk_info(&self, thisround: &Vec<Card>) -> (d: DeskInfo)
        ensures
            d.spade == spec_chain_info(thisround@, self.chain(CardSuit::Spade)),
            d.heart == spec_chain_info(thisround@, self.chain(CardSuit::Heart)),
            d.club == spec_chain_info(thisround@, self.chain(CardSuit::Club)),
            d.diamond == spec_chain_info(thisround@, self.chain(CardSuit::Diamond)),
    {
        DeskInfo {
            spade: Desk::get_chain_info(thisround, &self.spade),
            heart: Desk::get_chain_info(thisround, &self.heart),
            club: Desk::get_chain_info(thisround, &self.club),
            diamond: Desk::get_chain_info(thisround, &self.diamond),
        }
    }

    /// What is reported of one chain.
    pub fn get_chain_info(thisround: &Vec<Card>, chain: &VecDeque<(Card, u32)>) -> (r: Option<ChainInfo>)
        ensures
            r == spec_chain_info(thisround@, chain@),
    {
        if chain.len() == 0 {
            return None;
        }
        let front: Card = chain[0].0;
        let back: Card = chain[chain.len() - 1].0;
        let front_is_thisround = contains_card(thisround, &front);
        let back_is_thisround = contains_card(thisround, &back);
        Some(
            ChainInfo {
                front: Some(front.into_info()),
                back: Some(back.into_info()),
                front_is_thisround,
                back_is_thisround,
            },
        )
    }

    /// Applies `play` by player `pid` to the desk; the play is not checked.
    pub fn update(&mut self, play: &Play, pid: u32)
        ensures
            old(self).after_play(final(self), *play, pid),
    {
        if let Play::Discard(ci) = play {
            let c = Card::from_info(ci);
            match c.suit {
                CardSuit::Spade => lay_into(&mut self.spade, c, pid),
                CardSuit::Heart => lay_into(&mut self.heart, c, pid),
                CardSuit::Club => lay_into(&mut self.club, c, pid),
                CardSuit::Diamond => lay_into(&mut self.diamond, c, pid),
            }
        }
    }

    /// Whether `c` may be laid next.
    pub fn is_valid_discard(&self, c: &Card, is_first: bool) -> (b: bool)
        requires
            !is_first ==> self.fits(),
        ensures
            b == self.candidates(is_first).contains(*c),
    {
        let cand = self.discard_candidates(is_first);
        contains_card(&cand, c)
    }

    /// The cards that may be laid next, each once.
    pub fn discard_candidates(&self, is_first: bool) -> (ret: Vec<Card>)
        requires
            !is_first ==> self.fits(),
        ensures
            ret@.no_duplicates(),
            ret@.to_set() == self.candidates(is_first),
    {
        let mut ret: Vec<Card> = Vec::new();
        if is_first {
            ret.push(Card { suit: CardSuit::Heart, num: 7 });
            proof {
                assert(ret@.to_set() =~= set![heart_seven()]) by {
                    assert(ret@[0] == heart_seven());
                }
            }
        } else {
            proof {
                assert(ret@.to_set() =~= Set::<Card>::empty());
                assert(chain_fits(self.chain(CardSuit::Spade)));
                assert(chain_fits(self.chain(CardSuit::Heart)));
                assert(chain_fits(self.chain(CardSuit::Club)));
                assert(chain_fits(self.chain(CardSuit::Diamond)));
            }
            add_chain_candidates(&mut ret, &self.spade, CardSuit::Spade);
            add_chain_candidates(&mut ret, &self.heart, CardSuit::Heart);
            add_chain_candidates(&mut ret, &self.club, CardSuit::Club);
            add_chain_candidates(&mut ret, &self.diamond, CardSuit::Diamond);
            proof {
                assert(ret@.to_set() =~= self.candidates(is_first));
            }
        }
        ret
    }

    /// Every card on the desk, chain by chain, with its owner.
    pub fn get_desk_result(&self) -> (r: DeskResult)
        ensures
            r.spade@ == spec_chain_result(self.chain(CardSuit::Spade), |w: u32| whose_u32(w)),
            r.heart@ == spec_chain_result(self.chain(CardSuit::Heart), |w: u32| whose_u32(w)),
            r.club@ == spec_chain_result(self.chain(CardSuit::Club), |w: u32| whose_u32(w)),
            r.diamond@ == spec_chain_result(self.chain(CardSuit::Diamond), |w: u32| whose_u32(w)),
    {
        DeskResult {
            spade: chain_result(&self.spade),
            heart: chain_result(&self.heart),
            club: chain_result(&self.club),
            diamond: chain_result(&self.diamond),
        }
    }
}

/// A desk whose chains are runs can be stepped past at both ends.
pub proof fn lemma_well_laid_fits(d: &Desk)
    requires
        d.well_laid(),
    ensures
        d.fits(),
{
    assert forall|s: CardSuit| chain_fits(#[trigger] d.chain(s)) by {
        assert(is_run(d.chain(s), s));
    }
}

/// Every card that may be laid next to a chain has the chain's suit.
pub proof fn lemma_chain_candidate_suit<T>(chain: Seq<(Card, T)>, suit: CardSuit, c: Card)
    requires
        chain_candidates(chain, suit).contains(c),
    ensures
        c.suit == suit,
{
}

/// Laying a card that fits keeps a run a run.
pub proof fn lemma_lay_keeps_run<T>(chain: Seq<(Card, T)>, suit: CardSuit, c: Card, who: T)
    requires
        is_run(chain, suit),
        chain_candidates(chain, suit).contains(c),
    ensures
        is_run(chain_after_lay(chain, c, who), suit),
{
    let n = chain_after_lay(chain, c, who);
    if chain.len() == 0 {
        assert(c == Card { suit, num: 7 });
        assert(n =~= seq![(c, who)]);
    } else {
        let front = chain[0].0.num;
        let back = chain[chain.len() - 1].0.num;
        if front != 1 && c == (Card { suit, num: (front - 1) as u32 }) {
            assert(c.num < 7);
            assert(n =~= seq![(c, who)] + chain);
            assert forall|i: int| 0 <= i < n.len() implies (#[trigger] n[i]).0.suit == suit && n[i].0.num == n[0].0.num + i by {
                if i > 0 {
                    assert(n[i] == chain[i - 1]);
                }
            }
        } else {
            assert(back != 13 && c == Card { suit, num: (back + 1) as u32 });
            assert(c.num >= 8);
            assert(n =~= chain.push((c, who)));
            assert forall|i: int| 0 <= i < n.len() implies (#[trigger] n[i]).0.suit == suit && n[i].0.num == n[0].0.num + i by {
                if i < chain.len() {
                    assert(n[i] == chain[i]);
                }
            }
        }
    }
}

/// Laying a card that may be laid keeps every chain a run. For the first
/// card of a game this holds while the chain of hearts is empty, as it is at
/// the start of every game.
pub proof fn lemma_discard_keeps_runs(d1: &Desk, d2: &Desk, ci: CardInfo, pid: u32, is_first: bool)
    requires
        d1.well_laid(),
        d1.candidates(is_first).contains(card_of_info(ci)),
        is_first ==> d1.chain(CardSuit::Heart).len() == 0,
        d1.after_play(d2, Play::Discard(ci), pid),
    ensures
        d2.well_laid(),
{
    let c = card_of_info(ci);
    assert forall|s: CardSuit| is_run(#[trigger] d2.chain(s), s) by {
        assert(is_run(d1.chain(s), s));
        assert(d2.chain(s) == (if c.suit == s { chain_after_lay(d1.chain(s), c, pid) } else { d1.chain(s) }));
        if c.suit == s {
            if is_first {
                assert(c == heart_seven());
                assert(chain_candidates(d1.chain(s), s).contains(c));
            } else {
                if chain_candidates(d1.chain(CardSuit::Spade), CardSuit::Spade).contains(c) {
                    lemma_chain_candidate_suit(d1.chain(CardSuit::Spade), CardSuit::Spade, c);
                } else if chain_candidates(d1.chain(CardSuit::Heart), CardSuit::Heart).contains(c) {
                    lemma_chain_candidate_suit(d1.chain(CardSuit::Heart), CardSuit::Heart, c);
                } else if chain_candidates(d1.chain(CardSuit::Club), CardSuit::Club).contains(c) {
                    lemma_chain_candidate_suit(d1.chain(CardSuit::Club), CardSuit::Club, c);
                } else {
                    lemma_chain_candidate_suit(d1.chain(CardSuit::Diamond), CardSuit::Diamond, c);
                }
            }
            lemma_lay_keeps_run(d1.chain(s), s, c, pid);
        }
    }
}

/// A chain of its suit: consecutive ranks, lowest first, that reach the
/// seven from below and from above.
pub open spec fn is_chain<T>(chain: Seq<(Card, T)>, suit: CardSuit) -> bool {
    &&& forall|i: int|
        0 <= i < chain.len() ==> (#[trigger] chain[i]).0.suit == suit && chain[i].0.num == chain[0].0.num + i
    &&& chain.len() > 0 ==> (chain[0].0.num <= 7 && 7 <= chain[chain.len() - 1].0.num)
}

/// Laying a card that fits keeps a chain a chain, and the card is in it.
pub proof fn lemma_lay_keeps_chain<T>(chain: Seq<(Card, T)>, suit: CardSuit, c: Card, who: T)
    requires
        is_chain(chain, suit),
        chain_fits(chain),
        chain_candidates(chain, suit).contains(c),
    ensures
        is_chain(chain_after_lay(chain, c, who), suit),
        chain_after_lay(chain, c, who).len() == chain.len() + 1,
        chain_after_lay(chain, c, who).contains((c, who)),
{
    let n = chain_after_lay(chain, c, who);
    if chain.len() == 0 {
        assert(c == Card { suit, num: 7 });
        assert(n =~= seq![(c, who)]);
        assert(n[0] == (c, who));
    } else {
        let front = chain[0].0.num;
        let back = chain[chain.len() - 1].0.num;
        if front != 1 && c == (Card { suit, num: (front - 1) as u32 }) {
            assert(c.num < 7);
            assert(n =~= seq![(c, who)] + chain);
            assert(n[0] == (c, who));
            assert forall|i: int| 0 <= i < n.len() implies (#[trigger] n[i]).0.suit == suit && n[i].0.num == n[0].0.num + i by {
                if i > 0 {
                    assert(n[i] == chain[i - 1]);
                }
            }
            assert(n[n.len() - 1] == chain[chain.len() - 1]);
        } else {
            assert(back != 13 && c == Card { suit, num: (back + 1) as u32 });
            assert(c.num >= 8);
            assert(n =~= chain.push((c, who)));
            assert(n[n.len() - 1] == (c, who));
            assert forall|i: int| 0 <= i < n.len() implies (#[trigger] n[i]).0.suit == suit && n[i].0.num == n[0].0.num + i by {
                if i < chain.len() {
                    assert(n[i] == chain[i]);
                }
            }
        }
    }
}

impl Desk {
    /// Every chain is a chain of its suit through the seven.
    pub open spec fn chained(&self) -> bool {
        forall|s: CardSuit| is_chain(#[trigger] self.chain(s), s)
    }

    /// How many cards lie on the desk.
    pub open spec fn size(&self) -> nat {
        self.chain(CardSuit::Spade).len() + self.chain(CardSuit::Heart).len() + self.chain(CardSuit::Club).len()
            + self.chain(CardSuit::Diamond).len()
    }
}

/// Laying a card that may be laid after the first play keeps every chain a
/// chain of its suit through the seven, on every desk whose chain ends can
/// be stepped past; the desk holds one card more, the laid one with the
/// player who laid it.
pub proof fn lemma_update_keeps_chains(d1: &Desk, d2: &Desk, ci: CardInfo, pid: u32)
    requires
        d1.chained(),
        d1.fits(),
        d1.candidates(false).contains(card_of_info(ci)),
        d1.after_play(d2, Play::Discard(ci), pid),
    ensures
        d2.chained(),
        d2.size() == d1.size() + 1,
        d2.chain(card_of_info(ci).suit).contains((card_of_info(ci), pid)),
{
    let c = card_of_info(ci);
    if chain_candidates(d1.chain(CardSuit::Spade), CardSuit::Spade).contains(c) {
        lemma_chain_candidate_suit(d1.chain(CardSuit::Spade), CardSuit::Spade, c);
    } else if chain_candidates(d1.chain(CardSuit::Heart), CardSuit::Heart).contains(c) {
        lemma_chain_candidate_suit(d1.chain(CardSuit::Heart), CardSuit::Heart, c);
    } else if chain_candidates(d1.chain(CardSuit::Club), CardSuit::Club).contains(c) {
        lemma_chain_candidate_suit(d1.chain(CardSuit::Club), CardSuit::Club, c);
    } else {
        lemma_chain_candidate_suit(d1.chain(CardSuit::Diamond), CardSuit::Diamond, c);
    }
    assert(chain_candidates(d1.chain(c.suit), c.suit).contains(c));
    assert(is_chain(d1.chain(c.suit), c.suit));
    assert(chain_fits(d1.chain(c.suit)));
    lemma_lay_keeps_chain(d1.chain(c.suit), c.suit, c, pid);
    assert forall|s: CardSuit| is_chain(#[trigger] d2.chain(s), s) by {
        assert(is_chain(d1.chain(s), s));
        assert(d2.chain(s) == (if c.suit == s { chain_after_lay(d1.chain(s), c, pid) } else { d1.chain(s) }));
    }
    assert(d2.chain(CardSuit::Spade) == (if c.suit == CardSuit::Spade { chain_after_lay(d1.chain(CardSuit::Spade), c, pid) } else { d1.chain(CardSuit::Spade) }));
    assert(d2.chain(CardSuit::Heart) == (if c.suit == CardSuit::Heart { chain_after_lay(d1.chain(CardSuit::Heart), c, pid) } else { d1.chain(CardSuit::Heart) }));
    assert(d2.chain(CardSuit::Club) == (if c.suit == CardSuit::Club { chain_after_lay(d1.chain(CardSuit::Club), c, pid) } else { d1.chain(CardSuit::Club) }));
    assert(d2.chain(CardSuit::Diamond) == (if c.suit == CardSuit::Diamond { chain_after_lay(d1.chain(CardSuit::Diamond), c, pid) } else { d1.chain(CardSuit::Diamond) }));
}

/// The cards that may be laid next to a chain of suit `s` whose ranks lie
/// within ace to king: the seven of the suit while the chain is empty;
/// otherwise exactly the card of the suit one rank below the lowest card
/// and the card one rank above the highest card, each as long as it is a
/// rank from ace to king.
pub proof fn lemma_chain_candidates_are_neighbours<T>(chain: Seq<(Card, T)>, s: CardSuit, x: Card)
    requires
        chain.len() > 0 ==> 1 <= chain[0].0.num && chain[chain.len() - 1].0.num <= 13,
    ensures
        chain.len() == 0 ==> (chain_candidates(chain, s).contains(x) <==> x == Card { suit: s, num: 7 }),
        chain.len() > 0 ==> (chain_candidates(chain, s).contains(x) <==> x.suit == s && (
            (1 <= x.num && x.num + 1 == chain[0].0.num)
            || (x.num == chain[chain.len() - 1].0.num + 1 && x.num <= 13))),
{
}

/// After the first play, a card of rank from ace to king that sits one rank
/// below the lowest card or one rank above the highest card of the chain of
/// its suit may be laid, and so may a seven whose chain is empty.
pub proof fn lemma_neighbour_may_be_laid(d: &Desk, c: Card)
    requires
        1 <= c.num <= 13,
        d.chain(c.suit).len() == 0 ==> c.num == 7,
        d.chain(c.suit).len() > 0 ==> c.num + 1 == d.chain(c.suit)[0].0.num
            || c.num == d.chain(c.suit)[d.chain(c.suit).len() - 1].0.num + 1,
    ensures
        d.candidates(false).contains(c),
{
    let ch = d.chain(c.suit);
    assert(chain_candidates(ch, c.suit).contains(c));
    assert(chain_candidates(d.chain(CardSuit::Spade), CardSuit::Spade).contains(c)
        || chain_candidates(d.chain(CardSuit::Heart), CardSuit::Heart).contains(c)
        || chain_candidates(d.chain(CardSuit::Club), CardSuit::Club).contains(c)
        || chain_candidates(d.chain(CardSuit::Diamond), CardSuit::Diamond).contains(c));
}

/// What is reported of a chain: nothing for an empty chain; otherwise its
/// lowest and its highest card, each marked as laid in this round exactly
/// when it is one of the cards of this round.
pub proof fn lemma_chain_info_reports_ends(thisround: Seq<Card>, chain: Seq<(Card, u32)>)
    ensures
        chain.len() == 0 <==> spec_chain_info(thisround, chain) is None,
        chain.len() > 0 ==> (spec_chain_info(thisround, chain) matches Some(ci) && {
            &&& ci.front == Some(info_of_card(chain[0].0))
            &&& ci.back == Some(info_of_card(chain[chain.len() - 1].0))
            &&& (ci.front_is_thisround <==> exists|i: int| 0 <= i < thisround.len() && thisround[i] == chain[0].0)
            &&& (ci.back_is_thisround <==> exists|i: int|
                0 <= i < thisround.len() && thisround[i] == chain[chain.len() - 1].0)
        }),
{
}

impl Default for Desk {
    fn default() -> (d: Desk)
        ensures
            d.spec_is_empty(),
    {
        Desk { spade: VecDeque::new(), heart: VecDeque::new(), club: VecDeque::new(), diamond: VecDeque::new() }
    }
}

} // verus!
