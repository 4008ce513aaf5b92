//! The desk as the rules see it: four chains of the cards laid so far, each
//! with the place of the player who laid it.

use vstd::prelude::*;
use std::collections::VecDeque;
use crate::proto::{CardSuit, CardResult, DeskResult};
use crate::game::{Card, heart_seven, contains_card};
use crate::desk::{
    four_candidates, chain_fits, is_run, chain_after_lay, spec_chain_result, add_chain_candidates,
    lemma_chain_candidate_suit, lemma_lay_keeps_run,
};
use crate::rule::Play;

verus! {

/// The owner of a card on the rules' desk, as it is reported.
pub open spec fn whose_usize(w: usize) -> u32 {
    w as u32
}

/// Maps a chain to what is reported of its cards.
fn chain_result(chain: &VecDeque<(Card, usize)>) -> (r: Vec<CardResult>)
    ensures
        r@ == spec_chain_result(chain@, |w: usize| whose_usize(w)),
{
    let mut r: Vec<CardResult> = Vec::new();
    let mut i: usize = 0;
    while i < chain.len()
        invariant
            i <= chain@.len(),
            r@ == spec_chain_result(chain@, |w: usize| whose_usize(w)).take(i as int),
        decreases chain@.len() - i,
    {
        let (c, w) = chain[i];
        r.push(c.into_result(w as u32));
        i = i + 1;
        proof {
            assert(r@ =~= spec_chain_result(chain@, |w: usize| whose_usize(w)).take(i as int));
        }
    }
    proof {
        assert(r@ =~= spec_chain_result(chain@, |w: usize| whose_usize(w)));
    }
    r
}

/// The cards of a chain, in chain order.
fn chain_cards(chain: &VecDeque<(Card, usize)>) -> (r: Vec<Card>)
    ensures
        r@ == chain@.map_values(|p: (Card, usize)| p.0),
{
    let mut r: Vec<Card> = Vec::new();
    let mut i: usize = 0;
    while i < chain.len()
        invariant
            i <= chain@.len(),
            r@ == chain@.map_values(|p: (Card, usize)| p.0).take(i as int),
        decreases chain@.len() - i,
    {
        r.push(chain[i].0);
        i = i + 1;
        proof {
            assert(r@ =~= chain@.map_values(|p: (Card, usize)| p.0).take(i as int));
        }
    }
    proof {
        assert(r@ =~= chain@.map_values(|p: (Card, usize)| p.0));
    }
    r
}

/// Lays `c` by the player at place `who` into `chain`.
fn lay_into(chain: &mut VecDeque<(Card, usize)>, c: Card, who: usize)
    ensures
        final(chain)@ == chain_after_lay(old(chain)@, c, who),
{
    if c.num < 7 {
        chain.push_front((c, who));
    } else {
        chain.push_back((c, who));
    }
}

/// The desk as the rules see it.
#[derive(Clone, Debug)]
pub struct Desk {
    spade: VecDeque<(Card, usize)>,
    heart: VecDeque<(Card, usize)>,
    club: VecDeque<(Card, usize)>,
    diamond: VecDeque<(Card, usize)>,
}

impl Desk {
    /// The chain of suit `s`.
    pub closed spec fn chain(&self, s: CardSuit) -> Seq<(Card, usize)> {
        match s {
            CardSuit::Spade => self.spade@,
            CardSuit::Heart => self.heart@,
            CardSuit::Club => self.club@,
            CardSuit::Diamond => self.diamond@,
        }
    }

    /// No card lies on the desk.
    pub open spec fn spec_is_empty(&self) -> bool {
        forall|s: CardSuit| #[trigger] self.chain(s).len() == 0
    }

    /// Every chain can be stepped past at both ends within `u32`.
    pub open spec fn fits(&self) -> bool {
        forall|s: CardSuit| chain_fits(#[trigger] self.chain(s))
    }

    /// Every chain is a run of its suit around the seven.
    pub open spec fn well_laid(&self) -> bool {
        forall|s: CardSuit| is_run(#[trigger] self.chain(s), s)
    }

    /// The cards that may be laid next: the seven of hearts on an empty
    /// desk, otherwise whatever fits next to a chain.
    pub open spec fn candidates(&self) -> Set<Card> {
        if self.spec_is_empty() {
            set![heart_seven()]
        } else {
            four_candidates(
                self.chain(CardSuit::Spade),
                self.chain(CardSuit::Heart),
                self.chain(CardSuit::Club),
                self.chain(CardSuit::Diamond),
            )
        }
    }

    /// The desk after `play`: a discarded card joins the chain of its suit,
    /// a held card leaves the desk as it was.
    pub open spec fn after_play(&self, other: &Desk, play: Play) -> bool {
        forall|s: CardSuit|
            #[trigger] other.chain(s) == match play {
                Play::Discard(c, who) => if c.suit == s {
                    chain_after_lay(self.chain(s), c, who)
                } else {
                    self.chain(s)
                },
                Play::Hold(_, _) => self.chain(s),
            }
    }

    /// Takes every card off the desk.
    pub fn clear(&mut self)
        ensures
            final(self).spec_is_empty(),
    {
        self.spade.clear();
        self.heart.clear();
        self.club.clear();
        self.diamond.clear();
    }

    /// Whether no card lies on the desk.
    pub fn is_empty(&self) -> (b: bool)
        ensures
            b == self.spec_is_empty(),
    {
        let b = self.spade.len() == 0 && self.heart.len() == 0 && self.club.len() == 0 && self.diamond.len() == 0;
        proof {
            if b {
                assert forall|s: CardSuit| #[trigger] self.chain(s).len() == 0 by {}
            } else {
                if self.spade.len() != 0 {
                    assert(self.chain(CardSuit::Spade).len() != 0);
                } else if self.heart.len() != 0 {
                    assert(self.chain(CardSuit::Heart).len() != 0);
                } else if self.club.len() != 0 {
                    assert(self.chain(CardSuit::Club).len() != 0);
                } else {
                    assert(self.chain(CardSuit::Diamond).len() != 0);
                }
            }
        }
        b
    }

    /// The chain of suit `cs`.
    pub fn get_chain(&self, cs: CardSuit) -> (r: &VecDeque<(Card, usize)>)
        ensures
            r@ == self.chain(cs),
    {
        match cs {
            CardSuit::Spade => &self.spade,
            CardSuit::Heart => &self.heart,
            CardSuit::Club => &self.club,
            CardSuit::Diamond => &self.diamond,
        }
    }

    /// Applies `play` to the desk; the play is not checked.
    pub fn play_card(&mut self, play: Play)
        ensures
            old(self).after_play(final(self), play),
    {
        if let Play::Discard(c, pid) = play {
            match c.suit {
                CardSuit::Spade => lay_into(&mut self.spade, c, pid),
                CardSuit::Heart => lay_into(&mut self.heart, c, pid),
                CardSuit::Club => lay_into(&mut self.club, c, pid),
                CardSuit::Diamond => lay_into(&mut self.diamond, c, pid),
            }
        }
    }

    /// The cards that may be laid next, each once.
    pub fn discard_candidates(&self) -> (ret: Vec<Card>)
        requires
            self.fits(),
        ensures
            ret@.no_duplicates(),
            ret@.to_set() == self.candidates(),
    {
        let mut ret: Vec<Card> = Vec::new();
        if self.is_empty() {
            ret.push(Card { suit: CardSuit::Heart, num: 7 });
            proof {
                assert(ret@.to_set() =~= set![heart_seven()]) by {
                    assert(ret@[0] == heart_seven());
                }
            }
        } else {
            proof {
                assert(ret@.to_set() =~= Set::<Card>::empty());
                assert(chain_fits(self.chain(CardSuit::Spade)));
                assert(chain_fits(self.chain(CardSuit::Heart)));
                assert(chain_fits(self.chain(CardSuit::Club)));
                assert(chain_fits(self.chain(CardSuit::Diamond)));
            }
            add_chain_candidates(&mut ret, &self.spade, CardSuit::Spade);
            add_chain_candidates(&mut ret, &self.heart, CardSuit::Heart);
            add_chain_candidates(&mut ret, &self.club, CardSuit::Club);
            add_chain_candidates(&mut ret, &self.diamond, CardSuit::Diamond);
            proof {
                assert(ret@.to_set() =~= self.candidates());
            }
        }
        ret
    }

    /// Whether `c` may be laid next.
    pub fn is_discard_candidates(&self, c: &Card) -> (b: bool)
        requires
            self.fits(),
        ensures
            b == self.candidates().contains(*c),
    {
        let cand = self.discard_candidates();
        contains_card(&cand, c)
    }

    /// Whether any of `cards` may be laid next.
    pub fn someone_has_discard_candidates(&self, cards: &Vec<Card>) -> (b: bool)
        requires
            self.fits(),
        ensures
            b == exists|i: int| 0 <= i < cards@.len() && self.candidates().contains(#[trigger] cards@[i]),
    {
        let cand = self.discard_candidates();
        let mut i: usize = 0;
        while i < cards.len()
            invariant
                i <= cards@.len(),
                cand@.to_set() == self.candidates(),
                forall|j: int| 0 <= j < i ==> !self.candidates().contains(#[trigger] cards@[j]),
            decreases cards@.len() - i,
        {
            if contains_card(&cand, &cards[i]) {
                proof {
                    assert(cand@.to_set().contains(cards@[i as int]));
                }
                return true;
            }
            i = i + 1;
        }
        false
    }

    /// Every card on the desk, chain by chain, with its owner.
    pub fn get_desk_result(&self) -> (r: DeskResult)
        ensures
            r.spade@ == spec_chain_result(self.chain(CardSuit::Spade), |w: usize| whose_usize(w)),
            r.heart@ == spec_chain_result(self.chain(CardSuit::Heart), |w: usize| whose_usize(w)),
            r.club@ == spec_chain_result(self.chain(CardSuit::Club), |w: usize| whose_usize(w)),
            r.diamond@ == spec_chain_result(self.chain(CardSuit::Diamond), |w: usize| whose_usize(w)),
    {
        DeskResult {
            spade: chain_result(&self.spade),
            heart: chain_result(&self.heart),
            club: chain_result(&self.club),
            diamond: chain_result(&self.diamond),
        }
    }

    /// The cards of the four chains, spades, hearts, clubs and diamonds, each
    /// in chain order.
    pub fn export(&self) -> (r: Vec<Vec<Card>>)
        ensures
            r@.len() == 4,
            r@[0]@ == self.chain(CardSuit::Spade).map_values(|p: (Card, usize)| p.0),
            r@[1]@ == self.chain(CardSuit::Heart).map_values(|p: (Card, usize)| p.0),
            r@[2]@ == self.chain(CardSuit::Club).map_values(|p: (Card, usize)| p.0),
            r@[3]@ == self.chain(CardSuit::Diamond).map_values(|p: (Card, usize)| p.0),
    {
        let mut r: Vec<Vec<Card>> = Vec::new();
        r.push(chain_cards(&self.spade));
        r.push(chain_cards(&self.heart));
        r.push(chain_cards(&self.club));
        r.push(chain_cards(&self.diamond));
        r
    }
}

/// On a desk that holds a card, a card of rank from ace to king one rank
/// below the lowest card or one rank above the highest card of the chain of
/// its suit may be laid, and so may a seven whose chain is empty.
pub proof fn lemma_neighbour_may_be_laid(d: &Desk, c: Card)
    requires
        !d.spec_is_empty(),
        1 <= c.num <= 13,
        d.chain(c.suit).len() == 0 ==> c.num == 7,
        d.chain(c.suit).len() > 0 ==> c.num + 1 == d.chain(c.suit)[0].0.num
            || c.num == d.chain(c.suit)[d.chain(c.suit).len() - 1].0.num + 1,
    ensures
        d.candidates().contains(c),
{
    let ch = d.chain(c.suit);
    assert(crate::desk::chain_candidates(ch, c.suit).contains(c));
    assert(crate::desk::chain_candidates(d.chain(CardSuit::Spade), CardSuit::Spade).contains(c)
        || crate::desk::chain_candidates(d.chain(CardSuit::Heart), CardSuit::Heart).contains(c)
        || crate::desk::chain_candidates(d.chain(CardSuit::Club), CardSuit::Club).contains(c)
        || crate::desk::chain_candidates(d.chain(CardSuit::Diamond), CardSuit::Diamond).contains(c));
}

impl Default for Desk {
    fn default() -> (d: Desk)
        ensures
            d.spec_is_empty(),
    {
        Desk { spade: VecDeque::new(), heart: VecDeque::new(), club: VecDeque::new(), diamond: VecDeque::new() }
    }
}

/// A desk whose chains are runs can be stepped past at both ends.
pub proof fn lemma_well_laid_fits(d: &Desk)
    requires
        d.well_laid(),
    ensures
        d.fits(),
{
    assert forall|s: CardSuit| chain_fits(#[trigger] d.chain(s)) by {
        assert(is_run(d.chain(s), s));
    }
}

/// Laying a card that may be laid keeps every chain a run of its suit.
pub proof fn lemma_discard_keeps_runs(d1: &Desk, d2: &Desk, c: Card, who: usize)
    requires
        d1.well_laid(),
        d1.candidates().contains(c),
        d1.after_play(d2, Play::Discard(c, who)),
    ensures
        d2.well_laid(),
{
    assert forall|s: CardSuit| is_run(#[trigger] d2.chain(s), s) by {
        assert(is_run(d1.chain(s), s));
        assert(d2.chain(s) == (if c.suit == s { chain_after_lay(d1.chain(s), c, who) } else { d1.chain(s) }));
        if c.suit == s {
            if d1.spec_is_empty() {
                assert(c == heart_seven());
                assert(d1.chain(s).len() == 0);
                assert(crate::desk::chain_candidates(d1.chain(s), s).contains(c));
            } else {
                if crate::desk::chain_candidates(d1.chain(CardSuit::Spade), CardSuit::Spade).contains(c) {
                    lemma_chain_candidate_suit(d1.chain(CardSuit::Spade), CardSuit::Spade, c);
                } else if crate::desk::chain_candidates(d1.chain(CardSuit::Heart), CardSuit::Heart).contains(c) {
                    lemma_chain_candidate_suit(d1.chain(CardSuit::Heart), CardSuit::Heart, c);
                } else if crate::desk::chain_candidates(d1.chain(CardSuit::Club), CardSuit::Club).contains(c) {
                    lemma_chain_candidate_suit(d1.chain(CardSuit::Club), CardSuit::Club, c);
                } else {
                    lemma_chain_candidate_suit(d1.chain(CardSuit::Diamond), CardSuit::Diamond, c);
                }
            }
            lemma_lay_keeps_run(d1.chain(s), s, c, who);
        }
    }
}

} // verus!
