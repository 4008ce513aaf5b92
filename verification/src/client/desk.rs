//! The desk as a client draws it: for each suit the cards up to the seven
//! and the cards above it, each side with its outermost card first, and a
//! mark on the cards laid in the current round.

use vstd::prelude::*;
use crate::proto::CardSuit;
use crate::game::{Card, heart_seven};

verus! {

/// One side of a chain: cards with a mark (0: an earlier round, 1: laid in
/// this round, 2: laid in this round by this client's player).
pub type Side = Vec<(Card, u32)>;

/// How far a rank is from the seven.
pub open spec fn dist7(n: u32) -> int {
    if n >= 7 {
        n - 7
    } else {
        7 - n
    }
}

/// The mark of a card laid in this round.
pub open spec fn round_mark(is_myself: bool) -> u32 {
    if is_myself {
        2
    } else {
        1
    }
}

/// A card may be put on a side: the side is empty or its outermost card is
/// nearer to the seven; and a side whose outermost card is from an earlier
/// round holds only that card.
pub open spec fn can_add_to(side: Seq<(Card, u32)>, c: Card) -> bool {
    &&& (side.len() == 0 || dist7(side[0].0.num) < dist7(c.num))
    &&& (side.len() > 0 && side[0].1 == 0 ==> side.len() == 1)
}

/// The side after `c` is put on it: it replaces a lone card of an earlier
/// round and goes in front otherwise.
pub open spec fn side_after_add(side: Seq<(Card, u32)>, c: Card, is_myself: bool) -> Seq<(Card, u32)> {
    if side.len() > 0 && side[0].1 == 0 {
        seq![(c, round_mark(is_myself))]
    } else {
        seq![(c, round_mark(is_myself))] + side
    }
}

/// A side at the start of a round: only its outermost card, unmarked.
pub open spec fn side_after_new_round(side: Seq<(Card, u32)>) -> Seq<(Card, u32)> {
    if side.len() > 0 {
        seq![(side[0].0, 0u32)]
    } else {
        side
    }
}

/// The cards of suit `cs` that may be laid next to the chain with sides
/// `small` and `big`, as the client sees it.
pub open spec fn suit_hint(small: Seq<(Card, u32)>, big: Seq<(Card, u32)>, cs: CardSuit) -> Set<Card> {
    if small.len() == 0 && big.len() == 0 {
        set![Card { suit: cs, num: 7 }]
    } else {
        let up: Set<Card> = if big.len() == 0 {
            set![Card { suit: cs, num: 8 }]
        } else if big[0].0.num != 13 {
            set![Card { suit: cs, num: (big[0].0.num + 1) as u32 }]
        } else {
            Set::empty()
        };
        let down: Set<Card> = if small[0].0.num != 1 {
            set![Card { suit: cs, num: (small[0].0.num - 1) as u32 }]
        } else {
            Set::empty()
        };
        up + down
    }
}

/// The hint can be computed for one chain without leaving the range of
/// `u32` and without looking at a missing card: a chain with a card has a
/// side up to the seven, whose outermost card is not a zero, and the
/// outermost card above the seven is not the largest number.
pub open spec fn hint_fits(small: Seq<(Card, u32)>, big: Seq<(Card, u32)>) -> bool {
    !(small.len() == 0 && big.len() == 0) ==> {
        &&& small.len() > 0
        &&& small[0].0.num >= 1
        &&& big.len() > 0 ==> big[0].0.num < u32::MAX
    }
}

/// Puts `c` on `side`.
fn add_to(side: &mut Side, c: Card, is_myself: bool)
    requires
        can_add_to(old(side)@, c),
    ensures
        final(side)@ == side_after_add(old(side)@, c, is_myself),
{
    let mark: u32 = if is_myself { 2 } else { 1 };
    if side.len() > 0 && side[0].1 == 0 {
        side.clear();
        side.push((c, mark));
        proof {
            assert(side@ =~= seq![(c, mark)]);
        }
    } else {
        side.insert(0, (c, mark));
        proof {
            assert(side@ =~= seq![(c, mark)] + old(side)@);
        }
    }
}

/// Starts a new round on `side`.
fn new_round_side(side: &mut Side)
    ensures
        final(side)@ == side_after_new_round(old(side)@),
{
    if side.len() > 0 {
        let c = side[0].0;
        side.clear();
        side.push((c, 0));
        proof {
            assert(side@ =~= seq![(c, 0u32)]);
        }
    }
}

/// Adds the cards of `suit_hint` to a set being built.
fn add_suit_hint(possible: &mut Vec<Card>, small: &Side, big: &Side, cs: CardSuit)
    requires
        hint_fits(small@, big@),
    ensures
        final(possible)@.to_set() == old(possible)@.to_set() + suit_hint(small@, big@, cs),
{
    let ghost p0 = possible@;
    if small.len() == 0 && big.len() == 0 {
        possible.push(Card { suit: cs, num: 7 });
        proof {
            p0.lemma_push_to_set_commute(Card { suit: cs, num: 7 });
            assert(possible@.to_set() =~= p0.to_set() + suit_hint(small@, big@, cs));
        }
    } else {
        if big.len() == 0 {
            possible.push(Card { suit: cs, num: 8 });
        } else if big[0].0.num != 13 {
            possible.push(Card { suit: cs, num: big[0].0.num + 1 });
        }
        let ghost p1 = possible@;
        if small[0].0.num != 1 {
            possible.push(Card { suit: cs, num: small[0].0.num - 1 });
        }
        proof {
            if big.len() == 0 {
                p0.lemma_push_to_set_commute(Card { suit: cs, num: 8 });
            } else if big@[0].0.num != 13 {
                p0.lemma_push_to_set_commute(Card { suit: cs, num: (big@[0].0.num + 1) as u32 });
            }
            if small@[0].0.num != 1 {
                p1.lemma_push_to_set_commute(Card { suit: cs, num: (small@[0].0.num - 1) as u32 });
            }
            assert(possible@.to_set() =~= p0.to_set() + suit_hint(small@, big@, cs));
        }
    }
}

/// The desk as a client draws it.
#[derive(Debug)]
pub struct Desk {
    pub spade: (Side, Side),
    pub heart: (Side, Side),
    pub club: (Side, Side),
    pub diamond: (Side, Side),
}

impl Desk {
    /// The two sides of the chain of suit `s`.
    pub open spec fn sides(&self, s: CardSuit) -> (Seq<(Card, u32)>, Seq<(Card, u32)>) {
        match s {
            CardSuit::Spade => (self.spade.0@, self.spade.1@),
            CardSuit::Heart => (self.heart.0@, self.heart.1@),
            CardSuit::Club => (self.club.0@, self.club.1@),
            CardSuit::Diamond => (self.diamond.0@, self.diamond.1@),
        }
    }

    /// The side that card `c` goes to: up to the seven, or above it.
    pub open spec fn target(&self, c: Card) -> Seq<(Card, u32)> {
        if c.num <= 7 {
            self.sides(c.suit).0
        } else {
            self.sides(c.suit).1
        }
    }

    /// No card lies on the desk.
    pub open spec fn spec_is_empty(&self) -> bool {
        forall|s: CardSuit| #![trigger self.sides(s)] self.sides(s).0.len() == 0 && self.sides(s).1.len() == 0
    }

    /// Every chain allows its hint to be computed.
    pub open spec fn hint_ok(&self) -> bool {
        forall|s: CardSuit| #![trigger self.sides(s)] hint_fits(self.sides(s).0, self.sides(s).1)
    }

    /// The cards that may be laid next, as the client sees it: the seven of
    /// hearts on an empty desk, otherwise what fits next to each chain.
    pub open spec fn possible(&self) -> Set<Card> {
        if self.spec_is_empty() {
            set![heart_seven()]
        } else {
            suit_hint(self.spade.0@, self.spade.1@, CardSuit::Spade) + suit_hint(
                self.heart.0@,
                self.heart.1@,
                CardSuit::Heart,
            ) + suit_hint(self.club.0@, self.club.1@, CardSuit::Club) + suit_hint(
                self.diamond.0@,
                self.diamond.1@,
                CardSuit::Diamond,
            )
        }
    }

    /// `after` is this desk once `c` was put on its side.
    pub open spec fn adds(&self, after: &Desk, c: Card, is_myself: bool) -> bool {
        forall|s: CardSuit|
            #[trigger] after.sides(s) == if s == c.suit {
                if c.num <= 7 {
                    (side_after_add(self.sides(s).0, c, is_myself), self.sides(s).1)
                } else {
                    (self.sides(s).0, side_after_add(self.sides(s).1, c, is_myself))
                }
            } else {
                self.sides(s)
            }
    }

    /// Puts card `c`, laid by this client's player when `is_myself`, on the
    /// desk, marked as laid in this round.
    pub fn add(&mut self, c: Card, is_myself: bool)
        requires
            can_add_to(old(self).target(c), c),
        ensures
            old(self).adds(final(self), c, is_myself),
            old(self).shaped() && 1 <= c.num <= 13 ==> final(self).shaped(),
    {
        match (c.suit, c.num <= 7) {
            (CardSuit::Spade, true) => add_to(&mut self.spade.0, c, is_myself),
            (CardSuit::Spade, false) => add_to(&mut self.spade.1, c, is_myself),
            (CardSuit::Heart, true) => add_to(&mut self.heart.0, c, is_myself),
            (CardSuit::Heart, false) => add_to(&mut self.heart.1, c, is_myself),
            (CardSuit::Club, true) => add_to(&mut self.club.0, c, is_myself),
            (CardSuit::Club, false) => add_to(&mut self.club.1, c, is_myself),
            (CardSuit::Diamond, true) => add_to(&mut self.diamond.0, c, is_myself),
            (CardSuit::Diamond, false) => add_to(&mut self.diamond.1, c, is_myself),
        }
        proof {
            if old(self).shaped() && 1 <= c.num <= 13 {
                lemma_add_keeps_shape(old(self), self, c, is_myself);
            }
        }
    }

    /// Starts a new round: every side keeps only its outermost card, and no
    /// card is marked as laid in this round.
    pub fn new_round(&mut self)
        ensures
            forall|s: CardSuit|
                #[trigger] final(self).sides(s) == (
                    side_after_new_round(old(self).sides(s).0),
                    side_after_new_round(old(self).sides(s).1),
                ),
            old(self).shaped() ==> final(self).shaped(),
    {
        new_round_side(&mut self.spade.0);
        new_round_side(&mut self.spade.1);
        new_round_side(&mut self.heart.0);
        new_round_side(&mut self.heart.1);
        new_round_side(&mut self.club.0);
        new_round_side(&mut self.club.1);
        new_round_side(&mut self.diamond.0);
        new_round_side(&mut self.diamond.1);
        proof {
            if old(self).shaped() {
                lemma_new_round_keeps_shape(old(self), self);
            }
        }
    }

    /// Whether no card lies on the desk.
    pub fn is_empty(&self) -> (b: bool)
        ensures
            b == self.spec_is_empty(),
    {
        let b = self.spade.0.len() == 0 && self.spade.1.len() == 0 && self.heart.0.len() == 0
            && self.heart.1.len() == 0 && self.club.0.len() == 0 && self.club.1.len() == 0
            && self.diamond.0.len() == 0 && self.diamond.1.len() == 0;
        proof {
            if b {
                assert forall|s: CardSuit| #![trigger self.sides(s)] self.sides(s).0.len() == 0 && self.sides(s).1.len() == 0 by {
                    match s {
                        CardSuit::Spade => {},
                        CardSuit::Heart => {},
                        CardSuit::Club => {},
                        CardSuit::Diamond => {},
                    }
                }
            }
            if !b {
                if self.spade.0.len() != 0 || self.spade.1.len() != 0 {
                    assert(!(self.sides(CardSuit::Spade).0.len() == 0 && self.sides(CardSuit::Spade).1.len() == 0));
                } else if self.heart.0.len() != 0 || self.heart.1.len() != 0 {
                    assert(!(self.sides(CardSuit::Heart).0.len() == 0 && self.sides(CardSuit::Heart).1.len() == 0));
                } else if self.club.0.len() != 0 || self.club.1.len() != 0 {
                    assert(!(self.sides(CardSuit::Club).0.len() == 0 && self.sides(CardSuit::Club).1.len() == 0));
                } else {
                    assert(!(self.sides(CardSuit::Diamond).0.len() == 0 && self.sides(CardSuit::Diamond).1.len() == 0));
                }
            }
        }
        b
    }

    /// For each of `cards`, whether it may be laid next.
    pub fn get_play_hint(&self, cards: &Vec<Card>) -> (hint: Vec<bool>)
        requires
            self.hint_ok(),
        ensures
            hint@.len() == cards@.len(),
            forall|i: int| 0 <= i < cards@.len() ==> #[trigger] hint@[i] == self.possible().contains(cards@[i]),
    {
        let mut possible: Vec<Card> = Vec::new();
        if self.is_empty() {
            possible.push(Card { suit: CardSuit::Heart, num: 7 });
            proof {
                assert(possible@.to_set() =~= set![heart_seven()]) by {
                    assert(possible@[0] == heart_seven());
                }
            }
        } else {
            proof {
                assert(possible@.to_set() =~= Set::<Card>::empty());
                assert(hint_fits(self.sides(CardSuit::Spade).0, self.sides(CardSuit::Spade).1));
                assert(hint_fits(self.sides(CardSuit::Heart).0, self.sides(CardSuit::Heart).1));
                assert(hint_fits(self.sides(CardSuit::Club).0, self.sides(CardSuit::Club).1));
                assert(hint_fits(self.sides(CardSuit::Diamond).0, self.sides(CardSuit::Diamond).1));
            }
            add_suit_hint(&mut possible, &self.spade.0, &self.spade.1, CardSuit::Spade);
            add_suit_hint(&mut possible, &self.heart.0, &self.heart.1, CardSuit::Heart);
            add_suit_hint(&mut possible, &self.club.0, &self.club.1, CardSuit::Club);
            add_suit_hint(&mut possible, &self.diamond.0, &self.diamond.1, CardSuit::Diamond);
            proof {
                assert(possible@.to_set() =~= self.possible());
            }
        }
        let mut hint: Vec<bool> = Vec::new();
        let mut i: usize = 0;
        while i < cards.len()
            invariant
                i <= cards@.len(),
                hint@.len() == i,
                possible@.to_set() == self.possible(),
                forall|j: int| 0 <= j < i ==> #[trigger] hint@[j] == self.possible().contains(cards@[j]),
            decreases cards@.len() - i,
        {
            let b = crate::game::contains_card(&possible, &cards[i]);
            hint.push(b);
            i = i + 1;
        }
        hint
    }
}

/// A side of the chain of suit `s` as the client draws it: cards of that
/// suit, up to the seven (`low`) or above it within ace to king, each
/// farther from the seven than the one after it, marked 0, 1 or 2, and a
/// card of an earlier round (mark 0) only alone.
pub open spec fn side_shaped(side: Seq<(Card, u32)>, s: CardSuit, low: bool) -> bool {
    &&& forall|i: int|
        0 <= i < side.len() ==> {
            &&& (#[trigger] side[i]).0.suit == s
            &&& if low { 1 <= side[i].0.num <= 7 } else { 8 <= side[i].0.num <= 13 }
            &&& side[i].1 <= 2
            &&& side[i].1 == 0 ==> side.len() == 1
        }
    &&& forall|i: int, j: int| 0 <= i < j < side.len() ==> dist7((#[trigger] side[j]).0.num) < dist7((#[trigger] side[i]).0.num)
}

impl Desk {
    /// Every side of every chain is shaped.
    pub open spec fn shaped(&self) -> bool {
        forall|s: CardSuit| #![trigger self.sides(s)] side_shaped(self.sides(s).0, s, true) && side_shaped(self.sides(s).1, s, false)
    }
}

/// Putting a card of the side's suit and range on a shaped side, as `add`
/// does, keeps it shaped.
proof fn lemma_side_add(side: Seq<(Card, u32)>, s: CardSuit, low: bool, c: Card, is_myself: bool)
    requires
        side_shaped(side, s, low),
        c.suit == s,
        if low { 1 <= c.num <= 7 } else { 8 <= c.num <= 13 },
        can_add_to(side, c),
    ensures
        side_shaped(side_after_add(side, c, is_myself), s, low),
{
    let n = side_after_add(side, c, is_myself);
    if side.len() > 0 && side[0].1 == 0 {
        assert(n =~= seq![(c, round_mark(is_myself))]);
    } else {
        assert(n =~= seq![(c, round_mark(is_myself))] + side);
        assert forall|i: int| 0 <= i < side.len() implies (#[trigger] side[i]).1 != 0 by {
            if side[i].1 == 0 {
                assert(side.len() == 1);
            }
        }
        assert forall|i: int| 0 <= i < n.len() implies {
            &&& (#[trigger] n[i]).0.suit == s
            &&& if low { 1 <= n[i].0.num <= 7 } else { 8 <= n[i].0.num <= 13 }
            &&& n[i].1 <= 2
            &&& n[i].1 == 0 ==> n.len() == 1
        } by {
            if i > 0 {
                assert(n[i] == side[i - 1]);
            }
        }
        assert forall|i: int, j: int| 0 <= i < j < n.len() implies dist7((#[trigger] n[j]).0.num) < dist7((#[trigger] n[i]).0.num) by {
            assert(n[j] == side[j - 1]);
            if i > 0 {
                assert(n[i] == side[i - 1]);
            } else {
                if j - 1 > 0 {
                    assert(dist7(side[j - 1].0.num) < dist7(side[0].0.num));
                }
            }
        }
    }
}

/// Putting a card on a shaped desk keeps it shaped: the card is of a rank
/// from ace to king and may be put on its side.
pub proof fn lemma_add_keeps_shape(d1: &Desk, d2: &Desk, c: Card, is_myself: bool)
    requires
        d1.shaped(),
        1 <= c.num <= 13,
        can_add_to(d1.target(c), c),
        d1.adds(d2, c, is_myself),
    ensures
        d2.shaped(),
{
    assert forall|s: CardSuit| #![trigger d2.sides(s)] side_shaped(d2.sides(s).0, s, true) && side_shaped(d2.sides(s).1, s, false) by {
        assert(side_shaped(d1.sides(s).0, s, true) && side_shaped(d1.sides(s).1, s, false));
        if s == c.suit {
            if c.num <= 7 {
                lemma_side_add(d1.sides(s).0, s, true, c, is_myself);
            } else {
                lemma_side_add(d1.sides(s).1, s, false, c, is_myself);
            }
        }
    }
}

/// Starting a new round keeps a shaped desk shaped.
pub proof fn lemma_new_round_keeps_shape(d1: &Desk, d2: &Desk)
    requires
        d1.shaped(),
        forall|s: CardSuit|
            #[trigger] d2.sides(s) == (side_after_new_round(d1.sides(s).0), side_after_new_round(d1.sides(s).1)),
    ensures
        d2.shaped(),
{
    assert forall|s: CardSuit| #![trigger d2.sides(s)] side_shaped(d2.sides(s).0, s, true) && side_shaped(d2.sides(s).1, s, false) by {
        assert(side_shaped(d1.sides(s).0, s, true) && side_shaped(d1.sides(s).1, s, false));
        let a = d1.sides(s).0;
        let b = d1.sides(s).1;
        if a.len() > 0 {
            assert(side_after_new_round(a) =~= seq![(a[0].0, 0u32)]);
        }
        if b.len() > 0 {
            assert(side_after_new_round(b) =~= seq![(b[0].0, 0u32)]);
        }
    }
}

/// The hint of a desk with a card on it, suit by suit: the seven of a suit
/// with no card yet; the eight of a suit with cards up to the seven and none
/// above it; the card one rank above the outermost card above the seven,
/// unless that is a king; and the card one rank below the outermost card up
/// to the seven, unless that is an ace. On an empty desk only the seven of
/// hearts is hinted.
pub proof fn lemma_hint_neighbours(d: &Desk, s: CardSuit)
    ensures
        d.spec_is_empty() ==> d.possible() == set![heart_seven()],
        !d.spec_is_empty() && d.sides(s).0.len() == 0 && d.sides(s).1.len() == 0 ==> d.possible().contains(
            Card { suit: s, num: 7 },
        ),
        !d.spec_is_empty() && d.sides(s).0.len() > 0 && d.sides(s).1.len() == 0 ==> d.possible().contains(
            Card { suit: s, num: 8 },
        ),
        !d.spec_is_empty() && d.sides(s).1.len() > 0 && d.sides(s).1[0].0.num < 13 ==> d.possible().contains(
            Card { suit: s, num: (d.sides(s).1[0].0.num + 1) as u32 },
        ),
        !d.spec_is_empty() && d.sides(s).0.len() > 0 && 2 <= d.sides(s).0[0].0.num ==> d.possible().contains(
            Card { suit: s, num: (d.sides(s).0[0].0.num - 1) as u32 },
        ),
{
    let small = d.sides(s).0;
    let big = d.sides(s).1;
    assert(d.sides(s) == (small, big));
    match s {
        CardSuit::Spade => {},
        CardSuit::Heart => {},
        CardSuit::Club => {},
        CardSuit::Diamond => {},
    }
}

/// The card `x` sits next to the chain of its suit with sides `small` (up to
/// the seven) and `big` (above it): the seven while the chain is empty, the
/// eight while nothing lies above the seven, one rank above the outermost
/// card above the seven unless that is a king, or one rank below the
/// outermost card up to the seven unless that is an ace.
pub open spec fn next_to_chain(small: Seq<(Card, u32)>, big: Seq<(Card, u32)>, x: Card) -> bool {
    ||| small.len() == 0 && big.len() == 0 && x.num == 7
    ||| small.len() > 0 && big.len() == 0 && x.num == 8
    ||| big.len() > 0 && big[0].0.num != 13 && x.num == big[0].0.num + 1
    ||| small.len() > 0 && small[0].0.num != 1 && x.num + 1 == small[0].0.num
}

/// On a desk with a card on it whose hints can be computed, exactly the
/// cards next to the chain of their suit are hinted.
pub proof fn lemma_hint_exactly_neighbours(d: &Desk, x: Card)
    requires
        !d.spec_is_empty(),
        d.hint_ok(),
    ensures
        d.possible().contains(x) <==> next_to_chain(d.sides(x.suit).0, d.sides(x.suit).1, x),
{
    assert(hint_fits(d.sides(x.suit).0, d.sides(x.suit).1));
    assert(d.sides(CardSuit::Spade) == (d.spade.0@, d.spade.1@));
    assert(d.sides(CardSuit::Heart) == (d.heart.0@, d.heart.1@));
    assert(d.sides(CardSuit::Club) == (d.club.0@, d.club.1@));
    assert(d.sides(CardSuit::Diamond) == (d.diamond.0@, d.diamond.1@));
}

impl Default for Desk {
    fn default() -> (d: Desk)
        ensures
            d.spec_is_empty(),
            d.shaped(),
    {
        Desk {
            spade: (Vec::new(), Vec::new()),
            heart: (Vec::new(), Vec::new()),
            club: (Vec::new(), Vec::new()),
            diamond: (Vec::new(), Vec::new()),
        }
    }
}

} // verus!
