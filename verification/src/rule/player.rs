//! The hand of a player as the rules see it: the cards still to play, the
//! cards held face down in the order in which they were held, and whether
//! the player is ready.

use vstd::prelude::*;
use crate::game::{Card, contains_card, insert_card, remove_card};
use crate::rule::{Play, GameError, GameResult, card_of_rule_play, spec_dummy_card, dummy_card};

verus! {

/// Copies a list of cards.
fn copy_cards(v: &Vec<Card>) -> (r: Vec<Card>)
    ensures
        r@ == v@,
{
    let mut r: Vec<Card> = Vec::new();
    let mut i: usize = 0;
    while i < v.len()
        invariant
            i <= v@.len(),
            r@ == v@.take(i as int),
        decreases v@.len() - i,
    {
        r.push(v[i]);
        i = i + 1;
        proof {
            assert(r@ =~= v@.take(i as int));
        }
    }
    proof {
        assert(r@ =~= v@);
    }
    r
}

/// A player as the rules see it.
#[derive(Clone, Debug)]
pub struct Player {
    name: String,
    cards: Vec<Card>,
    holds: Vec<Card>,
    ready: bool,
}

impl Player {
    pub closed spec fn spec_name(&self) -> Seq<char> {
        self.name@
    }

    /// The cards still to play, in the order in which they came.
    pub closed spec fn cards_seq(&self) -> Seq<Card> {
        self.cards@
    }

    /// The cards held face down, in the order in which they were held.
    pub closed spec fn holds_seq(&self) -> Seq<Card> {
        self.holds@
    }

    pub closed spec fn spec_ready(&self) -> bool {
        self.ready
    }

    /// The cards still to play.
    pub open spec fn hand(&self) -> Set<Card> {
        self.cards_seq().to_set()
    }

    /// No card is twice in the hand.
    pub open spec fn wf(&self) -> bool {
        self.cards_seq().no_duplicates()
    }

    /// A player of name `name` with no cards, not ready.
    pub fn new(name: String) -> (p: Player)
        ensures
            p.wf(),
            p.spec_name() == name@,
            p.cards_seq().len() == 0,
            p.holds_seq().len() == 0,
            !p.spec_ready(),
    {
        Player { name, cards: Vec::new(), holds: Vec::new(), ready: false }
    }

    pub fn get_name(&self) -> (s: String)
        ensures
            s@ == self.spec_name(),
    {
        self.name.clone()
    }

    /// Marks the player ready.
    pub fn get_ready(&mut self)
        ensures
            final(self).spec_ready(),
            final(self).spec_name() == old(self).spec_name(),
            final(self).cards_seq() == old(self).cards_seq(),
            final(self).holds_seq() == old(self).holds_seq(),
    {
        self.ready = true;
    }

    pub fn is_ready(&self) -> (b: bool)
        ensures
            b == self.spec_ready(),
    {
        self.ready
    }

    /// Marks the player not ready and takes every card away.
    pub fn reset(&mut self)
        ensures
            final(self).wf(),
            !final(self).spec_ready(),
            final(self).spec_name() == old(self).spec_name(),
            final(self).cards_seq().len() == 0,
            final(self).holds_seq().len() == 0,
    {
        self.ready = false;
        self.clear();
    }

    /// Gives card `c` to the player; refused when the player has it already.
    pub fn add_card(&mut self, c: Card) -> (r: GameResult<()>)
        requires
            old(self).wf(),
        ensures
            final(self).wf(),
            old(self).hand().contains(c) ==> r is Err && final(self).cards_seq() == old(self).cards_seq()
                && final(self).holds_seq() == old(self).holds_seq()
                && final(self).spec_ready() == old(self).spec_ready()
                && final(self).spec_name() == old(self).spec_name(),
            !old(self).hand().contains(c) ==> r is Ok && final(self).cards_seq() == old(self).cards_seq().push(c)
                && final(self).holds_seq() == old(self).holds_seq()
                && final(self).spec_ready() == old(self).spec_ready()
                && final(self).spec_name() == old(self).spec_name(),
    {
        if !insert_card(&mut self.cards, c) {
            return Err(GameError::Internal("Add same card multiple times!".to_owned()));
        }
        Ok(())
    }

    /// Gives the player the cards of `cards`, each once, in place of the
    /// hand, and takes the held cards away.
    pub fn init_cards(&mut self, cards: Vec<Card>)
        ensures
            final(self).wf(),
            final(self).hand() == cards@.to_set(),
            final(self).holds_seq().len() == 0,
            final(self).spec_ready() == old(self).spec_ready(),
            final(self).spec_name() == old(self).spec_name(),
    {
        let mut set: Vec<Card> = Vec::new();
        let mut i: usize = 0;
        while i < cards.len()
            invariant
                i <= cards@.len(),
                set@.no_duplicates(),
                set@.to_set() == cards@.take(i as int).to_set(),
            decreases cards@.len() - i,
        {
            insert_card(&mut set, cards[i]);
            proof {
                assert(cards@.take(i as int + 1) =~= cards@.take(i as int).push(cards@[i as int]));
                cards@.take(i as int).lemma_push_to_set_commute(cards@[i as int]);
            }
            i = i + 1;
        }
        proof {
            assert(cards@.take(cards@.len() as int) =~= cards@);
        }
        self.cards = set;
        self.holds.clear();
    }

    /// Gives the player thirteen stand-in cards for the hidden hand of
    /// another player; being all alike, they make one card of the hand.
    pub fn init_dummy_cards(&mut self)
        ensures
            final(self).wf(),
            final(self).hand() == set![spec_dummy_card()],
            final(self).holds_seq().len() == 0,
            final(self).spec_ready() == old(self).spec_ready(),
            final(self).spec_name() == old(self).spec_name(),
    {
        let mut dc: Vec<Card> = Vec::new();
        let mut i: usize = 0;
        while i < 13
            invariant
                i <= 13,
                dc@.len() == i,
                forall|j: int| 0 <= j < i ==> dc@[j] == spec_dummy_card(),
            decreases 13 - i,
        {
            dc.push(dummy_card());
            i = i + 1;
        }
        proof {
            assert(dc@.to_set() =~= set![spec_dummy_card()]) by {
                assert(dc@[0] == spec_dummy_card());
            }
        }
        self.init_cards(dc);
    }

    /// Takes every card away.
    pub fn clear(&mut self)
        ensures
            final(self).wf(),
            final(self).cards_seq().len() == 0,
            final(self).holds_seq().len() == 0,
            final(self).spec_ready() == old(self).spec_ready(),
            final(self).spec_name() == old(self).spec_name(),
    {
        self.cards.clear();
        self.holds.clear();
    }

    /// The cards still to play.
    pub fn get_cards(&self) -> (r: Vec<Card>)
        ensures
            r@ == self.cards_seq(),
    {
        copy_cards(&self.cards)
    }

    /// The cards still to play, to be looked at in place.
    pub fn get_cards_iter(&self) -> (r: &Vec<Card>)
        ensures
            r@ == self.cards_seq(),
    {
        &self.cards
    }

    /// How many cards are left to play.
    pub fn get_card_num(&self) -> (n: usize)
        ensures
            n == self.cards_seq().len(),
    {
        self.cards.len()
    }

    /// How many cards are held face down.
    pub fn get_hold_num(&self) -> (n: u32)
        ensures
            n == self.holds_seq().len() as u32,
    {
        self.holds.len() as u32
    }

    /// The held cards.
    pub fn get_holds(&self) -> (r: Vec<Card>)
        ensures
            r@ == self.holds_seq(),
    {
        copy_cards(&self.holds)
    }

    /// Whether `c` is in the hand.
    pub fn has_card(&self, c: &Card) -> (b: bool)
        ensures
            b == self.hand().contains(*c),
    {
        contains_card(&self.cards, c)
    }

    /// Whether cards are left to play.
    pub fn has_card_left(&self) -> (b: bool)
        ensures
            b == (self.cards_seq().len() != 0),
    {
        self.cards.len() != 0
    }

    /// Whether `c` is among the held cards.
    pub fn is_holding(&self, c: &Card) -> (b: bool)
        ensures
            b == self.holds_seq().contains(*c),
    {
        contains_card(&self.holds, c)
    }

    /// Applies `play` to the hand; the play is not checked. The card leaves
    /// the hand, and a held card is put behind the held cards.
    pub fn play_card(&mut self, play: Play)
        requires
            old(self).wf(),
        ensures
            final(self).wf(),
            final(self).hand() == old(self).hand().remove(card_of_rule_play(play)),
            play is Discard ==> final(self).holds_seq() == old(self).holds_seq(),
            play is Hold ==> final(self).holds_seq() == old(self).holds_seq().push(card_of_rule_play(play)),
            final(self).spec_ready() == old(self).spec_ready(),
            final(self).spec_name() == old(self).spec_name(),
    {
        match play {
            Play::Discard(c, _) => {
                remove_card(&mut self.cards, &c);
            },
            Play::Hold(c, _) => {
                remove_card(&mut self.cards, &c);
                self.holds.push(c);
            },
        }
    }
}

impl Default for Player {
    fn default() -> (p: Player)
        ensures
            p.wf(),
            p.spec_name().len() == 0,
            p.cards_seq().len() == 0,
            p.holds_seq().len() == 0,
            !p.spec_ready(),
    {
        Player { name: String::new(), cards: Vec::new(), holds: Vec::new(), ready: false }
    }
}

} // verus!
