//! Cards, and the hand of one player on the server: the cards still to
//! play, the cards held face down, and whether the player is ready.

use vstd::prelude::*;
use crate::proto::{CardSuit, CardInfo, CardResult, HoldList, Play};
use crate::error::RpcError;
use crate::desk::Desk;

verus! {

/// A playing card: a suit and a rank from 1 (ace) to 13 (king).
#[derive(Clone, Copy, Debug, PartialEq, Eq, Structural, Hash, PartialOrd, Ord)]
pub struct Card {
    pub suit: CardSuit,
    pub num: u32,
}

/// The suit that a wire number stands for; every number from 3 on is a diamond.
pub open spec fn suit_of_index(i: i32) -> CardSuit {
    if i == 0 {
        CardSuit::Spade
    } else if i == 1 {
        CardSuit::Heart
    } else if i == 2 {
        CardSuit::Club
    } else {
        CardSuit::Diamond
    }
}

/// The wire number of a suit.
pub open spec fn suit_index(s: CardSuit) -> i32 {
    match s {
        CardSuit::Spade => 0,
        CardSuit::Heart => 1,
        CardSuit::Club => 2,
        CardSuit::Diamond => 3,
    }
}

/// The card that a wire card stands for.
pub open spec fn card_of_info(ci: CardInfo) -> Card {
    Card { suit: suit_of_index(ci.suit), num: ci.num }
}

/// The wire form of a card.
pub open spec fn info_of_card(c: Card) -> CardInfo {
    CardInfo { suit: suit_index(c.suit), num: c.num }
}

/// The card that a number of a deck of 52 stands for: thirteen cards of
/// each suit in turn, from the ace up (numbers from 52 on are diamonds).
pub open spec fn card_of_index(c: u32) -> Card {
    Card { suit: suit_of_index(if c / 13 < 3 { (c / 13) as i32 } else { 3 }), num: (c % 13 + 1) as u32 }
}

/// The seven of hearts, the card that opens every game.
pub open spec fn heart_seven() -> Card {
    Card { suit: CardSuit::Heart, num: 7 }
}

/// Whether `v` holds `c`.
pub fn contains_card(v: &Vec<Card>, c: &Card) -> (b: bool)
    ensures
        b == v@.contains(*c),
{
    let mut i: usize = 0;
    while i < v.len()
        invariant
            i <= v.len(),
            forall|j: int| 0 <= j < i ==> v@[j] != *c,
        decreases v.len() - i,
    {
        if v[i] == *c {
            return true;
        }
        i = i + 1;
    }
    false
}

/// Adds `c` to a list without repetitions unless it is there already;
/// tells whether it was added.
pub fn insert_card(v: &mut Vec<Card>, c: Card) -> (added: bool)
    requires
        old(v)@.no_duplicates(),
    ensures
        final(v)@.no_duplicates(),
        final(v)@.to_set() == old(v)@.to_set().insert(c),
        added == !old(v)@.contains(c),
        added ==> final(v)@ == old(v)@.push(c),
        !added ==> final(v)@ == old(v)@,
{
    if contains_card(v, &c) {
        proof {
            assert(old(v)@.to_set().insert(c) =~= old(v)@.to_set());
        }
        false
    } else {
        v.push(c);
        proof {
            assert(v@.to_set() =~= old(v)@.to_set().insert(c)) by {
                assert forall|x: Card| v@.to_set().contains(x) <==> old(v)@.to_set().insert(c).contains(x) by {
                    if x != c && v@.contains(x) {
                        let k = choose|k: int| 0 <= k < v@.len() && v@[k] == x;
                        assert(old(v)@[k] == x);
                    }
                    if old(v)@.contains(x) {
                        let k = choose|k: int| 0 <= k < old(v)@.len() && old(v)@[k] == x;
                        assert(v@[k] == x);
                    }
                    if x == c {
                        assert(v@[old(v)@.len() as int] == c);
                    }
                }
            }
        }
        true
    }
}

/// Removes `c` from a list without repetitions; tells whether it was there.
pub fn remove_card(v: &mut Vec<Card>, c: &Card) -> (found: bool)
    requires
        old(v)@.no_duplicates(),
    ensures
        final(v)@.no_duplicates(),
        final(v)@.to_set() == old(v)@.to_set().remove(*c),
        found == old(v)@.contains(*c),
        !found ==> final(v)@ == old(v)@,
        found ==> final(v)@.len() == old(v)@.len() - 1,
{
    let mut i: usize = 0;
    while i < v.len()
        invariant
            i <= v.len(),
            v@ == old(v)@,
            old(v)@.no_duplicates(),
            forall|j: int| 0 <= j < i ==> v@[j] != *c,
        decreases v.len() - i,
    {
        if v[i] == *c {
            let ghost s = v@;
            v.remove(i);
            proof {
                s.remove_ensures(i as int);
                assert forall|x: Card| v@.to_set().contains(x) <==> s.to_set().remove(*c).contains(x) by {
                    if v@.contains(x) {
                        let k = choose|k: int| 0 <= k < v@.len() && v@[k] == x;
                        if k < i {
                            assert(s[k] == x);
                        } else {
                            assert(s[k + 1] == x);
                        }
                    }
                    if s.contains(x) && x != *c {
                        let k = choose|k: int| 0 <= k < s.len() && s[k] == x;
                        if k < i {
                            assert(v@[k] == x);
                        } else {
                            assert(k != i);
                            assert(v@[k - 1] == x);
                        }
                    }
                }
                assert(v@.to_set() =~= s.to_set().remove(*c));
                assert(v@.no_duplicates()) by {
                    assert forall|a: int, b: int| 0 <= a < b < v@.len() implies v@[a] != v@[b] by {
                        let a2 = if a < i { a } else { a + 1 };
                        let b2 = if b < i { b } else { b + 1 };
                        assert(v@[a] == s[a2]);
                        assert(v@[b] == s[b2]);
                    }
                }
            }
            return true;
        }
        i = i + 1;
    }
    proof {
        assert(old(v)@.to_set().remove(*c) =~= old(v)@.to_set());
    }
    false
}

impl Card {
    /// The card that a wire card stands for.
    pub fn from_info(cinfo: &CardInfo) -> (c: Card)
        ensures
            c == card_of_info(*cinfo),
    {
        Card {
            suit: match cinfo.suit {
                0 => CardSuit::Spade,
                1 => CardSuit::Heart,
                2 => CardSuit::Club,
                _ => CardSuit::Diamond,
            },
            num: cinfo.num,
        }
    }

    /// The wire form of this card.
    pub fn into_info(self) -> (ci: CardInfo)
        ensures
            ci == info_of_card(self),
    {
        CardInfo {
            suit: match self.suit {
                CardSuit::Spade => 0,
                CardSuit::Heart => 1,
                CardSuit::Club => 2,
                CardSuit::Diamond => 3,
            },
            num: self.num,
        }
    }

    /// This card on the desk, laid by player `pid`.
    pub fn into_result(self, pid: u32) -> (r: CardResult)
        ensures
            r.card == Some(info_of_card(self)),
            r.whose == pid,
    {
        CardResult { card: Some(self.into_info()), whose: pid }
    }
}

impl From<Card> for CardInfo {
    /// The wire form of a card.
    fn from(c: Card) -> (ci: CardInfo) {
        c.into_info()
    }
}

impl vstd::std_specs::convert::FromSpecImpl<Card> for CardInfo {
    open spec fn obeys_from_spec() -> bool {
        true
    }

    open spec fn from_spec(v: Card) -> CardInfo {
        info_of_card(v)
    }
}

impl From<(Card, u32)> for CardResult {
    /// A card on the desk together with the player who laid it.
    fn from(p: (Card, u32)) -> (r: CardResult) {
        p.0.into_result(p.1)
    }
}

impl vstd::std_specs::convert::FromSpecImpl<(Card, u32)> for CardResult {
    open spec fn obeys_from_spec() -> bool {
        true
    }

    open spec fn from_spec(v: (Card, u32)) -> CardResult {
        CardResult { card: Some(info_of_card(v.0)), whose: v.1 }
    }
}

/// The wire forms of a list of cards.
pub open spec fn infos_of(cards: Seq<Card>) -> Seq<CardInfo> {
    cards.map_values(|c: Card| info_of_card(c))
}

/// The card that a play lays or holds.
pub open spec fn card_of_play(play: Play) -> Card {
    match play {
        Play::Discard(ci) => card_of_info(ci),
        Play::Hold(ci) => card_of_info(ci),
    }
}

/// A play as the other players are told of it: a discarded card is shown,
/// a held card is not (it goes out as suit 0, rank 0).
pub fn public_play(play: &Play) -> (p: Play)
    ensures
        *play matches Play::Discard(ci) ==> p == Play::Discard(ci),
        *play matches Play::Hold(_) ==> p == Play::Hold(CardInfo { suit: 0, num: 0 }),
{
    match play {
        Play::Discard(ci) => Play::Discard(*ci),
        Play::Hold(_) => Play::Hold(CardInfo { suit: 0, num: 0 }),
    }
}

/// Maps cards to their wire form.
pub fn cards_to_infos(cards: &Vec<Card>) -> (r: Vec<CardInfo>)
    ensures
        r@ == infos_of(cards@),
{
    let mut r: Vec<CardInfo> = Vec::new();
    let mut i: usize = 0;
    while i < cards.len()
        invariant
            i <= cards@.len(),
            r@ == infos_of(cards@).take(i as int),
        decreases cards@.len() - i,
    {
        r.push(cards[i].into_info());
        i = i + 1;
        proof {
            assert(r@ =~= infos_of(cards@).take(i as int));
        }
    }
    proof {
        assert(r@ =~= infos_of(cards@));
    }
    r
}

/// The hand of one player on the server.
#[derive(Clone, Debug)]
pub struct Game {
    cards: Vec<Card>,
    holds: Vec<Card>,
    ready: bool,
}

impl Game {
    /// The cards still to play, in the order in which they were dealt.
    pub closed spec fn cards_seq(&self) -> Seq<Card> {
        self.cards@
    }

    /// The cards held face down, in the order in which they were held.
    pub closed spec fn holds_seq(&self) -> Seq<Card> {
        self.holds@
    }

    /// Whether the player is ready.
    pub closed spec fn spec_ready(&self) -> bool {
        self.ready
    }

    /// The cards still to play.
    pub open spec fn hand(&self) -> Set<Card> {
        self.cards_seq().to_set()
    }

    /// The cards held face down.
    pub open spec fn held(&self) -> Set<Card> {
        self.holds_seq().to_set()
    }

    /// No card is twice in the hand or twice among the held cards.
    pub open spec fn wf(&self) -> bool {
        self.cards_seq().no_duplicates() && self.holds_seq().no_duplicates()
    }

    /// The outcome of checking `play` against this hand and `desk`: a card
    /// must be in the hand; a discarded card must fit on the desk; a card may
    /// only be held while no card of the hand fits on the desk.
    pub open spec fn spec_valid_play(&self, desk: &Desk, play: Play, is_first: bool) -> Result<(), RpcError> {
        let c = card_of_play(play);
        if !self.hand().contains(c) {
            Err(RpcError::NotOwned)
        } else {
            match play {
                Play::Discard(_) => if desk.candidates(is_first).contains(c) {
                    Ok(())
                } else {
                    Err(RpcError::InvalidDiscard)
                },
                Play::Hold(_) => if exists|x: Card|
                    #![trigger desk.candidates(is_first).contains(x)]
                    self.hand().contains(x) && desk.candidates(is_first).contains(x) {
                    Err(RpcError::MustDiscard)
                } else {
                    Ok(())
                },
            }
        }
    }

    /// Marks the player ready; refused when the player is ready already.
    pub fn ready(&mut self) -> (r: Result<(), RpcError>)
        ensures
            old(self).spec_ready() ==> r == Err::<(), RpcError>(RpcError::AlreadyReady) && *final(self) == *old(self),
            !old(self).spec_ready() ==> r is Ok && final(self).spec_ready()
                && final(self).cards_seq() == old(self).cards_seq()
                && final(self).holds_seq() == old(self).holds_seq(),
    {
        if self.ready {
            Err(RpcError::AlreadyReady)
        } else {
            self.ready = true;
            Ok(())
        }
    }

    /// Whether the player is ready.
    pub fn is_ready(&self) -> (b: bool)
        ensures
            b == self.spec_ready(),
    {
        self.ready
    }

    /// Marks the player not ready.
    pub fn unready(&mut self)
        ensures
            !final(self).spec_ready(),
            final(self).cards_seq() == old(self).cards_seq(),
            final(self).holds_seq() == old(self).holds_seq(),
    {
        self.ready = false
    }

    /// Whether cards are left to play.
    pub fn has_cards(&self) -> (b: bool)
        ensures
            b == (self.cards_seq().len() != 0),
    {
        self.cards.len() != 0
    }

    /// Deals card number `c` of the deck to this hand; a card that is in
    /// the hand already is not added again.
    pub fn add_card(&mut self, c: &u32)
        requires
            old(self).wf(),
        ensures
            final(self).wf(),
            final(self).hand() == old(self).hand().insert(card_of_index(*c)),
            final(self).holds_seq() == old(self).holds_seq(),
            final(self).spec_ready() == old(self).spec_ready(),
            old(self).cards_seq().contains(card_of_index(*c)) ==> final(self).cards_seq() == old(self).cards_seq(),
            !old(self).cards_seq().contains(card_of_index(*c)) ==> final(self).cards_seq() == old(self).cards_seq().push(card_of_index(*c)),
    {
        let card = Card {
            suit: match *c / 13 {
                0 => CardSuit::Spade,
                1 => CardSuit::Heart,
                2 => CardSuit::Club,
                _ => CardSuit::Diamond,
            },
            num: *c % 13 + 1,
        };
        proof {
            assert(card == card_of_index(*c));
        }
        insert_card(&mut self.cards, card);
    }

    /// Empties the hand and the held cards for a new game.
    pub fn new_game(&mut self)
        ensures
            final(self).wf(),
            final(self).cards_seq().len() == 0,
            final(self).holds_seq().len() == 0,
            final(self).spec_ready() == old(self).spec_ready(),
    {
        self.cards.clear();
        self.holds.clear();
    }

    /// The cards still to play, in wire form.
    pub fn get_cards(&self) -> (r: Vec<CardInfo>)
        ensures
            r@ == infos_of(self.cards_seq()),
    {
        cards_to_infos(&self.cards)
    }

    /// How many cards are held face down.
    pub fn get_holds_num(&self) -> (n: u32)
        ensures
            n == self.holds_seq().len() as u32,
    {
        self.holds.len() as u32
    }

    /// The held cards, in wire form.
    pub fn get_holds(&self) -> (r: Vec<CardInfo>)
        ensures
            r@ == infos_of(self.holds_seq()),
    {
        cards_to_infos(&self.holds)
    }

    /// The held cards, as they are reported at the end of a game.
    pub fn get_hold_list(&self) -> (r: HoldList)
        ensures
            r.holds@ == infos_of(self.holds_seq()),
    {
        HoldList { holds: cards_to_infos(&self.holds) }
    }

    /// Whether `c` is in the hand.
    pub fn has_card(&self, c: &Card) -> (b: bool)
        ensures
            b == self.hand().contains(*c),
    {
        contains_card(&self.cards, c)
    }

    /// Checks `play` against this hand and `desk`; `is_first` tells that it
    /// would be the first card of the game.
    pub fn is_valid_play(&self, desk: &Desk, play: &Play, is_first: bool) -> (r: Result<(), RpcError>)
        requires
            self.hand().contains(card_of_play(*play)) && !is_first ==> desk.fits(),
        ensures
            r == self.spec_valid_play(desk, *play, is_first),
    {
        match play {
            Play::Discard(ci) => {
                let c = Card::from_info(ci);
                if self.has_card(&c) {
                    if desk.is_valid_discard(&c, is_first) {
                        Ok(())
                    } else {
                        Err(RpcError::InvalidDiscard)
                    }
                } else {
                    Err(RpcError::NotOwned)
                }
            },
            Play::Hold(ci) => {
                let c = Card::from_info(ci);
                if self.has_card(&c) {
                    let desk_cand = desk.discard_candidates(is_first);
                    let mut i: usize = 0;
                    while i < self.cards.len()
                        invariant
                            i <= self.cards@.len(),
                            desk_cand@.to_set() == desk.candidates(is_first),
                            *play == Play::Hold(*ci),
                            c == card_of_info(*ci),
                            self.hand().contains(c),
                            forall|j: int| 0 <= j < i ==> !desk.candidates(is_first).contains(#[trigger] self.cards@[j]),
                        decreases self.cards@.len() - i,
                    {
                        if contains_card(&desk_cand, &self.cards[i]) {
                            proof {
                                assert(self.hand().contains(self.cards@[i as int]));
                                assert(desk_cand@.to_set().contains(self.cards@[i as int]));
                                assert(desk.candidates(is_first).contains(self.cards@[i as int]));
                            }
                            return Err(RpcError::MustDiscard);
                        }
                        i = i + 1;
                    }
                    proof {
                        assert forall|x: Card| self.hand().contains(x) implies !desk.candidates(is_first).contains(x) by {
                            let k = choose|k: int| 0 <= k < self.cards@.len() && self.cards@[k] == x;
                        }
                    }
                    Ok(())
                } else {
                    Err(RpcError::NotOwned)
                }
            },
        }
    }

    /// Applies `play` to this hand; the play is not checked. The card leaves
    /// the hand, and a held card joins the held cards.
    pub fn play_card(&mut self, play: &Play) -> (r: Result<(), RpcError>)
        requires
            old(self).wf(),
        ensures
            r is Ok,
            final(self).wf(),
            final(self).spec_ready() == old(self).spec_ready(),
            final(self).hand() == old(self).hand().remove(card_of_play(*play)),
            old(self).cards_seq().contains(card_of_play(*play))
                ==> final(self).cards_seq().len() == old(self).cards_seq().len() - 1,
            !old(self).cards_seq().contains(card_of_play(*play))
                ==> final(self).cards_seq() == old(self).cards_seq(),
            play is Discard ==> final(self).holds_seq() == old(self).holds_seq(),
            play is Hold ==> final(self).held() == old(self).held().insert(card_of_play(*play)),
    {
        match play {
            Play::Discard(ci) => {
                let c = Card::from_info(ci);
                remove_card(&mut self.cards, &c);
                Ok(())
            },
            Play::Hold(ci) => {
                let c = Card::from_info(ci);
                remove_card(&mut self.cards, &c);
                insert_card(&mut self.holds, c);
                Ok(())
            },
        }
    }
}

impl Default for Game {
    fn default() -> (g: Game)
        ensures
            g.wf(),
            g.cards_seq().len() == 0,
            g.holds_seq().len() == 0,
            !g.spec_ready(),
    {
        Game { cards: Vec::new(), holds: Vec::new(), ready: false }
    }
}

/// Holding a card of the hand is refused while any card of the hand may be
/// laid on the desk, whichever card it is, the held card itself included.
pub proof fn lemma_hold_refused_while_a_card_fits(g: Game, desk: Desk, ci: CardInfo, x: Card, is_first: bool)
    requires
        g.hand().contains(card_of_info(ci)),
        g.hand().contains(x),
        desk.candidates(is_first).contains(x),
    ensures
        g.spec_valid_play(&desk, Play::Hold(ci), is_first) == Err::<(), RpcError>(RpcError::MustDiscard),
{
}

/// Holding a card that may itself be laid on the desk is always refused.
pub proof fn lemma_hold_of_fitting_card_refused(g: Game, desk: Desk, ci: CardInfo, is_first: bool)
    requires
        g.hand().contains(card_of_info(ci)),
        desk.candidates(is_first).contains(card_of_info(ci)),
    ensures
        g.spec_valid_play(&desk, Play::Hold(ci), is_first) == Err::<(), RpcError>(RpcError::MustDiscard),
{
    lemma_hold_refused_while_a_card_fits(g, desk, ci, card_of_info(ci), is_first);
}

/// Holding a card of the hand is accepted when no card of the hand may be
/// laid on the desk; a card that is not in the hand is never accepted, held
/// or laid.
pub proof fn lemma_hold_accepted_when_nothing_fits(g: Game, desk: Desk, play: Play, is_first: bool)
    ensures
        !g.hand().contains(card_of_play(play)) ==> g.spec_valid_play(&desk, play, is_first) == Err::<(), RpcError>(
            RpcError::NotOwned,
        ),
        play is Hold && g.hand().contains(card_of_play(play)) && (forall|x: Card|
            g.hand().contains(x) ==> !#[trigger] desk.candidates(is_first).contains(x)) ==> g.spec_valid_play(
            &desk,
            play,
            is_first,
        ) == Ok::<(), RpcError>(()),
        play is Discard && g.hand().contains(card_of_play(play)) ==> (g.spec_valid_play(&desk, play, is_first) is Ok
            <==> desk.candidates(is_first).contains(card_of_play(play))),
{
}

} // verus!
