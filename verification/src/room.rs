//! A room of the server: up to four players join, get ready, are dealt
//! thirteen cards each and play in turn until every card is laid or held.
//! The room decides every request; sending the messages and keeping the
//! rooms apart is left to the caller.

use vstd::prelude::*;
use rand::seq::SliceRandom;
use crate::proto::{
    CardSuit, GameInfo, GameResult, HeldCards, HoldList, Play, PlayerInfo, ReadyList, RoomInfo, State,
};
use crate::error::RpcError;
use crate::game::{Card, Game, card_of_index, card_of_info, card_of_play, heart_seven, info_of_card, infos_of, suit_index};
use crate::desk::{Desk, chain_after_lay, spec_chain_info, spec_chain_result, whose_u32, lemma_well_laid_fits, lemma_discard_keeps_runs};

verus! {

/// Shuffles `deck` in place with the generator of the current thread.
/// `SliceRandom::shuffle` of rand swaps elements of the slice with one
/// another, so the deck keeps its cards; which order comes out is left open.
#[verifier::external_body]
fn shuffle_deck(deck: &mut Vec<u32>)
    ensures
        final(deck)@.to_multiset() == old(deck)@.to_multiset(),
{
    deck.shuffle(&mut rand::thread_rng());
}

/// The phases of a room.
#[derive(Clone, Copy, Debug, PartialEq, Eq, Structural)]
pub enum RoomState {
    NotFull,
    WaitReady,
    Gaming,
    EndGame,
}

/// A player in a room: the name and the hand.
#[derive(Debug)]
struct Player {
    name: String,
    game: Game,
}

/// The cards dealt to player `pi` from the first `n` of its thirteen cards
/// of `deck`.
pub open spec fn dealt(deck: Seq<u32>, pi: int, n: int) -> Set<Card>
    decreases n,
{
    if n <= 0 {
        Set::empty()
    } else {
        dealt(deck, pi, n - 1).insert(card_of_index(deck[pi * 13 + n - 1]))
    }
}

/// The places, in order, of the ready players among the first `n`.
pub open spec fn ready_upto(games: Seq<Game>, n: int) -> Seq<u32>
    decreases n,
{
    if n <= 0 {
        Seq::empty()
    } else if games[n - 1].spec_ready() {
        ready_upto(games, n - 1).push((n - 1) as u32)
    } else {
        ready_upto(games, n - 1)
    }
}

/// How many of the first `n` players are ready.
pub open spec fn ready_count(games: Seq<Game>, n: int) -> nat
    decreases n,
{
    if n <= 0 {
        0
    } else {
        ready_count(games, n - 1) + if games[n - 1].spec_ready() { 1nat } else { 0nat }
    }
}

/// Two hands hold the same cards, whether or not the players are ready.
pub open spec fn same_cards(a: Game, b: Game) -> bool {
    a.cards_seq() == b.cards_seq() && a.holds_seq() == b.holds_seq()
}

/// The room after every player was marked not ready, the hands untouched.
pub open spec fn all_unready(before: Seq<Game>, after: Seq<Game>) -> bool {
    &&& after.len() == before.len()
    &&& forall|i: int| 0 <= i < after.len() ==> !(#[trigger] after[i]).spec_ready() && same_cards(after[i], before[i])
}

/// Those of the first `n` of `xs` whose player in `games` is ready, in order.
pub open spec fn keep_ready<A>(xs: Seq<A>, games: Seq<Game>, n: int) -> Seq<A>
    decreases n,
{
    if n <= 0 {
        Seq::empty()
    } else if games[n - 1].spec_ready() {
        keep_ready(xs, games, n - 1).push(xs[n - 1])
    } else {
        keep_ready(xs, games, n - 1)
    }
}

/// How many cards are left in the first `n` hands.
pub open spec fn cards_left(games: Seq<Game>, n: int) -> int
    decreases n,
{
    if n <= 0 {
        0
    } else {
        cards_left(games, n - 1) + games[n - 1].cards_seq().len()
    }
}

/// Changing one of the first `n` hands changes the count by the change of
/// that hand.
proof fn lemma_cards_left_update(a: Seq<Game>, b: Seq<Game>, n: int, k: int)
    requires
        0 <= k < n <= a.len(),
        a.len() == b.len(),
        forall|i: int| 0 <= i < n && i != k ==> #[trigger] b[i] == a[i],
    ensures
        cards_left(b, n) == cards_left(a, n) - a[k].cards_seq().len() + b[k].cards_seq().len(),
    decreases n,
{
    if n - 1 != k {
        lemma_cards_left_update(a, b, n - 1, k);
    } else {
        lemma_cards_left_same(a, b, n - 1);
    }
}

/// Hands of the same sizes hold as many cards.
proof fn lemma_cards_left_same(a: Seq<Game>, b: Seq<Game>, n: int)
    requires
        n <= a.len(),
        a.len() == b.len(),
        forall|i: int| 0 <= i < n ==> #[trigger] b[i] == a[i],
    ensures
        cards_left(b, n) == cards_left(a, n),
    decreases n,
{
    if n > 0 {
        lemma_cards_left_same(a, b, n - 1);
    }
}

/// No card is left in the first `n` hands only when each of them is empty.
proof fn lemma_cards_left_zero(games: Seq<Game>, n: int)
    requires
        n <= games.len(),
    ensures
        cards_left(games, n) >= 0,
        cards_left(games, n) == 0 ==> forall|i: int| 0 <= i < n ==> (#[trigger] games[i]).cards_seq().len() == 0,
    decreases n,
{
    if n > 0 {
        lemma_cards_left_zero(games, n - 1);
    }
}

/// Four hands of thirteen cards and empty hands after them hold 52 cards.
proof fn lemma_cards_left_dealt(games: Seq<Game>, n: int)
    requires
        4 <= n <= games.len(),
        forall|i: int| 0 <= i < n ==> (#[trigger] games[i]).cards_seq().len() == if i < 4 { 13int } else { 0int },
    ensures
        cards_left(games, n) == 52,
    decreases n,
{
    if n > 4 {
        lemma_cards_left_dealt(games, n - 1);
    } else {
        assert(cards_left(games, 0) == 0);
        assert(cards_left(games, 1) == 13);
        assert(cards_left(games, 2) == 26);
        assert(cards_left(games, 3) == 39);
    }
}

/// The numbers 0 to 51, one of each, as a new deck is before it is shuffled.
pub open spec fn full_deck() -> Seq<u32> {
    Seq::new(52, |i: int| i as u32)
}

/// The place of the player who was dealt the last number 19 (the seven of
/// hearts) among the first `k` numbers of `deck`, or `default` when none was.
pub open spec fn last_holder(deck: Seq<u32>, k: int, default: usize) -> usize
    decreases k,
{
    if k <= 0 {
        default
    } else if deck[k - 1] == 19 {
        ((k - 1) / 13) as usize
    } else {
        last_holder(deck, k - 1, default)
    }
}

/// The card of number `deck[pi * 13 + j]` is among the first `n` dealt to
/// player `pi` when `j < n`.
proof fn lemma_dealt_contains(deck: Seq<u32>, pi: int, n: int, j: int)
    requires
        0 <= j < n,
    ensures
        dealt(deck, pi, n).contains(card_of_index(deck[pi * 13 + j])),
    decreases n,
{
    if j < n - 1 {
        lemma_dealt_contains(deck, pi, n - 1, j);
    }
}

/// The holder found by `last_holder` was dealt the seven of hearts.
proof fn lemma_last_holder(deck: Seq<u32>, k: int, default: usize)
    requires
        0 <= k <= 52,
        deck.len() == 52,
        exists|j: int| 0 <= j < k && deck[j] == 19,
    ensures
        last_holder(deck, k, default) < 4,
        dealt(deck, last_holder(deck, k, default) as int, 13).contains(heart_seven()),
    decreases k,
{
    if deck[k - 1] == 19 {
        let pi = (k - 1) / 13;
        let j = (k - 1) % 13;
        assert(pi * 13 + j == k - 1);
        lemma_dealt_contains(deck, pi, 13, j);
        assert(card_of_index(19) == heart_seven());
    } else {
        let w = choose|j: int| 0 <= j < k && deck[j] == 19;
        assert(w < k - 1);
        lemma_last_holder(deck, k - 1, default);
    }
}


/// What is dealt to player `pi` from the first `n` of its numbers is the
/// cards of those numbers.
proof fn lemma_dealt_elems(deck: Seq<u32>, pi: int, n: int, c: Card)
    requires
        0 <= n,
    ensures
        dealt(deck, pi, n).contains(c) <==> exists|k: int| 0 <= k < n && c == card_of_index(#[trigger] deck[pi * 13 + k]),
    decreases n,
{
    if n > 0 {
        lemma_dealt_elems(deck, pi, n - 1, c);
        if dealt(deck, pi, n).contains(c) && c != card_of_index(deck[pi * 13 + n - 1]) {
            let k = choose|k: int| 0 <= k < n - 1 && c == card_of_index(#[trigger] deck[pi * 13 + k]);
            assert(0 <= k < n);
        }
        if exists|k: int| 0 <= k < n && c == card_of_index(#[trigger] deck[pi * 13 + k]) {
            let k = choose|k: int| 0 <= k < n && c == card_of_index(#[trigger] deck[pi * 13 + k]);
            if k < n - 1 {
                assert(dealt(deck, pi, n - 1).contains(c));
            } else {
                assert(pi * 13 + k == pi * 13 + n - 1);
            }
        }
    }
}

/// Different numbers of a deck of 52 stand for different cards, and every
/// card of the deck has a rank from ace to king.
proof fn lemma_card_of_index(x: u32, y: u32)
    requires
        x < 52,
        y < 52,
    ensures
        x != y ==> card_of_index(x) != card_of_index(y),
        1 <= card_of_index(x).num <= 13,
        x == 13 * suit_index(card_of_index(x).suit) + card_of_index(x).num - 1,
{
}

/// A card of rank ace to king is the card of some number of a deck of 52.
proof fn lemma_index_of_card(c: Card)
    requires
        1 <= c.num <= 13,
    ensures
        card_of_index((13 * suit_index(c.suit) + c.num - 1) as u32) == c,
        13 * suit_index(c.suit) + c.num - 1 < 52,
{
}

/// A shuffled deck holds each of the 52 numbers once.
proof fn lemma_shuffled_deck(deck: Seq<u32>)
    requires
        deck.to_multiset() == full_deck().to_multiset(),
    ensures
        deck.len() == 52,
        deck.no_duplicates(),
        forall|k: int| 0 <= k < 52 ==> #[trigger] deck[k] < 52,
        forall|x: u32| x < 52 ==> #[trigger] deck.contains(x),
{
    deck.to_multiset_ensures();
    full_deck().to_multiset_ensures();
    assert(full_deck().no_duplicates());
    full_deck().lemma_multiset_has_no_duplicates();
    assert forall|x: u32| deck.to_multiset().contains(x) implies deck.to_multiset().count(x) == 1 by {}
    deck.lemma_multiset_has_no_duplicates_conv();
    assert forall|k: int| 0 <= k < 52 implies #[trigger] deck[k] < 52 by {
        assert(deck.contains(deck[k]));
        assert(deck.to_multiset().count(deck[k]) > 0);
        assert(full_deck().contains(deck[k]));
    }
    assert forall|x: u32| x < 52 implies #[trigger] deck.contains(x) by {
        assert(full_deck()[x as int] == x);
        assert(full_deck().contains(x));
        assert(full_deck().to_multiset().count(x) > 0);
    }
}

/// Card `c` is dealt to one of the first four players.
pub open spec fn dealt_somewhere(deck: Seq<u32>, c: Card) -> bool {
    exists|pi: int| 0 <= pi < 4 && #[trigger] dealt(deck, pi, 13).contains(c)
}

/// From a shuffled deck, each of the first four players is dealt thirteen
/// different cards, no card goes to two of them, and every card from ace to
/// king of every suit goes to one of them.
pub proof fn lemma_deal_partition(deck: Seq<u32>)
    requires
        deck.to_multiset() == full_deck().to_multiset(),
    ensures
        forall|pi: int| 0 <= pi < 4 ==> (#[trigger] dealt(deck, pi, 13)).len() == 13,
        forall|pi: int, qi: int, c: Card|
            0 <= pi < qi < 4 ==> !(#[trigger] dealt(deck, pi, 13).contains(c) && #[trigger] dealt(deck, qi, 13).contains(c)),
        forall|c: Card| #[trigger] dealt_somewhere(deck, c) <==> 1 <= c.num <= 13,
{
    lemma_shuffled_deck(deck);
    assert forall|pi: int| 0 <= pi < 4 implies (#[trigger] dealt(deck, pi, 13)).len() == 13 by {
        lemma_dealt_len(deck, pi, 13);
    }
    assert forall|pi: int, qi: int, c: Card|
        0 <= pi < qi < 4 implies !(#[trigger] dealt(deck, pi, 13).contains(c) && #[trigger] dealt(deck, qi, 13).contains(c)) by {
        lemma_dealt_elems(deck, pi, 13, c);
        lemma_dealt_elems(deck, qi, 13, c);
        if dealt(deck, pi, 13).contains(c) && dealt(deck, qi, 13).contains(c) {
            let k1 = choose|k: int| 0 <= k < 13 && c == card_of_index(#[trigger] deck[pi * 13 + k]);
            let k2 = choose|k: int| 0 <= k < 13 && c == card_of_index(#[trigger] deck[qi * 13 + k]);
            lemma_card_of_index(deck[pi * 13 + k1], deck[qi * 13 + k2]);
            assert(pi * 13 + k1 != qi * 13 + k2);
        }
    }
    assert forall|c: Card| #[trigger] dealt_somewhere(deck, c) <==> 1 <= c.num <= 13 by {
        if 1 <= c.num <= 13 {
            lemma_index_of_card(c);
            let x = (13 * suit_index(c.suit) + c.num - 1) as u32;
            assert(deck.contains(x));
            let k = choose|k: int| 0 <= k < deck.len() && deck[k] == x;
            let pi = k / 13;
            let j = k % 13;
            assert(pi * 13 + j == k);
            lemma_dealt_contains(deck, pi, 13, j);
            assert(dealt(deck, pi, 13).contains(c));
        }
        if exists|pi: int| 0 <= pi < 4 && #[trigger] dealt(deck, pi, 13).contains(c) {
            let pi = choose|pi: int| 0 <= pi < 4 && #[trigger] dealt(deck, pi, 13).contains(c);
            lemma_dealt_elems(deck, pi, 13, c);
            let k = choose|k: int| 0 <= k < 13 && c == card_of_index(#[trigger] deck[pi * 13 + k]);
            lemma_card_of_index(deck[pi * 13 + k], deck[pi * 13 + k]);
        }
    }
}

/// Dealing `n` different numbers of a shuffled deck to a player gives `n`
/// different cards.
proof fn lemma_dealt_len(deck: Seq<u32>, pi: int, n: int)
    requires
        0 <= pi < 4,
        0 <= n <= 13,
        deck.len() == 52,
        deck.no_duplicates(),
        forall|k: int| 0 <= k < 52 ==> #[trigger] deck[k] < 52,
    ensures
        dealt(deck, pi, n).len() == n,
        dealt(deck, pi, n).finite(),
    decreases n,
{
    if n > 0 {
        lemma_dealt_len(deck, pi, n - 1);
        let x = card_of_index(deck[pi * 13 + n - 1]);
        lemma_dealt_elems(deck, pi, n - 1, x);
        if dealt(deck, pi, n - 1).contains(x) {
            let k = choose|k: int| 0 <= k < n - 1 && x == card_of_index(#[trigger] deck[pi * 13 + k]);
            lemma_card_of_index(deck[pi * 13 + k], deck[pi * 13 + n - 1]);
            assert(pi * 13 + k != pi * 13 + n - 1);
        }
    }
}

/// Counting the ready players never counts more than there are, and counts
/// fewer when one of them is not ready.
proof fn lemma_ready_count_bound(games: Seq<Game>, n: int, u: int)
    requires
        0 <= n <= games.len(),
    ensures
        ready_count(games, n) <= n,
        0 <= u < n && !games[u].spec_ready() ==> ready_count(games, n) < n,
    decreases n,
{
    if n > 0 {
        lemma_ready_count_bound(games, n - 1, u);
    }
}

/// Making one unready player ready adds one to the count.
proof fn lemma_ready_count_update(games: Seq<Game>, n: int, pid: int, g: Game)
    requires
        0 <= n <= games.len(),
        0 <= pid < games.len(),
        !games[pid].spec_ready(),
        g.spec_ready(),
    ensures
        ready_count(games.update(pid, g), n) == ready_count(games, n) + if pid < n { 1nat } else { 0nat },
    decreases n,
{
    if n > 0 {
        lemma_ready_count_update(games, n - 1, pid, g);
    }
}

/// The count of ready players depends only on who is ready.
proof fn lemma_ready_count_same(a: Seq<Game>, b: Seq<Game>, n: int)
    requires
        0 <= n <= a.len(),
        a.len() == b.len(),
        forall|i: int| 0 <= i < a.len() ==> (#[trigger] a[i]).spec_ready() == b[i].spec_ready(),
    ensures
        ready_count(a, n) == ready_count(b, n),
    decreases n,
{
    if n > 0 {
        lemma_ready_count_same(a, b, n - 1);
    }
}

/// Seating one more, unready, player keeps the count of ready players.
proof fn lemma_ready_count_update_push(games: Seq<Game>, g: Game)
    requires
        !g.spec_ready(),
    ensures
        ready_count(games.push(g), (games.len() + 1) as int) == ready_count(games, games.len() as int),
{
    lemma_ready_count_same_upto(games.push(g), games, games.len() as int);
}

/// The count of the first `n` depends only on who of the first `n` is ready.
proof fn lemma_ready_count_same_upto(a: Seq<Game>, b: Seq<Game>, n: int)
    requires
        0 <= n <= a.len(),
        n <= b.len(),
        forall|i: int| 0 <= i < n ==> (#[trigger] a[i]).spec_ready() == b[i].spec_ready(),
    ensures
        ready_count(a, n) == ready_count(b, n),
    decreases n,
{
    if n > 0 {
        lemma_ready_count_same_upto(a, b, n - 1);
    }
}

/// In a room whose seats add up, a player who is not ready yet can get
/// ready without the count of ready players passing four.
pub proof fn lemma_ready_bound(r: &Room, pid: int)
    requires
        r.seats_ok(),
        0 <= pid < r.games().len(),
        !r.games()[pid].spec_ready(),
    ensures
        r.spec_ready_cnt() < 4,
{
    lemma_ready_count_bound(r.games(), r.games().len() as int, pid);
}

/// All fields but the players are as in `b`.
pub open spec fn same_but_players(a: &Room, b: &Room) -> bool {
    &&& a.same_table(b)
    &&& a.spec_state() == b.spec_state()
    &&& a.spec_ready_cnt() == b.spec_ready_cnt()
    &&& a.spec_player_alive() == b.spec_player_alive()
}

pub struct Room {
    players: Vec<Player>,
    state: RoomState,
    ready_cnt: u32,
    id: String,
    next: usize,
    desk: Desk,
    thisround: Vec<Card>,
    play_cnt: u32,
    alive: bool,
    player_alive: bool,
}

impl Room {
    /// The hands of the players, in the order of their places.
    pub closed spec fn games(&self) -> Seq<Game> {
        self.players@.map_values(|p: Player| p.game)
    }

    /// The names of the players, in the order of their places.
    pub closed spec fn names(&self) -> Seq<Seq<char>> {
        self.players@.map_values(|p: Player| p.name@)
    }

    pub closed spec fn spec_state(&self) -> RoomState {
        self.state
    }

    /// How many players got ready since the room last waited for them.
    pub closed spec fn spec_ready_cnt(&self) -> u32 {
        self.ready_cnt
    }

    pub closed spec fn spec_id(&self) -> Seq<char> {
        self.id@
    }

    /// Whose turn it is.
    pub closed spec fn spec_next(&self) -> usize {
        self.next
    }

    pub closed spec fn spec_desk(&self) -> Desk {
        self.desk
    }

    /// The cards laid since the player at place 0 last played.
    pub closed spec fn spec_thisround(&self) -> Seq<Card> {
        self.thisround@
    }

    /// How many plays the current game has seen.
    pub closed spec fn spec_play_cnt(&self) -> u32 {
        self.play_cnt
    }

    /// Whether the room was asked for since the room watch dog last looked.
    pub closed spec fn spec_alive(&self) -> bool {
        self.alive
    }

    /// Whether a player acted since the player watch dog last looked.
    pub closed spec fn spec_player_alive(&self) -> bool {
        self.player_alive
    }

    /// The invariant of a room: no hand repeats a card, every chain on the
    /// desk is a run of its suit around the seven, and the chain of hearts is
    /// empty until the first play of a game.
    pub open spec fn wf(&self) -> bool {
        &&& forall|i: int| 0 <= i < self.games().len() ==> (#[trigger] self.games()[i]).wf()
        &&& self.spec_desk().well_laid()
        &&& self.spec_play_cnt() == 0 ==> self.spec_desk().chain(CardSuit::Heart).len() == 0
    }

    /// The seats of a room add up: at most four players, a room that takes
    /// players has a free place, and the count of ready players is not
    /// larger than the number of players who are ready.
    pub open spec fn seats_ok(&self) -> bool {
        &&& self.games().len() <= 4
        &&& self.spec_state() == RoomState::NotFull ==> self.games().len() < 4
        &&& self.spec_ready_cnt() <= ready_count(self.games(), self.games().len() as int)
    }

    /// `st` is the state of the room as it is reported: how many players
    /// joined, the places of the ready players, whose turn it is, or the end.
    pub open spec fn reports_state(&self, st: Option<State>) -> bool {
        match self.spec_state() {
            RoomState::NotFull => st == Some(State::NotFull(self.games().len() as u32)),
            RoomState::WaitReady => st matches Some(State::WaitReady(rl))
                && rl.l@ == ready_upto(self.games(), self.games().len() as int),
            RoomState::Gaming => st == Some(State::Gaming(self.spec_next() as u32)),
            RoomState::EndGame => st == Some(State::EndGame(0)),
        }
    }

    /// Everything but the players and their hands is as in `other`.
    pub open spec fn same_table(&self, other: &Room) -> bool {
        &&& self.spec_id() == other.spec_id()
        &&& self.spec_next() == other.spec_next()
        &&& self.spec_desk() == other.spec_desk()
        &&& self.spec_thisround() == other.spec_thisround()
        &&& self.spec_play_cnt() == other.spec_play_cnt()
        &&& self.spec_alive() == other.spec_alive()
    }

    /// An empty room of id `id`, taking players.
    pub fn new(id: String) -> (r: Room)
        ensures
            r.wf(),
            r.seats_ok(),
            r.spec_id() == id@,
            r.games().len() == 0,
            r.spec_state() == RoomState::NotFull,
            r.spec_ready_cnt() == 0,
            r.spec_next() == 0,
            r.spec_desk().spec_is_empty(),
            r.spec_thisround().len() == 0,
            r.spec_play_cnt() == 0,
            r.spec_alive(),
            r.spec_player_alive(),
    {
        let r = Room {
            players: Vec::new(),
            state: RoomState::NotFull,
            ready_cnt: 0,
            id,
            next: 0,
            desk: Desk::default(),
            thisround: Vec::new(),
            play_cnt: 0,
            alive: true,
            player_alive: true,
        };
        proof {
            assert(r.games() =~= Seq::<Game>::empty());
            assert(r.desk.spec_is_empty());
            assert forall|s: CardSuit| crate::desk::is_run(#[trigger] r.desk.chain(s), s) by {
                assert(r.desk.chain(s).len() == 0);
            }
        }
        r
    }

    pub fn is_alive(&self) -> (b: bool)
        ensures
            b == self.spec_alive(),
    {
        self.alive
    }

    pub fn set_alive(&mut self)
        ensures
            final(self).spec_alive(),
            final(self).games() == old(self).games(),
            final(self).names() == old(self).names(),
            final(self).spec_state() == old(self).spec_state(),
            final(self).spec_ready_cnt() == old(self).spec_ready_cnt(),
            final(self).spec_player_alive() == old(self).spec_player_alive(),
            final(self).spec_id() == old(self).spec_id(),
            final(self).spec_next() == old(self).spec_next(),
            final(self).spec_desk() == old(self).spec_desk(),
            final(self).spec_thisround() == old(self).spec_thisround(),
            final(self).spec_play_cnt() == old(self).spec_play_cnt(),
    {
        self.alive = true;
    }

    pub fn unset_alive(&mut self)
        ensures
            !final(self).spec_alive(),
            final(self).games() == old(self).games(),
            final(self).names() == old(self).names(),
            final(self).spec_state() == old(self).spec_state(),
            final(self).spec_ready_cnt() == old(self).spec_ready_cnt(),
            final(self).spec_player_alive() == old(self).spec_player_alive(),
            final(self).spec_id() == old(self).spec_id(),
            final(self).spec_next() == old(self).spec_next(),
            final(self).spec_desk() == old(self).spec_desk(),
            final(self).spec_thisround() == old(self).spec_thisround(),
            final(self).spec_play_cnt() == old(self).spec_play_cnt(),
    {
        self.alive = false;
    }

    /// One shot of the watch dog of the rooms: a room that was used since
    /// the last shot is marked unused and kept; an unused one is to be
    /// removed, and is left as it is.
    pub fn room_watch_dog(&mut self) -> (remove: bool)
        ensures
            remove == !old(self).spec_alive(),
            !final(self).spec_alive(),
            final(self).games() == old(self).games(),
            final(self).names() == old(self).names(),
            final(self).spec_state() == old(self).spec_state(),
            final(self).spec_ready_cnt() == old(self).spec_ready_cnt(),
            final(self).spec_player_alive() == old(self).spec_player_alive(),
            final(self).spec_id() == old(self).spec_id(),
            final(self).spec_next() == old(self).spec_next(),
            final(self).spec_desk() == old(self).spec_desk(),
            final(self).spec_thisround() == old(self).spec_thisround(),
            final(self).spec_play_cnt() == old(self).spec_play_cnt(),
    {
        if self.is_alive() {
            self.unset_alive();
            false
        } else {
            true
        }
    }

    pub fn get_id(&self) -> (s: String)
        ensures
            s@ == self.spec_id(),
    {
        self.id.clone()
    }

    /// The places, in order, of the players who are ready.
    pub fn get_ready_list(&self) -> (r: ReadyList)
        ensures
            r.l@ == ready_upto(self.games(), self.games().len() as int),
    {
        let mut l: Vec<u32> = Vec::new();
        let mut i: usize = 0;
        while i < self.players.len()
            invariant
                i <= self.players@.len(),
                l@ == ready_upto(self.games(), i as int),
            decreases self.players@.len() - i,
        {
            if self.players[i].game.is_ready() {
                l.push(i as u32);
            }
            i = i + 1;
        }
        ReadyList { l }
    }

    /// The room as it is reported to its players; the place of the asking
    /// player is left to the caller.
    pub fn get_room_info(&self) -> (r: Result<RoomInfo, RpcError>)
        ensures
            r matches Ok(ri) && ri.roomid@ == self.spec_id() && ri.players@.len() == self.names().len()
                && (forall|i: int| 0 <= i < ri.players@.len() ==> (#[trigger] ri.players@[i]).name@ == self.names()[i])
                && self.reports_state(ri.state),
    {
        let mut players: Vec<PlayerInfo> = Vec::new();
        let mut i: usize = 0;
        while i < self.players.len()
            invariant
                i <= self.players@.len(),
                players@.len() == i,
                forall|j: int| 0 <= j < i ==> (#[trigger] players@[j]).name@ == self.names()[j],
            decreases self.players@.len() - i,
        {
            players.push(PlayerInfo { name: self.players[i].name.clone() });
            i = i + 1;
        }
        let state = match self.state {
            RoomState::NotFull => State::NotFull(self.players.len() as u32),
            RoomState::WaitReady => State::WaitReady(self.get_ready_list()),
            RoomState::Gaming => State::Gaming(self.next as u32),
            RoomState::EndGame => State::EndGame(0),
        };
        Ok(RoomInfo { roomid: self.id.clone(), players, state: Some(state) })
    }

    /// Seats the player `p` at the next place; refused once the room is
    /// full. The room waits for its players to get ready when the fourth
    /// one joins.
    pub fn add_player(&mut self, p: &PlayerInfo) -> (r: Result<(), RpcError>)
        requires
            old(self).wf(),
        ensures
            final(self).wf(),
            old(self).spec_state() != RoomState::NotFull ==> (r matches Err(RpcError::RoomFull(id))
                && id@ == old(self).spec_id()) && *final(self) == *old(self),
            old(self).spec_state() == RoomState::NotFull ==> {
                &&& r is Ok
                &&& final(self).names() == old(self).names().push(p.name@)
                &&& final(self).games().len() == old(self).games().len() + 1
                &&& final(self).games().take(old(self).games().len() as int) == old(self).games()
                &&& final(self).games().last().cards_seq().len() == 0
                &&& final(self).games().last().holds_seq().len() == 0
                &&& !final(self).games().last().spec_ready()
                &&& final(self).spec_state() == if final(self).games().len() == 4 {
                    RoomState::WaitReady
                } else {
                    RoomState::NotFull
                }
                &&& final(self).same_table(old(self))
                &&& final(self).spec_ready_cnt() == old(self).spec_ready_cnt()
                &&& final(self).spec_player_alive() == old(self).spec_player_alive()
            },
            old(self).seats_ok() ==> final(self).seats_ok(),
    {
        if self.state != RoomState::NotFull {
            return Err(RpcError::RoomFull(self.id.clone()));
        }
        let ghost old_games = self.games();
        self.players.push(Player { name: p.name.clone(), game: Game::default() });
        if self.players.len() == 4 {
            self.state = RoomState::WaitReady;
        }
        proof {
            assert(self.games() =~= old_games.push(self.players@.last().game));
            assert(self.names() =~= old(self).names().push(p.name@));
            assert(self.games().take(old_games.len() as int) =~= old_games);
            lemma_ready_count_update_push(old_games, self.players@.last().game);
        }
        Ok(())
    }

    /// Marks the player at place `pid` ready and answers how many players
    /// are still to get ready; refused unless the room waits for its
    /// players, the place is taken and the player is not ready yet.
    pub fn player_ready(&mut self, pid: usize) -> (r: Result<u32, RpcError>)
        requires
            (old(self).spec_state() == RoomState::WaitReady && pid < old(self).games().len()
                && !old(self).games()[pid as int].spec_ready()) ==> old(self).spec_ready_cnt() < 4,
        ensures
            old(self).spec_state() != RoomState::WaitReady ==> (r matches Err(RpcError::NotWaitReady(id))
                && id@ == old(self).spec_id()) && *final(self) == *old(self),
            old(self).spec_state() == RoomState::WaitReady && pid >= old(self).games().len()
                ==> r == Err::<u32, RpcError>(RpcError::PlayerNotFound(pid as u64)) && *final(self) == *old(self),
            old(self).spec_state() == RoomState::WaitReady && pid < old(self).games().len()
                && old(self).games()[pid as int].spec_ready()
                ==> r == Err::<u32, RpcError>(RpcError::AlreadyReady) && *final(self) == *old(self),
            old(self).spec_state() == RoomState::WaitReady && pid < old(self).games().len()
                && !old(self).games()[pid as int].spec_ready() ==> {
                &&& r == Ok::<u32, RpcError>((4 - old(self).spec_ready_cnt() - 1) as u32)
                &&& final(self).spec_ready_cnt() == old(self).spec_ready_cnt() + 1
                &&& final(self).spec_player_alive()
                &&& final(self).games().len() == old(self).games().len()
                &&& final(self).games()[pid as int].spec_ready()
                &&& same_cards(final(self).games()[pid as int], old(self).games()[pid as int])
                &&& forall|i: int| 0 <= i < old(self).games().len() && i != pid
                    ==> #[trigger] final(self).games()[i] == old(self).games()[i]
                &&& final(self).names() == old(self).names()
                &&& final(self).spec_state() == old(self).spec_state()
                &&& final(self).same_table(old(self))
            },
            old(self).wf() ==> final(self).wf(),
            old(self).seats_ok() ==> final(self).seats_ok(),
    {
        if self.state != RoomState::WaitReady {
            return Err(RpcError::NotWaitReady(self.id.clone()));
        }
        if pid >= self.players.len() {
            return Err(RpcError::PlayerNotFound(pid as u64));
        }
        if self.players[pid].game.is_ready() {
            return Err(RpcError::AlreadyReady);
        }
        let ghost old_games = self.games();
        let _ = self.players[pid].game.ready();
        self.ready_cnt = self.ready_cnt + 1;
        self.player_alive = true;
        proof {
            assert(self.games() =~= old_games.update(pid as int, self.players@[pid as int].game));
            assert(self.names() =~= old(self).names());
            lemma_ready_count_update(old_games, old_games.len() as int, pid as int, self.players@[pid as int].game);
            if old(self).wf() {
                assert forall|j: int| 0 <= j < self.games().len() implies (#[trigger] self.games()[j]).wf() by {
                    assert(old_games[j].wf());
                    if j != pid {
                        assert(self.games()[j] == old_games[j]);
                    }
                }
            }
        }
        Ok(4 - self.ready_cnt)
    }

    /// Card `c` is in the hand of one of the first four players.
    pub open spec fn in_first_hands(&self, c: Card) -> bool {
        exists|pi: int| 0 <= pi < 4 && #[trigger] self.games()[pi].hand().contains(c)
    }

    /// `after` is this room once `deck` is dealt: the first four players get
    /// thirteen numbers of the deck each in turn, every other hand and every
    /// held card is gone, the desk is cleared, and the turn goes to the
    /// player who was dealt the seven of hearts.
    pub open spec fn deals(&self, after: &Room, deck: Seq<u32>) -> bool {
        &&& after.names() == self.names()
        &&& after.games().len() == self.games().len()
        &&& forall|i: int|
            0 <= i < self.games().len() ==> {
                &&& (#[trigger] after.games()[i]).spec_ready() == self.games()[i].spec_ready()
                &&& after.games()[i].holds_seq().len() == 0
                &&& after.games()[i].hand() == if i < 4 {
                    dealt(deck, i, 13)
                } else {
                    Set::empty()
                }
            }
        &&& after.spec_next() == last_holder(deck, 52, self.spec_next())
        &&& after.spec_state() == RoomState::Gaming
        &&& after.spec_desk().spec_is_empty()
        &&& after.spec_thisround().len() == 0
        &&& after.spec_play_cnt() == 0
        &&& after.spec_ready_cnt() == self.spec_ready_cnt()
        &&& after.spec_id() == self.spec_id()
        &&& after.spec_alive() == self.spec_alive()
        &&& after.spec_player_alive() == self.spec_player_alive()
    }

    /// Starts a game with `deck` and answers whose turn it is. The room does
    /// not check that it was waiting for ready players.
    pub fn start_game_with(&mut self, deck: &Vec<u32>) -> (next: u32)
        requires
            old(self).games().len() >= 4,
            deck@.len() == 52,
            old(self).wf(),
        ensures
            old(self).deals(final(self), deck@),
            final(self).wf(),
            next == final(self).spec_next() as u32,
            old(self).seats_ok() ==> final(self).seats_ok(),
    {
        let ghost g0 = self.games();
        let mut i: usize = 0;
        while i < self.players.len()
            invariant
                i <= self.players@.len(),
                self.games().len() == g0.len(),
                g0 == old(self).games(),
                self.names() == old(self).names(),
                forall|j: int| 0 <= j < self.games().len() ==> (#[trigger] self.games()[j]).spec_ready() == g0[j].spec_ready(),
                forall|j: int| 0 <= j < i ==> (#[trigger] self.games()[j]).wf() && self.games()[j].cards_seq().len() == 0
                    && self.games()[j].holds_seq().len() == 0,
                self.state == old(self).state,
                self.ready_cnt == old(self).ready_cnt,
                self.id@ == old(self).id@,
                self.next == old(self).next,
                self.alive == old(self).alive,
                self.player_alive == old(self).player_alive,
            decreases self.players@.len() - i,
        {
            let ghost before = self.games();
            self.players[i].game.new_game();
            proof {
                assert(self.games() =~= before.update(i as int, self.players@[i as int].game));
                assert(self.names() =~= old(self).names());
                assert forall|j: int| 0 <= j < self.games().len() implies (#[trigger] self.games()[j]).spec_ready() == g0[j].spec_ready() by {
                    assert(before[j].spec_ready() == g0[j].spec_ready());
                }
            }
            i = i + 1;
        }
        self.desk = Desk::default();
        self.thisround.clear();
        self.play_cnt = 0;
        let mut pi: usize = 0;
        while pi < 4
            invariant
                pi <= 4,
                self.games().len() == g0.len(),
                g0.len() >= 4,
                deck@.len() == 52,
                g0 == old(self).games(),
                self.names() == old(self).names(),
                forall|j: int| 0 <= j < self.games().len() ==> {
                    &&& (#[trigger] self.games()[j]).spec_ready() == g0[j].spec_ready()
                    &&& self.games()[j].wf()
                    &&& self.games()[j].holds_seq().len() == 0
                    &&& self.games()[j].hand() == if j < pi { dealt(deck@, j, 13) } else { Set::empty() }
                },
                self.next == last_holder(deck@, pi * 13, old(self).next),
                self.desk.spec_is_empty(),
                self.thisround@.len() == 0,
                self.play_cnt == 0,
                self.state == old(self).state,
                self.ready_cnt == old(self).ready_cnt,
                self.id@ == old(self).id@,
                self.alive == old(self).alive,
                self.player_alive == old(self).player_alive,
            decreases 4 - pi,
        {
            proof {
                assert(self.games()[pi as int].cards_seq().to_set() =~= Set::<Card>::empty());
            }
            let mut j: usize = 0;
            while j < 13
                invariant
                    pi < 4,
                    j <= 13,
                    self.games().len() == g0.len(),
                    g0.len() >= 4,
                    deck@.len() == 52,
                    g0 == old(self).games(),
                    self.names() == old(self).names(),
                    forall|k: int| 0 <= k < self.games().len() ==> {
                        &&& (#[trigger] self.games()[k]).spec_ready() == g0[k].spec_ready()
                        &&& self.games()[k].wf()
                        &&& self.games()[k].holds_seq().len() == 0
                        &&& self.games()[k].hand() == if k < pi {
                            dealt(deck@, k, 13)
                        } else if k == pi {
                            dealt(deck@, k, j as int)
                        } else {
                            Set::empty()
                        }
                    },
                    self.next == last_holder(deck@, pi * 13 + j, old(self).next),
                    self.desk.spec_is_empty(),
                    self.thisround@.len() == 0,
                    self.play_cnt == 0,
                    self.state == old(self).state,
                    self.ready_cnt == old(self).ready_cnt,
                    self.id@ == old(self).id@,
                    self.alive == old(self).alive,
                    self.player_alive == old(self).player_alive,
                decreases 13 - j,
            {
                let c = deck[pi * 13 + j];
                let ghost before = self.games();
                proof {
                    assert(before[pi as int].wf());
                    assert(self.players@[pi as int].game == before[pi as int]);
                }
                self.players[pi].game.add_card(&c);
                proof {
                    assert(self.games() =~= before.update(pi as int, self.players@[pi as int].game));
                    assert(self.names() =~= old(self).names());
                }
                if c == 19 {
                    self.next = pi;
                }
                j = j + 1;
                proof {
                    assert(pi * 13 + j - 1 == pi * 13 + (j - 1));
                }
            }
            pi = pi + 1;
            proof {
                assert(pi * 13 == (pi - 1) * 13 + 13);
            }
        }
        self.state = RoomState::Gaming;
        proof {
            assert forall|s: CardSuit| crate::desk::is_run(#[trigger] self.desk.chain(s), s) by {
                assert(self.desk.chain(s).len() == 0);
            }
            lemma_ready_count_same(self.games(), g0, g0.len() as int);
        }
        self.next as u32
    }

    /// Shuffles a new deck, starts a game with it and answers whose turn it
    /// is: that of the player who was dealt the seven of hearts.
    pub fn start_game(&mut self) -> (next: u32)
        requires
            old(self).games().len() >= 4,
            old(self).wf(),
        ensures
            exists|deck: Seq<u32>| deck.to_multiset() == full_deck().to_multiset() && #[trigger] old(self).deals(final(self), deck),
            final(self).wf(),
            next == final(self).spec_next() as u32,
            final(self).spec_next() < 4,
            final(self).games()[final(self).spec_next() as int].hand().contains(heart_seven()),
            forall|pi: int| 0 <= pi < 4 ==> (#[trigger] final(self).games()[pi]).cards_seq().len() == 13,
            forall|pi: int, qi: int, c: Card|
                0 <= pi < qi < 4 ==> !(#[trigger] final(self).games()[pi].hand().contains(c)
                    && #[trigger] final(self).games()[qi].hand().contains(c)),
            forall|c: Card| #[trigger] final(self).in_first_hands(c) <==> 1 <= c.num <= 13,
            final(self).cards_and_plays() == 52,
            old(self).seats_ok() ==> final(self).seats_ok(),
    {
        let mut cards: Vec<u32> = Vec::new();
        let mut i: u32 = 0;
        while i < 52
            invariant
                i <= 52,
                cards@ == full_deck().take(i as int),
            decreases 52 - i,
        {
            cards.push(i);
            i = i + 1;
            proof {
                assert(cards@ =~= full_deck().take(i as int));
            }
        }
        proof {
            assert(cards@ =~= full_deck());
        }
        shuffle_deck(&mut cards);
        proof {
            full_deck().to_multiset_ensures();
            cards@.to_multiset_ensures();
            assert(full_deck()[19] == 19);
            assert(full_deck().contains(19));
            assert(full_deck().to_multiset().count(19) > 0);
            assert(cards@.to_multiset().count(19) > 0);
            assert(cards@.contains(19));
            assert(cards@.len() == 52);
        }
        let next = self.start_game_with(&cards);
        proof {
            let w = choose|j: int| 0 <= j < cards@.len() && cards@[j] == 19;
            lemma_last_holder(cards@, 52, old(self).spec_next());
            let deck = cards@;
            lemma_deal_partition(deck);
            assert forall|pi: int| 0 <= pi < 4 implies (#[trigger] self.games()[pi]).cards_seq().len() == 13 by {
                assert(self.games()[pi].wf());
                self.games()[pi].cards_seq().unique_seq_to_set();
                assert(self.games()[pi].hand() == dealt(deck, pi, 13));
                assert(dealt(deck, pi, 13).len() == 13);
            }
            assert forall|pi: int, qi: int, c: Card|
                0 <= pi < qi < 4 implies !(#[trigger] self.games()[pi].hand().contains(c)
                    && #[trigger] self.games()[qi].hand().contains(c)) by {
                assert(self.games()[pi].hand() == dealt(deck, pi, 13));
                assert(self.games()[qi].hand() == dealt(deck, qi, 13));
            }
            assert forall|c: Card| #[trigger] self.in_first_hands(c) <==> 1 <= c.num <= 13 by {
                if 1 <= c.num <= 13 {
                    assert(dealt_somewhere(deck, c));
                    let pi = choose|pi: int| 0 <= pi < 4 && #[trigger] dealt(deck, pi, 13).contains(c);
                    assert(self.games()[pi].hand() == dealt(deck, pi, 13));
                }
                if self.in_first_hands(c) {
                    let pi = choose|pi: int| 0 <= pi < 4 && #[trigger] self.games()[pi].hand().contains(c);
                    assert(self.games()[pi].hand() == dealt(deck, pi, 13));
                    assert(dealt_somewhere(deck, c));
                }
            }
            assert forall|i: int| 0 <= i < self.games().len() implies (#[trigger] self.games()[i]).cards_seq().len()
                == if i < 4 { 13int } else { 0int } by {
                if i >= 4 {
                    assert(self.games()[i].hand() == Set::<Card>::empty());
                    if self.games()[i].cards_seq().len() > 0 {
                        assert(self.games()[i].hand().contains(self.games()[i].cards_seq()[0]));
                    }
                }
            }
            lemma_cards_left_dealt(self.games(), self.games().len() as int);
        }
        next
    }

    /// What player `pid` sees of the running game: the hand, the held
    /// cards, how many cards each player holds, and the ends of the chains.
    pub fn get_game_info(&self, pid: u32) -> (r: Result<GameInfo, RpcError>)
        ensures
            self.spec_state() != RoomState::Gaming ==> r == Err::<GameInfo, RpcError>(RpcError::NotGaming),
            self.spec_state() == RoomState::Gaming && pid >= self.games().len()
                ==> r == Err::<GameInfo, RpcError>(RpcError::PlayerNotFound(pid as u64)),
            self.spec_state() == RoomState::Gaming && pid < self.games().len() ==> (r matches Ok(gi) && {
                &&& gi.cards@ == infos_of(self.games()[pid as int].cards_seq())
                &&& gi.holds matches Some(h) && h.my@ == infos_of(self.games()[pid as int].holds_seq())
                    && h.eachone@ == Seq::new(self.games().len(), |i: int| self.games()[i].holds_seq().len() as u32)
                &&& gi.desk matches Some(d)
                    && d.spade == spec_chain_info(self.spec_thisround(), self.spec_desk().chain(CardSuit::Spade))
                    && d.heart == spec_chain_info(self.spec_thisround(), self.spec_desk().chain(CardSuit::Heart))
                    && d.club == spec_chain_info(self.spec_thisround(), self.spec_desk().chain(CardSuit::Club))
                    && d.diamond == spec_chain_info(self.spec_thisround(), self.spec_desk().chain(CardSuit::Diamond))
            }),
    {
        if self.state != RoomState::Gaming {
            return Err(RpcError::NotGaming);
        }
        if pid as usize >= self.players.len() {
            return Err(RpcError::PlayerNotFound(pid as u64));
        }
        let p = &self.players[pid as usize];
        let mut eachone: Vec<u32> = Vec::new();
        let mut i: usize = 0;
        while i < self.players.len()
            invariant
                i <= self.players@.len(),
                eachone@ == Seq::new(i as nat, |k: int| self.games()[k].holds_seq().len() as u32),
            decreases self.players@.len() - i,
        {
            eachone.push(self.players[i].game.get_holds_num());
            i = i + 1;
            proof {
                assert(eachone@ =~= Seq::new(i as nat, |k: int| self.games()[k].holds_seq().len() as u32));
            }
        }
        Ok(GameInfo {
            cards: p.game.get_cards(),
            holds: Some(HeldCards { my: p.game.get_holds(), eachone }),
            desk: Some(self.desk.get_desk_info(&self.thisround)),
        })
    }

    /// The cards left in the hands and the plays made so far: 52 from the
    /// deal to the end of a game.
    pub open spec fn cards_and_plays(&self) -> int {
        cards_left(self.games(), self.games().len() as int) + self.spec_play_cnt()
    }

    /// `after` is this room once player `pid` made the valid `play`: the card
    /// left the hand (and a held card joined the held cards), the desk took a
    /// discarded card, the turn passed on, the play was counted, and the
    /// cards of the round were noted.
    pub open spec fn plays(&self, after: &Room, pid: u32, play: Play) -> bool {
        let c = card_of_play(play);
        let g = self.games()[pid as int];
        let h = after.games()[pid as int];
        &&& after.games().len() == self.games().len()
        &&& forall|i: int| 0 <= i < self.games().len() && i != pid ==> #[trigger] after.games()[i] == self.games()[i]
        &&& h.wf()
        &&& h.spec_ready() == g.spec_ready()
        &&& h.hand() == g.hand().remove(c)
        &&& h.cards_seq().len() == g.cards_seq().len() - 1
        &&& play is Discard ==> h.holds_seq() == g.holds_seq()
        &&& play is Hold ==> h.held() == g.held().insert(c)
        &&& after.names() == self.names()
        &&& after.spec_next() == (self.spec_next() + 1) % 4
        &&& after.spec_play_cnt() == self.spec_play_cnt() + 1
        &&& self.spec_desk().after_play(&after.spec_desk(), play, pid)
        &&& after.spec_thisround() == (if pid == 0 { Seq::empty() } else { self.spec_thisround() }) + (if play is Discard {
            seq![c]
        } else {
            Seq::empty()
        })
        &&& after.spec_player_alive()
        &&& after.spec_state() == self.spec_state()
        &&& after.spec_ready_cnt() == self.spec_ready_cnt()
        &&& after.spec_id() == self.spec_id()
        &&& after.spec_alive() == self.spec_alive()
    }

    /// Player `pid` makes `play`. Refused unless a game runs, it is the
    /// player's turn and the play is valid (see `Game::spec_valid_play`; the
    /// seven of hearts opens the game). Answers how many plays the game has
    /// seen. Every chain on the desk stays a run.
    pub fn play_card(&mut self, pid: u32, play: &Play) -> (r: Result<u32, RpcError>)
        requires
            old(self).wf(),
            old(self).spec_play_cnt() < u32::MAX,
        ensures
            final(self).wf(),
            old(self).spec_state() != RoomState::Gaming
                ==> r == Err::<u32, RpcError>(RpcError::NotGaming) && *final(self) == *old(self),
            old(self).spec_state() == RoomState::Gaming && old(self).spec_next() != pid as usize
                ==> r == Err::<u32, RpcError>(RpcError::NotYourTurn(old(self).spec_next() as u64))
                && *final(self) == *old(self),
            old(self).spec_state() == RoomState::Gaming && old(self).spec_next() == pid as usize
                && pid >= old(self).games().len()
                ==> r == Err::<u32, RpcError>(RpcError::PlayerNotFound(pid as u64)) && *final(self) == *old(self),
            old(self).spec_state() == RoomState::Gaming && old(self).spec_next() == pid as usize
                && pid < old(self).games().len() ==> {
                let v = old(self).games()[pid as int].spec_valid_play(
                    &old(self).spec_desk(),
                    *play,
                    old(self).spec_play_cnt() == 0,
                );
                &&& v is Err ==> r == Err::<u32, RpcError>(v->Err_0) && final(self).spec_player_alive()
                    && final(self).games() == old(self).games() && final(self).names() == old(self).names()
                    && final(self).spec_state() == old(self).spec_state()
                    && final(self).spec_ready_cnt() == old(self).spec_ready_cnt()
                    && final(self).same_table(old(self))
                &&& v is Ok ==> r == Ok::<u32, RpcError>((old(self).spec_play_cnt() + 1) as u32)
                    && old(self).plays(final(self), pid, *play)
            },
            final(self).cards_and_plays() == old(self).cards_and_plays(),
            old(self).seats_ok() ==> final(self).seats_ok(),
    {
        if self.state != RoomState::Gaming {
            return Err(RpcError::NotGaming);
        } else if self.next != pid as usize {
            return Err(RpcError::NotYourTurn(self.next as u64));
        }
        if pid as usize >= self.players.len() {
            return Err(RpcError::PlayerNotFound(pid as u64));
        }
        let ghost g0 = self.games();
        self.player_alive = true;
        proof {
            lemma_well_laid_fits(&self.desk);
            assert(g0[pid as int].wf());
        }
        let is_first = self.play_cnt == 0;
        match self.players[pid as usize].game.is_valid_play(&self.desk, play, is_first) {
            Err(e) => {
                return Err(e);
            },
            Ok(()) => {},
        }
        let ghost d0 = self.desk;
        let _ = self.players[pid as usize].game.play_card(play);
        proof {
            assert(self.games() =~= g0.update(pid as int, self.players@[pid as int].game));
            assert(self.names() =~= old(self).names());
        }
        self.next = self.next + 1;
        self.next = self.next % 4;
        self.play_cnt = self.play_cnt + 1;
        self.desk.update(play, pid);
        if pid == 0 {
            self.thisround.clear();
        }
        let ghost t0 = self.thisround@;
        if let Play::Discard(c) = play {
            self.thisround.push(Card::from_info(c));
        }
        proof {
            if let Play::Discard(ci) = *play {
                lemma_discard_keeps_runs(&d0, &self.desk, ci, pid, is_first);
                assert(self.thisround@ =~= t0 + seq![card_of_play(*play)]);
            } else {
                assert(self.desk.well_laid()) by {
                    assert forall|s: CardSuit| crate::desk::is_run(#[trigger] self.desk.chain(s), s) by {
                        assert(self.desk.chain(s) == d0.chain(s));
                    }
                }
                assert(self.thisround@ =~= t0 + Seq::<Card>::empty());
            }
            assert forall|j: int| 0 <= j < self.games().len() implies (#[trigger] self.games()[j]).wf() by {
                assert(g0[j].wf());
            }
            assert(g0[pid as int].hand().contains(card_of_play(*play)));
            lemma_ready_count_same(self.games(), g0, g0.len() as int);
            lemma_cards_left_update(g0, self.games(), g0.len() as int, pid as int);
        }
        Ok(self.play_cnt)
    }

    /// What is reported at the end of a game: every chain with the owners
    /// of its cards, and the cards each player held.
    pub fn get_game_result(&self) -> (r: GameResult)
        ensures
            r.desk matches Some(d)
                && d.spade@ == spec_chain_result(self.spec_desk().chain(CardSuit::Spade), |w: u32| whose_u32(w))
                && d.heart@ == spec_chain_result(self.spec_desk().chain(CardSuit::Heart), |w: u32| whose_u32(w))
                && d.club@ == spec_chain_result(self.spec_desk().chain(CardSuit::Club), |w: u32| whose_u32(w))
                && d.diamond@ == spec_chain_result(self.spec_desk().chain(CardSuit::Diamond), |w: u32| whose_u32(w)),
            r.hold@.len() == self.games().len(),
            forall|i: int| 0 <= i < r.hold@.len() ==> (#[trigger] r.hold@[i]).holds@ == infos_of(self.games()[i].holds_seq()),
    {
        let mut hold: Vec<HoldList> = Vec::new();
        let mut i: usize = 0;
        while i < self.players.len()
            invariant
                i <= self.players@.len(),
                hold@.len() == i,
                forall|k: int| 0 <= k < i ==> (#[trigger] hold@[k]).holds@ == infos_of(self.games()[k].holds_seq()),
            decreases self.players@.len() - i,
        {
            hold.push(self.players[i].game.get_hold_list());
            i = i + 1;
        }
        GameResult { desk: Some(self.desk.get_desk_result()), hold }
    }

    /// Ends the game and answers its result; refused unless a game runs,
    /// all 52 plays were made and no player has a card left.
    pub fn end_game(&mut self) -> (r: Result<GameResult, RpcError>)
        ensures
            old(self).spec_state() != RoomState::Gaming
                ==> r == Err::<GameResult, RpcError>(RpcError::RoomNotGaming) && *final(self) == *old(self),
            old(self).spec_state() == RoomState::Gaming && old(self).spec_play_cnt() != 52
                ==> r == Err::<GameResult, RpcError>(RpcError::GameNotEnd) && *final(self) == *old(self),
            old(self).spec_state() == RoomState::Gaming && old(self).spec_play_cnt() == 52
                && (exists|i: int| 0 <= i < old(self).games().len() && #[trigger] old(self).games()[i].cards_seq().len() != 0)
                ==> r == Err::<GameResult, RpcError>(RpcError::CardsLeft) && *final(self) == *old(self),
            old(self).spec_state() == RoomState::Gaming && old(self).spec_play_cnt() == 52
                && (forall|i: int| 0 <= i < old(self).games().len() ==> #[trigger] old(self).games()[i].cards_seq().len() == 0)
                ==> {
                &&& (r matches Ok(res) && res.hold@.len() == old(self).games().len()
                    && (forall|i: int| 0 <= i < res.hold@.len() ==> (#[trigger] res.hold@[i]).holds@ == infos_of(old(self).games()[i].holds_seq()))
                    && (res.desk matches Some(d)
                    && d.spade@ == spec_chain_result(old(self).spec_desk().chain(CardSuit::Spade), |w: u32| whose_u32(w))
                    && d.heart@ == spec_chain_result(old(self).spec_desk().chain(CardSuit::Heart), |w: u32| whose_u32(w))
                    && d.club@ == spec_chain_result(old(self).spec_desk().chain(CardSuit::Club), |w: u32| whose_u32(w))
                    && d.diamond@ == spec_chain_result(old(self).spec_desk().chain(CardSuit::Diamond), |w: u32| whose_u32(w))))
                &&& final(self).spec_state() == RoomState::EndGame
                &&& final(self).games() == old(self).games()
                &&& final(self).names() == old(self).names()
                &&& final(self).same_table(old(self))
                &&& final(self).spec_ready_cnt() == old(self).spec_ready_cnt()
                &&& final(self).spec_player_alive() == old(self).spec_player_alive()
            },
            old(self).wf() ==> final(self).wf(),
            old(self).seats_ok() ==> final(self).seats_ok(),
    {
        if self.state != RoomState::Gaming {
            return Err(RpcError::RoomNotGaming);
        } else if self.play_cnt != 52 {
            return Err(RpcError::GameNotEnd);
        }
        let mut i: usize = 0;
        while i < self.players.len()
            invariant
                i <= self.players@.len(),
                forall|k: int| 0 <= k < i ==> #[trigger] self.games()[k].cards_seq().len() == 0,
                *self == *old(self),
                old(self).spec_state() == RoomState::Gaming,
                old(self).spec_play_cnt() == 52,
            decreases self.players@.len() - i,
        {
            if self.players[i].game.has_cards() {
                proof {
                    assert(old(self).games()[i as int].cards_seq().len() != 0);
                }
                return Err(RpcError::CardsLeft);
            }
            i = i + 1;
        }
        self.state = RoomState::EndGame;
        Ok(self.get_game_result())
    }

    /// `after` is this room once a player left the game: nobody is ready any
    /// more, the hands are kept, and the room waits for its players again.
    pub open spec fn leaves_game(&self, after: &Room) -> bool {
        &&& after.spec_ready_cnt() == 0
        &&& all_unready(self.games(), after.games())
        &&& after.names() == self.names()
        &&& after.spec_state() == RoomState::WaitReady
        &&& after.same_table(self)
        &&& after.spec_player_alive() == self.spec_player_alive()
    }

    /// `after` is this room once the player at place `pid` left it: the
    /// players behind move up one place, nobody is ready any more, and the
    /// room takes players again.
    pub open spec fn leaves_room(&self, after: &Room, pid: int) -> bool {
        &&& after.spec_ready_cnt() == 0
        &&& all_unready(self.games().remove(pid), after.games())
        &&& after.names() == self.names().remove(pid)
        &&& after.spec_state() == RoomState::NotFull
        &&& after.same_table(self)
        &&& after.spec_player_alive() == self.spec_player_alive()
    }

    /// `after` is this room once the players who are not ready were sent
    /// away: the ready ones keep their order and their hands, and the room
    /// takes players again.
    pub open spec fn drops_unready(&self, after: &Room) -> bool {
        &&& after.games() == keep_ready(self.games(), self.games(), self.games().len() as int)
        &&& after.names() == keep_ready(self.names(), self.games(), self.games().len() as int)
        &&& after.spec_ready_cnt() == 0
        &&& after.spec_state() == RoomState::NotFull
        &&& after.same_table(self)
        &&& after.spec_player_alive() == self.spec_player_alive()
    }

    /// Marks every player not ready.
    fn unready_all(&mut self)
        ensures
            all_unready(old(self).games(), final(self).games()),
            final(self).names() == old(self).names(),
            same_but_players(final(self), old(self)),
    {
        let mut i: usize = 0;
        while i < self.players.len()
            invariant
                i <= self.players@.len(),
                self.games().len() == old(self).games().len(),
                forall|j: int| 0 <= j < i ==> !(#[trigger] self.games()[j]).spec_ready()
                    && same_cards(self.games()[j], old(self).games()[j]),
                forall|j: int| i <= j < self.games().len() ==> #[trigger] self.games()[j] == old(self).games()[j],
                self.names() == old(self).names(),
                same_but_players(self, old(self)),
            decreases self.players@.len() - i,
        {
            let ghost before = self.games();
            self.players[i].game.unready();
            proof {
                assert(self.games() =~= before.update(i as int, self.players@[i as int].game));
                assert(self.names() =~= old(self).names());
                assert forall|j: int| 0 <= j <= i implies !(#[trigger] self.games()[j]).spec_ready()
                    && same_cards(self.games()[j], old(self).games()[j]) by {
                    if j < i {
                        assert(self.games()[j] == before[j]);
                    } else {
                        assert(before[j] == old(self).games()[j]);
                    }
                }
            }
            i = i + 1;
        }
    }

    /// The player at place `pid` leaves the game. Refused when the place is
    /// empty or the room is still taking players; nothing happens while the
    /// room waits for ready players. Otherwise everybody is unready again
    /// and the answer is `true`: the other players are to be told.
    pub fn exit_game(&mut self, pid: usize) -> (r: Result<bool, RpcError>)
        ensures
            pid >= old(self).games().len()
                ==> r == Err::<bool, RpcError>(RpcError::PlayerNotFound(pid as u64)) && *final(self) == *old(self),
            pid < old(self).games().len() && old(self).spec_state() == RoomState::NotFull
                ==> r == Err::<bool, RpcError>(RpcError::NotInGame) && *final(self) == *old(self),
            pid < old(self).games().len() && old(self).spec_state() == RoomState::WaitReady
                ==> r == Ok::<bool, RpcError>(false) && *final(self) == *old(self),
            pid < old(self).games().len() && (old(self).spec_state() == RoomState::Gaming
                || old(self).spec_state() == RoomState::EndGame)
                ==> r == Ok::<bool, RpcError>(true) && old(self).leaves_game(final(self)),
            old(self).wf() ==> final(self).wf(),
            old(self).seats_ok() ==> final(self).seats_ok(),
    {
        if pid < self.players.len() {
            match self.state {
                RoomState::NotFull => Err(RpcError::NotInGame),
                RoomState::WaitReady => Ok(false),
                _ => {
                    self.ready_cnt = 0;
                    self.unready_all();
                    self.state = RoomState::WaitReady;
                    proof {
                        if old(self).wf() {
                            assert forall|j: int| 0 <= j < self.games().len() implies (#[trigger] self.games()[j]).wf() by {
                                assert(old(self).games()[j].wf());
                                assert(same_cards(self.games()[j], old(self).games()[j]));
                            }
                        }
                    }
                    Ok(true)
                },
            }
        } else {
            Err(RpcError::PlayerNotFound(pid as u64))
        }
    }

    /// The player at place `pid` leaves the room and the answer is how many
    /// players remain; refused when the place is empty.
    pub fn exit_room(&mut self, pid: usize) -> (r: Result<usize, RpcError>)
        ensures
            pid >= old(self).games().len()
                ==> r == Err::<usize, RpcError>(RpcError::PlayerNotFound(pid as u64)) && *final(self) == *old(self),
            pid < old(self).games().len() ==> r == Ok::<usize, RpcError>((old(self).games().len() - 1) as usize)
                && old(self).leaves_room(final(self), pid as int),
            old(self).wf() ==> final(self).wf(),
            old(self).seats_ok() ==> final(self).seats_ok(),
    {
        if pid < self.players.len() {
            self.ready_cnt = 0;
            let ghost g0 = self.games();
            let ghost n0 = self.names();
            let _ = self.players.remove(pid);
            proof {
                assert(self.games() =~= g0.remove(pid as int));
                assert(self.names() =~= n0.remove(pid as int));
            }
            let ghost g1 = self.games();
            self.unready_all();
            self.state = RoomState::NotFull;
            proof {
                if old(self).wf() {
                    assert forall|j: int| 0 <= j < self.games().len() implies (#[trigger] self.games()[j]).wf() by {
                        assert(same_cards(self.games()[j], g1[j]));
                        if j < pid {
                            assert(old(self).games()[j].wf());
                        } else {
                            assert(old(self).games()[j + 1].wf());
                        }
                    }
                }
            }
            Ok(self.players.len())
        } else {
            Err(RpcError::PlayerNotFound(pid as u64))
        }
    }

    /// Sends away the players who are not ready and answers how many
    /// remain; the room takes players again.
    pub fn kill_unready(&mut self) -> (r: Result<usize, RpcError>)
        requires
            old(self).spec_state() == RoomState::WaitReady,
        ensures
            old(self).drops_unready(final(self)),
            r == Ok::<usize, RpcError>(final(self).games().len() as usize),
            final(self).games().len() == ready_count(old(self).games(), old(self).games().len() as int),
            old(self).wf() ==> final(self).wf(),
            old(self).seats_ok() && (exists|u: int| 0 <= u < old(self).games().len() && !(#[trigger] old(self).games()[u]).spec_ready())
                ==> final(self).seats_ok(),
    {
        let ghost g0 = self.games();
        let ghost n0 = self.names();
        let mut ps: Vec<Player> = Vec::new();
        std::mem::swap(&mut ps, &mut self.players);
        let ghost p0 = ps@;
        assert(p0.len() == ps.len());
        let mut i: usize = 0;
        while ps.len() > 0
            invariant
                i <= p0.len(),
                ps@ == p0.skip(i as int),
                ps@.len() == p0.len() - i,
                p0.len() <= usize::MAX,
                g0 == p0.map_values(|p: Player| p.game),
                n0 == p0.map_values(|p: Player| p.name@),
                self.games() == keep_ready(g0, g0, i as int),
                self.names() == keep_ready(n0, g0, i as int),
                self.games().len() == ready_count(g0, i as int),
                old(self).wf() ==> forall|j: int| 0 <= j < self.games().len() ==> (#[trigger] self.games()[j]).wf(),
                old(self).games() == g0,
                self.state == old(self).state,
                self.ready_cnt == old(self).ready_cnt,
                self.id@ == old(self).id@,
                self.next == old(self).next,
                self.desk == old(self).desk,
                self.thisround@ == old(self).thisround@,
                self.play_cnt == old(self).play_cnt,
                self.alive == old(self).alive,
                self.player_alive == old(self).player_alive,
            decreases ps@.len(),
        {
            let p = ps.remove(0);
            proof {
                assert(p == p0[i as int]);
                assert(ps@ =~= p0.skip(i as int + 1));
                if old(self).wf() {
                    assert(old(self).games()[i as int].wf());
                }
            }
            let ghost before_g = self.games();
            let ghost before_n = self.names();
            if p.game.is_ready() {
                self.players.push(p);
                proof {
                    assert(self.games() =~= before_g.push(p.game));
                    assert(self.names() =~= before_n.push(p.name@));
                }
            }
            i = i + 1;
        }
        proof {
            assert(i == p0.len());
        }
        self.ready_cnt = 0;
        self.state = RoomState::NotFull;
        proof {
            if exists|u: int| 0 <= u < g0.len() && !(#[trigger] g0[u]).spec_ready() {
                let u = choose|u: int| 0 <= u < g0.len() && !(#[trigger] g0[u]).spec_ready();
                lemma_ready_count_bound(g0, g0.len() as int, u);
            }
        }
        Ok(self.players.len())
    }

    /// The player watch dog looks at the room. If no player acted since it
    /// last looked, a room waiting for ready players sends the unready ones
    /// away, and a running game loses the player whose turn it is; the
    /// answer `true` tells that the players are to be told. Otherwise the
    /// room is only marked as not seen since.
    pub fn player_watch_dog(&mut self) -> (lost: bool)
        requires
            old(self).spec_state() == RoomState::Gaming && !old(self).spec_player_alive()
                ==> old(self).spec_next() < old(self).games().len(),
        ensures
            (old(self).spec_state() == RoomState::WaitReady || old(self).spec_state() == RoomState::Gaming)
                && old(self).spec_player_alive() ==> {
                &&& !lost
                &&& !final(self).spec_player_alive()
                &&& final(self).games() == old(self).games()
                &&& final(self).names() == old(self).names()
                &&& final(self).spec_state() == old(self).spec_state()
                &&& final(self).spec_ready_cnt() == old(self).spec_ready_cnt()
                &&& final(self).same_table(old(self))
            },
            old(self).spec_state() == RoomState::WaitReady && !old(self).spec_player_alive()
                ==> lost && old(self).drops_unready(final(self)),
            old(self).spec_state() == RoomState::Gaming && !old(self).spec_player_alive()
                ==> lost && old(self).leaves_room(final(self), old(self).spec_next() as int),
            old(self).spec_state() == RoomState::NotFull || old(self).spec_state() == RoomState::EndGame
                ==> !lost && *final(self) == *old(self),
            old(self).wf() ==> final(self).wf(),
    {
        match self.state {
            RoomState::WaitReady => {
                if self.player_alive {
                    self.player_alive = false;
                    false
                } else {
                    let _ = self.kill_unready();
                    true
                }
            },
            RoomState::Gaming => {
                if self.player_alive {
                    self.player_alive = false;
                    false
                } else {
                    let next = self.next;
                    let _ = self.exit_room(next);
                    true
                }
            },
            _ => false,
        }
    }
    /// The phase of the room.
    pub fn get_state(&self) -> (s: RoomState)
        ensures
            s == self.spec_state(),
    {
        self.state
    }

    /// Whose turn it is.
    pub fn get_next(&self) -> (n: usize)
        ensures
            n == self.spec_next(),
    {
        self.next
    }

    /// How many plays the current game has seen.
    pub fn get_play_cnt(&self) -> (n: u32)
        ensures
            n == self.spec_play_cnt(),
    {
        self.play_cnt
    }

    /// How many players got ready since the room last waited for them.
    pub fn get_ready_cnt(&self) -> (n: u32)
        ensures
            n == self.spec_ready_cnt(),
    {
        self.ready_cnt
    }

    /// How many players sit in the room.
    pub fn num_players(&self) -> (n: usize)
        ensures
            n == self.games().len(),
    {
        self.players.len()
    }

    /// Whether the player at place `pid` is ready; `None` for an empty place.
    pub fn is_player_ready(&self, pid: usize) -> (r: Option<bool>)
        ensures
            pid < self.games().len() ==> r == Some(self.games()[pid as int].spec_ready()),
            pid >= self.games().len() ==> r is None,
    {
        if pid < self.players.len() {
            Some(self.players[pid].game.is_ready())
        } else {
            None
        }
    }

    /// Whether a player acted since the player watch dog last looked.
    pub fn is_player_alive(&self) -> (b: bool)
        ensures
            b == self.spec_player_alive(),
    {
        self.player_alive
    }
}

/// Every accepted play takes one card out of a hand: the cards left in the
/// hands and the plays made add up to the same number before and after.
pub proof fn lemma_play_keeps_count(r1: &Room, r2: &Room, pid: u32, play: Play)
    requires
        pid < r1.games().len(),
        r1.plays(r2, pid, play),
    ensures
        r2.cards_and_plays() == r1.cards_and_plays(),
{
    lemma_cards_left_update(r1.games(), r2.games(), r1.games().len() as int, pid as int);
}

/// Once 52 plays were made since the deal, no card is left in any hand, so
/// the game can be closed.
pub proof fn lemma_last_play_empties_hands(r: &Room)
    requires
        r.cards_and_plays() == 52,
        r.spec_play_cnt() == 52,
    ensures
        forall|i: int| 0 <= i < r.games().len() ==> (#[trigger] r.games()[i]).cards_seq().len() == 0,
{
    lemma_cards_left_zero(r.games(), r.games().len() as int);
}

/// The card that a play laid is reported to every player at the end of its
/// chain where it went (below the seven in front, from the seven on at the
/// back) and marked as laid in this round.
pub proof fn lemma_laid_card_reported_this_round(r1: &Room, r2: &Room, pid: u32, ci: crate::proto::CardInfo)
    requires
        pid < r1.games().len(),
        r1.plays(r2, pid, Play::Discard(ci)),
    ensures
        spec_chain_info(r2.spec_thisround(), r2.spec_desk().chain(card_of_info(ci).suit)) matches Some(info) && {
            let c = card_of_info(ci);
            &&& c.num < 7 ==> info.front == Some(info_of_card(c)) && info.front_is_thisround
            &&& c.num >= 7 ==> info.back == Some(info_of_card(c)) && info.back_is_thisround
        },
{
    let c = card_of_info(ci);
    let ch = r2.spec_desk().chain(c.suit);
    let t = r2.spec_thisround();
    assert(card_of_play(Play::Discard(ci)) == c);
    assert(ch == chain_after_lay(r1.spec_desk().chain(c.suit), c, pid));
    assert(t[t.len() - 1] == c);
    if c.num < 7 {
        assert(ch[0] == (c, pid));
    } else {
        assert(ch[ch.len() - 1] == (c, pid));
    }
}

/// What a room reports of a chain lists its cards lowest first, rank by
/// rank, all of the chain's suit, each with the player who laid it.
pub proof fn lemma_reported_chain_ascends(r: &Room, s: CardSuit)
    requires
        r.wf(),
    ensures
        ({
            let ch = r.spec_desk().chain(s);
            let res = spec_chain_result(ch, |w: u32| whose_u32(w));
            &&& res.len() == ch.len()
            &&& forall|i: int|
                0 <= i < res.len() ==> ((#[trigger] res[i]).card matches Some(ci) && ci.suit == suit_index(s)
                    && ci.num == ch[0].0.num + i && res[i].whose == ch[i].1)
        }),
{
    let ch = r.spec_desk().chain(s);
    assert(crate::desk::is_run(ch, s));
}

} // verus!
