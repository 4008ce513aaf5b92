//! The bookkeeping of a client: the players as seen from its own place, the
//! results of a game put in its own order, and what each play and each key
//! change in the picture of a running game.

use vstd::prelude::*;
use crate::proto::{CardSuit, CardInfo, CardResult, DeskResult, HoldList, Play, RoomInfo, State};
use crate::game::{Card, suit_index, card_of_info, info_of_card};
use crate::client::desk::{Desk, can_add_to, side_after_new_round};

verus! {

/// The order of cards: by suit (spades, hearts, clubs, diamonds), then by
/// rank.
pub open spec fn card_le(a: Card, b: Card) -> bool {
    suit_index(a.suit) < suit_index(b.suit) || (suit_index(a.suit) == suit_index(b.suit) && a.num <= b.num)
}

/// The cards are in ascending order.
pub open spec fn cards_sorted(s: Seq<Card>) -> bool {
    forall|i: int, j: int| 0 <= i < j < s.len() ==> card_le(#[trigger] s[i], #[trigger] s[j])
}

/// The wire number of a suit.
fn suit_rank(s: CardSuit) -> (r: i32)
    ensures
        r == suit_index(s),
{
    match s {
        CardSuit::Spade => 0,
        CardSuit::Heart => 1,
        CardSuit::Club => 2,
        CardSuit::Diamond => 3,
    }
}

/// Whether `a` comes strictly before `b`.
fn card_lt(a: &Card, b: &Card) -> (r: bool)
    ensures
        r == !card_le(*b, *a),
{
    let sa = suit_rank(a.suit);
    let sb = suit_rank(b.suit);
    sa < sb || (sa == sb && a.num < b.num)
}

/// Swapping two neighbours keeps the multiset of a sequence.
proof fn lemma_swap_multiset<A>(s: Seq<A>, j: int)
    requires
        0 < j < s.len(),
    ensures
        s.update(j - 1, s[j]).update(j, s[j - 1]).to_multiset() == s.to_multiset(),
{
    broadcast use vstd::seq_lib::to_multiset_update;
    broadcast use vstd::multiset::group_multiset_axioms;

    let s1 = s.update(j - 1, s[j]);
    s.to_multiset_ensures();
    assert(s.contains(s[j]));
    assert(s.contains(s[j - 1]));
    assert(s.to_multiset().count(s[j]) > 0);
    assert(s.to_multiset().count(s[j - 1]) > 0);
    assert(s1[j] == s[j]);
    assert(s1.to_multiset() == s.to_multiset().insert(s[j]).remove(s[j - 1]));
    assert(s1.update(j, s[j - 1]).to_multiset() == s1.to_multiset().insert(s[j - 1]).remove(s[j]));
    let m = s.to_multiset();
    assert forall|x: A| #[trigger] s1.update(j, s[j - 1]).to_multiset().count(x) == m.count(x) by {
        broadcast use vstd::multiset::group_multiset_properties;
    }
    assert(s1.update(j, s[j - 1]).to_multiset() =~= s.to_multiset());
}

/// Puts the cards in ascending order.
pub fn sort_cards(v: &mut Vec<Card>)
    ensures
        cards_sorted(final(v)@),
        final(v)@.to_multiset() == old(v)@.to_multiset(),
{
    let n = v.len();
    if n == 0 {
        return;
    }
    let mut i: usize = 1;
    while i < n
        invariant
            1 <= i <= n,
            n == v@.len(),
            v@.to_multiset() == old(v)@.to_multiset(),
            forall|a: int, b: int| 0 <= a < b < i ==> card_le(#[trigger] v@[a], #[trigger] v@[b]),
        decreases n - i,
    {
        let mut j: usize = i;
        while j > 0 && card_lt(&v[j], &v[j - 1])
            invariant
                0 <= j <= i < n,
                n == v@.len(),
                v@.to_multiset() == old(v)@.to_multiset(),
                forall|a: int, b: int| 0 <= a < b <= i && a != j && b != j ==> card_le(#[trigger] v@[a], #[trigger] v@[b]),
                forall|b: int| j < b <= i ==> card_le(v@[j as int], #[trigger] v@[b]),
            decreases j,
        {
            let x = v[j];
            let y = v[j - 1];
            let ghost s = v@;
            v.set(j - 1, x);
            v.set(j, y);
            proof {
                lemma_swap_multiset(s, j as int);
                assert(v@ == s.update(j - 1, s[j as int]).update(j as int, s[j - 1]));
            }
            j = j - 1;
        }
        proof {
            assert forall|a: int, b: int| 0 <= a < b <= i implies card_le(#[trigger] v@[a], #[trigger] v@[b]) by {
                if b == j && a < j {
                    assert(card_le(v@[a], v@[j - 1]) || a == j - 1);
                }
            }
        }
        i = i + 1;
    }
}

/// The order of a card together with a place: by the card, then by the place.
pub open spec fn pair_le(a: (Card, usize), b: (Card, usize)) -> bool {
    !card_le(b.0, a.0) || (a.0 == b.0 && a.1 <= b.1)
}

/// The pairs are in descending order.
pub open spec fn pairs_sorted_desc(s: Seq<(Card, usize)>) -> bool {
    forall|i: int, j: int| 0 <= i < j < s.len() ==> pair_le(#[trigger] s[j], #[trigger] s[i])
}

/// Whether `a` comes strictly before `b`.
fn pair_lt(a: &(Card, usize), b: &(Card, usize)) -> (r: bool)
    ensures
        r == !pair_le(*b, *a),
{
    card_lt(&a.0, &b.0) || (a.0 == b.0 && a.1 < b.1)
}

/// Puts the pairs in descending order.
pub fn sort_pairs_desc(v: &mut Vec<(Card, usize)>)
    ensures
        pairs_sorted_desc(final(v)@),
        final(v)@.to_multiset() == old(v)@.to_multiset(),
{
    let n = v.len();
    if n == 0 {
        return;
    }
    let mut i: usize = 1;
    while i < n
        invariant
            1 <= i <= n,
            n == v@.len(),
            v@.to_multiset() == old(v)@.to_multiset(),
            forall|a: int, b: int| 0 <= a < b < i ==> pair_le(#[trigger] v@[b], #[trigger] v@[a]),
        decreases n - i,
    {
        let mut j: usize = i;
        while j > 0 && pair_lt(&v[j - 1], &v[j])
            invariant
                0 <= j <= i < n,
                n == v@.len(),
                v@.to_multiset() == old(v)@.to_multiset(),
                forall|a: int, b: int| 0 <= a < b <= i && a != j && b != j ==> pair_le(#[trigger] v@[b], #[trigger] v@[a]),
                forall|b: int| j < b <= i ==> pair_le(#[trigger] v@[b], v@[j as int]),
            decreases j,
        {
            let x = v[j];
            let y = v[j - 1];
            let ghost s = v@;
            v.set(j - 1, x);
            v.set(j, y);
            proof {
                lemma_swap_multiset(s, j as int);
                assert(v@ == s.update(j - 1, s[j as int]).update(j as int, s[j - 1]));
            }
            j = j - 1;
        }
        proof {
            assert forall|a: int, b: int| 0 <= a < b <= i implies pair_le(#[trigger] v@[b], #[trigger] v@[a]) by {
                if b == j && a < j {
                    assert(pair_le(v@[j - 1], v@[a]) || a == j - 1);
                }
            }
        }
        i = i + 1;
    }
}

/// The cards that wire cards stand for.
pub fn cards_from_infos(infos: &Vec<CardInfo>) -> (r: Vec<Card>)
    ensures
        r@ == infos@.map_values(|ci: CardInfo| card_of_info(ci)),
{
    let mut r: Vec<Card> = Vec::new();
    let mut i: usize = 0;
    while i < infos.len()
        invariant
            i <= infos@.len(),
            r@ == infos@.map_values(|ci: CardInfo| card_of_info(ci)).take(i as int),
        decreases infos@.len() - i,
    {
        r.push(Card::from_info(&infos[i]));
        i = i + 1;
        proof {
            assert(r@ =~= infos@.map_values(|ci: CardInfo| card_of_info(ci)).take(i as int));
        }
    }
    proof {
        assert(r@ =~= infos@.map_values(|ci: CardInfo| card_of_info(ci)));
    }
    r
}

/// Whether `l` holds `x`.
fn contains_u32(l: &Vec<u32>, x: u32) -> (b: bool)
    ensures
        b == l@.contains(x),
{
    let mut i: usize = 0;
    while i < l.len()
        invariant
            i <= l@.len(),
            forall|j: int| 0 <= j < i ==> l@[j] != x,
        decreases l@.len() - i,
    {
        if l[i] == x {
            return true;
        }
        i = i + 1;
    }
    false
}

/// The name of the player at place `k` of a reported room, empty for a
/// free place.
pub open spec fn seat_name(ri: RoomInfo, k: int) -> Seq<char> {
    if k < ri.players@.len() {
        ri.players@[k].name@
    } else {
        Seq::empty()
    }
}

/// Whether the player at place `k` of a reported room is ready.
pub open spec fn seat_ready(ri: RoomInfo, k: int) -> bool {
    ri.state matches Some(State::WaitReady(rl)) && rl.l@.contains(k as u32)
}

/// A reported room can be seen from place `myidx`: the place is one of the
/// four (or the count of them), at most four players sit in the room, and
/// every ready player sits at one of the four places.
pub open spec fn room_readable(myidx: int, ri: RoomInfo) -> bool {
    &&& 0 <= myidx <= 4
    &&& ri.players@.len() <= 4
    &&& ri.state matches Some(State::WaitReady(rl)) ==> forall|k: int| 0 <= k < rl.l@.len() ==> #[trigger] rl.l@[k] < 4
}

/// `players` are the four places of the reported room `ri` as seen from
/// place `myidx`: the own place first, then the others in turn; each with
/// the name, the place (0 for a free one) and whether the player is ready.
pub open spec fn seats_of(myidx: int, ri: RoomInfo, players: Seq<(String, usize, bool)>) -> bool {
    &&& players.len() == 4
    &&& forall|j: int|
        0 <= j < 4 ==> {
            let k = (j + myidx) % 4;
            &&& (#[trigger] players[j]).0@ == seat_name(ri, k)
            &&& players[j].1 == if k < ri.players@.len() { k as usize } else { 0 }
            &&& players[j].2 == seat_ready(ri, k)
        }
}

/// The four places of a reported room as seen from place `myidx`: the
/// player's own place first, then the others in turn; each with the name,
/// the place (0 for a free one) and whether the player is ready.
pub fn room_info_to_players(myidx: usize, ri: &RoomInfo) -> (players: Vec<(String, usize, bool)>)
    requires
        room_readable(myidx as int, *ri),
    ensures
        seats_of(myidx as int, *ri, players@),
{
    let n = ri.players.len();
    let mut players: Vec<(String, usize, bool)> = Vec::new();
    let mut j: usize = 0;
    while j < 4
        invariant
            j <= 4,
            myidx <= 4,
            n == ri.players@.len(),
            players@.len() == j,
            forall|jj: int|
                0 <= jj < j ==> {
                    let k = (jj + myidx) % 4;
                    &&& (#[trigger] players@[jj]).0@ == seat_name(*ri, k)
                    &&& players@[jj].1 == if k < ri.players@.len() { k as usize } else { 0 }
                    &&& players@[jj].2 == seat_ready(*ri, k)
                },
        decreases 4 - j,
    {
        let k = (j + myidx) % 4;
        let name = if k < n { ri.players[k].name.clone() } else { String::new() };
        let idx = if k < n { k } else { 0 };
        let ready = match &ri.state {
            Some(State::WaitReady(rl)) => contains_u32(&rl.l, k as u32),
            _ => false,
        };
        players.push((name, idx, ready));
        j = j + 1;
    }
    players
}

/// The place, as seen from place `my_remote_idx`, of the player at place
/// `remote_idx` of the room.
pub open spec fn spec_local_idx(my_remote_idx: int, remote_idx: int) -> int {
    (remote_idx + 4 - my_remote_idx) % 4
}

/// The place in the room of the player at place `local_idx` as seen from
/// place `my_remote_idx`.
pub open spec fn spec_remote_idx(my_remote_idx: int, local_idx: int) -> int {
    (local_idx + my_remote_idx) % 4
}

/// The place, as seen from place `my_remote_idx`, of the player at place
/// `remote_idx` of the room.
pub fn get_local_idx(my_remote_idx: usize, remote_idx: usize) -> (r: usize)
    requires
        remote_idx + 4 <= usize::MAX,
        my_remote_idx <= remote_idx + 4,
    ensures
        r == spec_local_idx(my_remote_idx as int, remote_idx as int),
{
    (remote_idx + 4 - my_remote_idx) % 4
}

/// The place in the room of the player at place `local_idx` as seen from
/// place `my_remote_idx`.
pub fn get_remote_idx(my_remote_idx: usize, local_idx: usize) -> (r: usize)
    requires
        local_idx + my_remote_idx <= usize::MAX,
    ensures
        r == spec_remote_idx(my_remote_idx as int, local_idx as int),
{
    (local_idx + my_remote_idx) % 4
}

/// Seen from any place of the room, turning a place of the room into a
/// place as seen and back gives the place again, and so does the other way
/// round.
pub proof fn lemma_local_remote_inverse(my_remote_idx: int, idx: int)
    requires
        0 <= my_remote_idx < 4,
        0 <= idx < 4,
    ensures
        spec_remote_idx(my_remote_idx, spec_local_idx(my_remote_idx, idx)) == idx,
        spec_local_idx(my_remote_idx, spec_remote_idx(my_remote_idx, idx)) == idx,
{
}

/// `players2` is `players` with the first of them at place `who` of the
/// room marked ready.
pub open spec fn got_ready(players: Seq<(String, usize, bool)>, who: usize, players2: Seq<(String, usize, bool)>) -> bool {
    exists|j: int|
        0 <= j < players.len() && (#[trigger] players[j]).1 == who
            && (forall|k: int| 0 <= k < j ==> (#[trigger] players[k]).1 != who)
            && players2 == players.update(j, (players[j].0, players[j].1, true))
}

/// Seen from place `myidx` of a room, the player at place `k` of the room
/// sits at the local place that `get_local_idx` gives, with its name, its
/// place and its readiness.
pub proof fn lemma_seat_of_room_place(myidx: int, ri: RoomInfo, players: Seq<(String, usize, bool)>, k: int)
    requires
        0 <= myidx < 4,
        seats_of(myidx, ri, players),
        0 <= k < ri.players@.len(),
        k < 4,
    ensures
        players[spec_local_idx(myidx, k)].0@ == ri.players@[k].name@,
        players[spec_local_idx(myidx, k)].1 == k,
        players[spec_local_idx(myidx, k)].2 == seat_ready(ri, k),
{
    lemma_local_remote_inverse(myidx, k);
    let j = spec_local_idx(myidx, k);
    assert(0 <= j < 4);
    assert((j + myidx) % 4 == k);
    assert(players[j].0@ == seat_name(ri, k));
}

/// Marks ready the first of `players` who sits at place `who` of the room.
pub fn someone_get_ready(players: &mut Vec<(String, usize, bool)>, who: usize)
    requires
        exists|j: int| 0 <= j < old(players)@.len() && (#[trigger] old(players)@[j]).1 == who,
    ensures
        got_ready(old(players)@, who, final(players)@),
{
    let mut j: usize = 0;
    while j < players.len()
        invariant
            j <= players@.len(),
            players@ == old(players)@,
            forall|k: int| 0 <= k < j ==> (#[trigger] old(players)@[k]).1 != who,
            exists|jj: int| 0 <= jj < old(players)@.len() && (#[trigger] old(players)@[jj]).1 == who,
        decreases players@.len() - j,
    {
        if players[j].1 == who {
            players[j].2 = true;
            proof {
                assert(players@ =~= old(players)@.update(j as int, (old(players)@[j as int].0, old(players)@[j as int].1, true)));
            }
            return;
        }
        j = j + 1;
    }
}

/// The sum of the ranks of `s`.
pub open spec fn sum_nums(s: Seq<Card>) -> int
    decreases s.len(),
{
    if s.len() == 0 {
        0
    } else {
        sum_nums(s.drop_last()) + s.last().num
    }
}

/// Points add up: the points of two lists of held cards together are the
/// points of each added, and a single card counts its rank.
pub proof fn lemma_points_add_up(a: Seq<Card>, b: Seq<Card>)
    ensures
        sum_nums(a + b) == sum_nums(a) + sum_nums(b),
        b.len() == 1 ==> sum_nums(b) == b[0].num,
        sum_nums(Seq::<Card>::empty()) == 0,
    decreases b.len(),
{
    if b.len() == 1 {
        assert(b.drop_last() =~= Seq::<Card>::empty());
    }
    if b.len() == 0 {
        assert(a + b =~= a);
    } else {
        lemma_points_add_up(a, b.drop_last());
        assert((a + b).drop_last() =~= a + b.drop_last());
        assert((a + b).last() == b.last());
    }
}

/// The points of a player: the sum of the ranks of the held cards.
pub fn hold_sum(holds: &Vec<Card>) -> (r: u32)
    requires
        sum_nums(holds@) <= u32::MAX,
    ensures
        r == sum_nums(holds@),
{
    let mut r: u32 = 0;
    let mut i: usize = 0;
    while i < holds.len()
        invariant
            i <= holds@.len(),
            r == sum_nums(holds@.take(i as int)),
            sum_nums(holds@) <= u32::MAX,
        decreases holds@.len() - i,
    {
        proof {
            assert(holds@.take(i as int + 1).drop_last() =~= holds@.take(i as int));
            lemma_sum_nums_prefix(holds@, i as int + 1);
        }
        r = r + holds[i].num;
        i = i + 1;
    }
    proof {
        assert(holds@.take(holds@.len() as int) =~= holds@);
    }
    r
}

/// The sum over a prefix is not larger than the sum over the whole.
proof fn lemma_sum_nums_prefix(s: Seq<Card>, n: int)
    requires
        0 <= n <= s.len(),
    ensures
        sum_nums(s.take(n)) <= sum_nums(s),
    decreases s.len(),
{
    if n < s.len() {
        assert(s.drop_last().take(n) =~= s.take(n));
        lemma_sum_nums_prefix(s.drop_last(), n);
    } else {
        assert(s.take(n) =~= s);
    }
}

/// How many entries of `ps` come before the first one at place `who` (all
/// of them when none is).
pub open spec fn place_of(ps: Seq<(String, usize, u32)>, who: usize) -> int
    decreases ps.len(),
{
    if ps.len() == 0 {
        0
    } else if ps[0].1 == who {
        0
    } else {
        1 + place_of(ps.drop_first(), who)
    }
}

/// The first entry at place `who` is the `i`-th.
proof fn lemma_place_of(ps: Seq<(String, usize, u32)>, who: usize, i: int)
    requires
        0 <= i < ps.len(),
        ps[i].1 == who,
        forall|k: int| 0 <= k < i ==> (#[trigger] ps[k]).1 != who,
    ensures
        place_of(ps, who) == i,
    decreases i,
{
    if i > 0 {
        assert forall|k: int| 0 <= k < i - 1 implies (#[trigger] ps.drop_first()[k]).1 != who by {
            assert(ps.drop_first()[k] == ps[k + 1]);
        }
        lemma_place_of(ps.drop_first(), who, i - 1);
    }
}

/// The index of the first of `players` at place `who` of the room: where
/// the turn is when a game starts, or who left it.
pub fn find_place(players: &Vec<(String, usize, u32)>, who: usize) -> (r: usize)
    requires
        exists|j: int| 0 <= j < players@.len() && (#[trigger] players@[j]).1 == who,
    ensures
        r == place_of(players@, who),
        r < players@.len(),
{
    let mut j: usize = 0;
    while j < players.len()
        invariant
            j <= players@.len(),
            forall|k: int| 0 <= k < j ==> (#[trigger] players@[k]).1 != who,
            exists|jj: int| 0 <= jj < players@.len() && (#[trigger] players@[jj]).1 == who,
        decreases players@.len() - j,
    {
        if players[j].1 == who {
            proof {
                lemma_place_of(players@, who, j as int);
            }
            return j;
        }
        j = j + 1;
    }
    proof {
        let jj = choose|jj: int| 0 <= jj < players@.len() && (#[trigger] players@[jj]).1 == who;
        assert(players@[jj].1 != who);
    }
    0
}

/// `g` are the players `w` of a room waiting for readiness as a starting
/// game has them: the same names and places, nothing held yet.
pub open spec fn gaming_of(w: Seq<(String, usize, bool)>, g: Seq<(String, usize, u32)>) -> bool {
    &&& g.len() == w.len()
    &&& forall|i: int| 0 <= i < g.len() ==> (#[trigger] g[i]).0 == w[i].0 && g[i].1 == w[i].1 && g[i].2 == 0
}

/// `w` are the players `g` of a game as a room waiting for readiness has
/// them: the same names and places, nobody ready.
pub open spec fn waiting_of(g: Seq<(String, usize, u32)>, w: Seq<(String, usize, bool)>) -> bool {
    &&& w.len() == g.len()
    &&& forall|i: int| 0 <= i < w.len() ==> (#[trigger] w[i]).0 == g[i].0 && w[i].1 == g[i].1 && !w[i].2
}

/// The players of a starting game, from the players of a room waiting for
/// readiness: the same names and places, nothing held yet.
pub fn gaming_players(players: &Vec<(String, usize, bool)>) -> (r: Vec<(String, usize, u32)>)
    ensures
        gaming_of(players@, r@),
{
    let mut r: Vec<(String, usize, u32)> = Vec::new();
    let mut i: usize = 0;
    while i < players.len()
        invariant
            i <= players@.len(),
            r@.len() == i,
            forall|k: int|
                0 <= k < i ==> (#[trigger] r@[k]).0 == players@[k].0 && r@[k].1 == players@[k].1 && r@[k].2 == 0,
        decreases players@.len() - i,
    {
        r.push((players[i].0.clone(), players[i].1, 0));
        i = i + 1;
    }
    r
}

/// The players of a room waiting for readiness again after a game was left:
/// the same names and places, nobody ready.
pub fn waiting_players(players: &Vec<(String, usize, u32)>) -> (r: Vec<(String, usize, bool)>)
    ensures
        waiting_of(players@, r@),
{
    let mut r: Vec<(String, usize, bool)> = Vec::new();
    let mut i: usize = 0;
    while i < players.len()
        invariant
            i <= players@.len(),
            r@.len() == i,
            forall|k: int|
                0 <= k < i ==> (#[trigger] r@[k]).0 == players@[k].0 && r@[k].1 == players@[k].1 && !r@[k].2,
        decreases players@.len() - i,
    {
        r.push((players[i].0.clone(), players[i].1, false));
        i = i + 1;
    }
    r
}

/// A chain of a reported desk can be read: every card is there and every
/// owner sits among `players`.
pub open spec fn chain_readable(chain: Seq<CardResult>, players: Seq<(String, usize, u32)>) -> bool {
    forall|i: int|
        0 <= i < chain.len() ==> (#[trigger] chain[i]).card is Some && exists|j: int|
            0 <= j < players.len() && (#[trigger] players[j]).1 == chain[i].whose as usize
}

/// A chain of a reported desk with the owners given by their index among
/// `players`.
pub open spec fn chain_pairs(chain: Seq<CardResult>, players: Seq<(String, usize, u32)>) -> Seq<(Card, usize)> {
    Seq::new(
        chain.len(),
        |i: int| (card_of_info(chain[i].card->Some_0), place_of(players, chain[i].whose as usize) as usize),
    )
}

/// Reads one chain of a reported desk and puts it in descending order.
fn parse_chain(chain: &Vec<CardResult>, players: &Vec<(String, usize, u32)>) -> (r: Vec<(Card, usize)>)
    requires
        chain_readable(chain@, players@),
    ensures
        pairs_sorted_desc(r@),
        r@.to_multiset() == chain_pairs(chain@, players@).to_multiset(),
{
    let mut r: Vec<(Card, usize)> = Vec::new();
    let mut i: usize = 0;
    while i < chain.len()
        invariant
            i <= chain@.len(),
            chain_readable(chain@, players@),
            r@ == chain_pairs(chain@, players@).take(i as int),
        decreases chain@.len() - i,
    {
        let cs = &chain[i];
        let c = match &cs.card {
            Some(ci) => Card::from_info(ci),
            None => {
                proof {
                    assert(chain@[i as int].card is Some);
                }
                Card::from_info(&CardInfo { suit: 0, num: 0 })
            },
        };
        let p = find_place(players, cs.whose as usize);
        r.push((c, p));
        i = i + 1;
        proof {
            assert(r@ =~= chain_pairs(chain@, players@).take(i as int));
        }
    }
    proof {
        assert(r@ =~= chain_pairs(chain@, players@));
    }
    sort_pairs_desc(&mut r);
    r
}

/// Every chain of a reported desk can be read.
pub open spec fn desk_result_readable(ds: DeskResult, players: Seq<(String, usize, u32)>) -> bool {
    &&& chain_readable(ds.spade@, players)
    &&& chain_readable(ds.heart@, players)
    &&& chain_readable(ds.club@, players)
    &&& chain_readable(ds.diamond@, players)
}

/// `ret` is the reported desk read: the four chains in descending order,
/// each with the owners given by their index among `players`.
pub open spec fn desk_result_of(ds: DeskResult, players: Seq<(String, usize, u32)>, ret: Seq<Vec<(Card, usize)>>) -> bool {
    &&& ret.len() == 4
    &&& forall|k: int| 0 <= k < 4 ==> pairs_sorted_desc(#[trigger] ret[k]@)
    &&& ret[0]@.to_multiset() == chain_pairs(ds.spade@, players).to_multiset()
    &&& ret[1]@.to_multiset() == chain_pairs(ds.heart@, players).to_multiset()
    &&& ret[2]@.to_multiset() == chain_pairs(ds.club@, players).to_multiset()
    &&& ret[3]@.to_multiset() == chain_pairs(ds.diamond@, players).to_multiset()
}

/// The held cards reported at the end of a game agree with what this
/// client counted: each of at most four players has a reported list with as
/// many cards as counted, and this client's own list is as long as its
/// held cards.
pub open spec fn hold_result_readable(hs: Seq<HoldList>, players: Seq<(String, usize, u32)>, holds: Seq<Card>) -> bool {
    &&& players.len() <= 4
    &&& forall|i: int| 0 <= i < players.len() ==> (#[trigger] players[i]).1 < hs.len()
        && players[i].2 as int == hs[players[i].1 as int].holds@.len()
    &&& holds.len() == if players.len() > 0 { hs[players[0].1 as int].holds@.len() } else { 0 }
}

/// `ret` is what the players held, as seen from this client's place: for
/// each of `players` the name, the place and the held cards reported for
/// that place; free entries up to four are empty.
pub open spec fn hold_result_of(hs: Seq<HoldList>, players: Seq<(String, usize, u32)>, ret: Seq<(String, usize, Vec<Card>)>) -> bool {
    &&& ret.len() == 4
    &&& forall|i: int|
        0 <= i < 4 ==> if i < players.len() {
            &&& (#[trigger] ret[i]).0@ == players[i].0@
            &&& ret[i].1 == players[i].1
            &&& ret[i].2@ == hs[players[i].1 as int].holds@.map_values(|ci: CardInfo| card_of_info(ci))
        } else {
            &&& ret[i].0@.len() == 0
            &&& ret[i].1 == 0
            &&& ret[i].2@.len() == 0
        }
}

/// Reads the desk reported at the end of a game: each chain with the owner
/// of each card given by the owner's index among `players`, in descending
/// order.
pub fn parse_desk_result(ds: &DeskResult, players: &Vec<(String, usize, u32)>) -> (ret: Vec<Vec<(Card, usize)>>)
    requires
        desk_result_readable(*ds, players@),
    ensures
        desk_result_of(*ds, players@, ret@),
{
    let mut ret: Vec<Vec<(Card, usize)>> = Vec::new();
    ret.push(parse_chain(&ds.spade, players));
    ret.push(parse_chain(&ds.heart, players));
    ret.push(parse_chain(&ds.club, players));
    ret.push(parse_chain(&ds.diamond, players));
    ret
}

/// What the players held at the end of a game, as seen from this client's
/// place: for each of `players` (name, place in the room, held-card count)
/// the name, the place and the held cards that the server reported for
/// that place; free entries up to four are empty.
pub fn parse_hold_result(
    hs: &Vec<HoldList>,
    players: &Vec<(String, usize, u32)>,
    holds: &Vec<Card>,
) -> (ret: Vec<(String, usize, Vec<Card>)>)
    requires
        hold_result_readable(hs@, players@, holds@),
    ensures
        hold_result_of(hs@, players@, ret@),
{
    let mut ret: Vec<(String, usize, Vec<Card>)> = Vec::new();
    let mut i: usize = 0;
    while i < 4
        invariant
            i <= 4,
            players@.len() <= 4,
            forall|k: int| 0 <= k < players@.len() ==> (#[trigger] players@[k]).1 < hs@.len(),
            ret@.len() == i,
            forall|k: int|
                0 <= k < i ==> if k < players@.len() {
                    &&& (#[trigger] ret@[k]).0@ == players@[k].0@
                    &&& ret@[k].1 == players@[k].1
                    &&& ret@[k].2@ == hs@[players@[k].1 as int].holds@.map_values(|ci: CardInfo| card_of_info(ci))
                } else {
                    &&& ret@[k].0@.len() == 0
                    &&& ret@[k].1 == 0
                    &&& ret@[k].2@.len() == 0
                },
        decreases 4 - i,
    {
        if i < players.len() {
            let idx = players[i].1;
            ret.push((players[i].0.clone(), idx, cards_from_infos(&hs[idx].holds)));
        } else {
            ret.push((String::new(), 0, Vec::new()));
        }
        i = i + 1;
    }
    ret
}

/// The side that card `c` goes to on `desk`, as it is once a new round
/// started when `new_round`.
pub open spec fn target_after(desk: &Desk, c: Card, new_round: bool) -> Seq<(Card, u32)> {
    if new_round {
        side_after_new_round(desk.target(c))
    } else {
        desk.target(c)
    }
}

/// The two sides of the chain of suit `s` once a new round started when
/// `new_round`.
pub open spec fn sides_after(desk: &Desk, s: CardSuit, new_round: bool) -> (Seq<(Card, u32)>, Seq<(Card, u32)>) {
    if new_round {
        (side_after_new_round(desk.sides(s).0), side_after_new_round(desk.sides(s).1))
    } else {
        desk.sides(s)
    }
}

/// A play by player `pid` of the room can be followed: it is the turn of
/// that player, the count of plays and of held cards can grow, a held card
/// comes blank, and a discarded card can be put on its side of the desk as
/// it is once a new round started (every fourth play).
pub open spec fn play_followable(
    players: Seq<(String, usize, u32)>,
    next: usize,
    desk: Desk,
    play_cnt: u32,
    pid: u32,
    play: Play,
) -> bool {
    &&& pid < 4
    &&& next < players.len()
    &&& players[next as int].1 == pid as usize
    &&& play_cnt < u32::MAX
    &&& play matches Play::Hold(ci) ==> ci.num == 0 && ci.suit == 0 && players[next as int].2 < u32::MAX
    &&& play matches Play::Discard(ci) ==> can_add_to(
        target_after(&desk, card_of_info(ci), (play_cnt + 1) % 4 == 1),
        card_of_info(ci),
    )
}

/// The picture of a game after a followed play: the play is counted; every
/// fourth play starts a new round on the desk; a discarded card is drawn on
/// the desk (marked as this client's own when `next` is 0) and becomes the
/// last card; a held card counts for its player and leaves no last card; the
/// turn passes on.
pub open spec fn play_followed(
    players: Seq<(String, usize, u32)>,
    next: usize,
    desk: Desk,
    play_cnt: u32,
    play: Play,
    players2: Seq<(String, usize, u32)>,
    next2: usize,
    last2: Option<Card>,
    has_last2: bool,
    desk2: Desk,
    play_cnt2: u32,
) -> bool {
    let nr = (play_cnt + 1) % 4 == 1;
    &&& play_cnt2 == play_cnt + 1
    &&& next2 == (next + 1) % 4
    &&& has_last2
    &&& play matches Play::Discard(ci) ==> {
        let c = card_of_info(ci);
        &&& last2 == Some(c)
        &&& players2 == players
        &&& forall|s: CardSuit|
            #[trigger] desk2.sides(s) == if s == c.suit {
                if c.num <= 7 {
                    (
                        crate::client::desk::side_after_add(sides_after(&desk, s, nr).0, c, next == 0),
                        sides_after(&desk, s, nr).1,
                    )
                } else {
                    (
                        sides_after(&desk, s, nr).0,
                        crate::client::desk::side_after_add(sides_after(&desk, s, nr).1, c, next == 0),
                    )
                }
            } else {
                sides_after(&desk, s, nr)
            }
    }
    &&& play matches Play::Hold(_) ==> {
        let n = next as int;
        &&& last2 == None::<Card>
        &&& players2 == players.update(n, (players[n].0, players[n].1, (players[n].2 + 1) as u32))
        &&& forall|s: CardSuit| #[trigger] desk2.sides(s) == sides_after(&desk, s, nr)
    }
}

/// Follows a play reported during a game: `players` are (name, place in
/// the room, held-card count) in this client's order, `next` the index of
/// the player whose turn it is. The play is counted; every fourth play
/// starts a new round on the desk; a discarded card is drawn on the desk
/// and becomes the last card; a held card counts for its player and leaves
/// no last card; the turn passes on.
pub fn apply_play(
    players: &mut Vec<(String, usize, u32)>,
    next: &mut usize,
    last: &mut Option<Card>,
    has_last: &mut bool,
    desk: &mut Desk,
    play_cnt: &mut u32,
    pid: u32,
    play: Play,
)
    requires
        play_followable(old(players)@, *old(next), *old(desk), *old(play_cnt), pid, play),
    ensures
        play_followed(
            old(players)@, *old(next), *old(desk), *old(play_cnt), play,
            final(players)@, *final(next), *final(last), *final(has_last), *final(desk), *final(play_cnt),
        ),
{
    let np = players.len();
    *play_cnt = *play_cnt + 1;
    if *play_cnt % 4 == 1 {
        desk.new_round();
    }
    match play {
        Play::Discard(ci) => {
            let c = Card::from_info(&ci);
            *last = Some(c);
            proof {
                if (*old(play_cnt) + 1) % 4 == 1 {
                    assert(desk.target(c) == side_after_new_round(old(desk).target(c)));
                } else {
                    assert(desk.sides(c.suit) == old(desk).sides(c.suit));
                }
            }
            desk.add(c, *next == 0);
        },
        Play::Hold(_) => {
            *last = None;
            let n = *next;
            players[n].2 = players[n].2 + 1;
            proof {
                assert(players@ =~= old(players)@.update(n as int, (old(players)@[n as int].0, old(players)@[n as int].1, (old(players)@[n as int].2 + 1) as u32)));
            }
        },
    }
    assert(*next < np);
    *next = *next + 1;
    *next = *next % 4;
    *has_last = true;
}

/// The card chosen among `n` cards after the left or right key: choices
/// run from 0 (none) to `n`, and wrap around.
pub fn move_choice(choose: usize, n: usize, is_left: bool) -> (r: usize)
    requires
        n < usize::MAX,
        choose > n ==> choose + (if is_left { n } else { 1 }) <= usize::MAX,
    ensures
        r == (choose + if is_left { n } else { 1 }) % (n + 1),
{
    if choose <= n {
        proof {
            lemma_mod_once(choose + n, n + 1);
            lemma_mod_once(choose + 1, n + 1);
        }
        if is_left {
            if choose == 0 {
                n
            } else {
                choose - 1
            }
        } else if choose == n {
            0
        } else {
            choose + 1
        }
    } else {
        let step = if is_left { n } else { 1 };
        (choose + step) % (n + 1)
    }
}

/// `x % m` for `0 <= x < 2 * m`.
proof fn lemma_mod_once(x: int, m: int)
    requires
        0 < m,
        0 <= x < 2 * m,
    ensures
        x % m == if x < m { x } else { x - m },
{
    if x < m {
        vstd::arithmetic::div_mod::lemma_fundamental_div_mod_converse(x, m, 0, x);
    } else {
        vstd::arithmetic::div_mod::lemma_fundamental_div_mod_converse(x, m, 1, x - m);
    }
}

/// Moving the choice left and then right, or right and then left, comes
/// back to the card chosen before.
pub proof fn lemma_move_choice_undo(choose: int, n: int)
    requires
        0 <= choose <= n,
    ensures
        ((choose + n) % (n + 1) + 1) % (n + 1) == choose,
        ((choose + 1) % (n + 1) + n) % (n + 1) == choose,
{
    lemma_mod_once(choose + n, n + 1);
    lemma_mod_once((choose + n) % (n + 1) + 1, n + 1);
    lemma_mod_once(choose + 1, n + 1);
    lemma_mod_once((choose + 1) % (n + 1) + n, n + 1);
}

/// The two buttons (discard, hold) or (new room, join room) toggle.
pub fn next_button(button: u32) -> (r: u32)
    requires
        button < u32::MAX,
    ensures
        r == (button + 1) % 2,
{
    (button + 1) % 2
}

/// The play that the player makes with chosen card number `choose` (from
/// 1) and button `button`: 0 discards it, any other holds it.
pub fn make_play(cards: &Vec<Card>, choose: usize, button: u32) -> (p: Play)
    requires
        1 <= choose <= cards@.len(),
    ensures
        button == 0 ==> p == Play::Discard(info_of_card(cards@[choose - 1])),
        button != 0 ==> p == Play::Hold(info_of_card(cards@[choose - 1])),
{
    let c = cards[choose - 1];
    if button == 0 {
        Play::Discard(c.into_info())
    } else {
        Play::Hold(c.into_info())
    }
}

/// Takes the played card out of the hand once the server accepted the
/// play; a held card (button 1) joins the held cards, which stay in order.
/// Nothing is chosen afterwards.
pub fn take_played(cards: &mut Vec<Card>, holds: &mut Vec<Card>, choose: &mut usize, button: u32)
    requires
        1 <= *old(choose) <= old(cards)@.len(),
    ensures
        final(cards)@ == old(cards)@.remove(*old(choose) - 1),
        *final(choose) == 0,
        button == 1 ==> cards_sorted(final(holds)@)
            && final(holds)@.to_multiset() == old(holds)@.push(old(cards)@[*old(choose) - 1]).to_multiset(),
        button != 1 ==> final(holds)@ == old(holds)@,
{
    let c = cards.remove(*choose - 1);
    *choose = 0;
    if button == 1 {
        holds.push(c);
        sort_cards(holds);
    }
}

} // verus!
