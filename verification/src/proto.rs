//! The messages that the game server and its clients exchange, as plain
//! values: cards on the wire, the state of a room, what a player sees of a
//! running game and the result of a finished one.

use vstd::prelude::*;

verus! {

/// The four suits, in the order in which they are numbered on the wire.
#[derive(Clone, Copy, Debug, PartialEq, Eq, Structural, Hash, PartialOrd, Ord)]
pub enum CardSuit {
    Spade,
    Heart,
    Club,
    Diamond,
}

/// A card as it travels on the wire: the suit by its number, and the rank.
#[derive(Clone, Copy, Debug, PartialEq, Eq, Structural, Hash)]
pub struct CardInfo {
    pub suit: i32,
    pub num: u32,
}

/// A card on the desk together with the player who discarded it.
#[derive(Clone, Debug)]
pub struct CardResult {
    pub card: Option<CardInfo>,
    pub whose: u32,
}

/// The two ends of one chain on the desk, and whether each end was laid in
/// the current round.
#[derive(Clone, Debug)]
pub struct ChainInfo {
    pub front: Option<CardInfo>,
    pub back: Option<CardInfo>,
    pub front_is_thisround: bool,
    pub back_is_thisround: bool,
}

/// The ends of the four chains on the desk; a missing chain is empty.
#[derive(Clone, Debug)]
pub struct DeskInfo {
    pub spade: Option<ChainInfo>,
    pub heart: Option<ChainInfo>,
    pub club: Option<ChainInfo>,
    pub diamond: Option<ChainInfo>,
}

/// Every card of the four chains, in chain order, with its owner.
#[derive(Clone, Debug)]
pub struct DeskResult {
    pub spade: Vec<CardResult>,
    pub heart: Vec<CardResult>,
    pub club: Vec<CardResult>,
    pub diamond: Vec<CardResult>,
}

/// The cards that one player held face down.
#[derive(Clone, Debug)]
pub struct HoldList {
    pub holds: Vec<CardInfo>,
}

/// The cards that the asking player holds, and how many each player holds.
#[derive(Clone, Debug)]
pub struct HeldCards {
    pub my: Vec<CardInfo>,
    pub eachone: Vec<u32>,
}

/// What one player sees of a running game.
#[derive(Clone, Debug)]
pub struct GameInfo {
    pub cards: Vec<CardInfo>,
    pub holds: Option<HeldCards>,
    pub desk: Option<DeskInfo>,
}

/// A player as the server knows it.
#[derive(Clone, Debug)]
pub struct PlayerInfo {
    pub name: String,
}

/// The places of the players who are ready.
#[derive(Clone, Debug)]
pub struct ReadyList {
    pub l: Vec<u32>,
}

/// The state of a room as it is reported: how many players joined, who is
/// ready, whose turn it is, or that the game ended.
#[derive(Clone, Debug)]
pub enum State {
    NotFull(u32),
    WaitReady(ReadyList),
    Gaming(u32),
    EndGame(u32),
}

/// A room as it is reported to its players.
#[derive(Clone, Debug)]
pub struct RoomInfo {
    pub roomid: String,
    pub players: Vec<PlayerInfo>,
    pub state: Option<State>,
}

/// One move of a player: lay a card on the desk, or hold it face down.
#[derive(Clone, Copy, Debug, PartialEq, Eq, Structural)]
pub enum Play {
    Discard(CardInfo),
    Hold(CardInfo),
}

/// The end of a game: the desk and what every player held.
#[derive(Clone, Debug)]
pub struct GameResult {
    pub desk: Option<DeskResult>,
    pub hold: Vec<HoldList>,
}

/// A play as the room tells it: who played, and what the others may see.
#[derive(Clone, Debug)]
pub struct PlayInfo {
    pub player: u32,
    pub play: Play,
}

/// A message of the game stream.
#[derive(Clone, Debug)]
pub enum Msg {
    RoomInfo(RoomInfo),
    WhoReady(u32),
    Start(u32),
    Play(PlayInfo),
    Endgame(GameResult),
    ExitGame(u32),
    ExitRoom(RoomInfo),
    LoseConnection(RoomInfo),
}

/// A message of the game stream with the place of the player it goes to.
#[derive(Clone, Debug)]
pub struct GameMsg {
    pub msg: Option<Msg>,
    pub your_id: u32,
}

} // verus!
