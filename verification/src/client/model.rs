//! The client as a state machine over plain values: the screen with what it
//! shows, the exit menu, and for each key, each message of the game stream
//! and each answer of the server, the next state and the one action that the
//! caller is to perform (a request to the server, a stop, a quit).

use vstd::prelude::*;
use crate::proto::{CardInfo, GameInfo, GameMsg, Msg, Play, RoomInfo, State};
use crate::game::{Card, card_of_info, card_of_play, info_of_card};
use crate::client::desk::Desk;
use crate::client::event::KeyCode;
use crate::client::flow::{
    spec_enter_action, spec_exit_action, spec_exit_buttons, exit_menu_move, spec_stream_step, stream_accepts, EnterAction,
    EnterContext, ExitAction, MsgKind, Screen, Step, ExitMenuEvent,
};
use crate::client::state::{
    apply_play, cards_from_infos, cards_sorted, desk_result_of, desk_result_readable, find_place, gaming_of,
    gaming_players, got_ready, hold_result_of, hold_result_readable, make_play, move_choice, next_button,
    parse_desk_result, parse_hold_result, place_of, play_followable, play_followed, room_info_to_players,
    room_readable, seat_ready, seats_of, someone_get_ready, sort_cards, take_played, waiting_of, waiting_players,
};

verus! {

/// Appends `t` to `s`: `String::push_str` of std.
#[verifier::external_body]
fn push_text(s: &mut String, t: &str)
    ensures
        final(s)@ == old(s)@ + t@,
{
    s.push_str(t);
}

/// The text `a`, then `b`, then `c`.
fn text3(a: &str, b: &str, c: &str) -> (r: String)
    ensures
        r@ == a@ + b@ + c@,
{
    let mut r = a.to_owned();
    push_text(&mut r, b);
    push_text(&mut r, c);
    r
}

/// The texts of lines of a message.
pub open spec fn lines(v: Vec<String>) -> Seq<Seq<char>> {
    v@.map_values(|s: String| s@)
}

/// The lines shown while waiting for the players to get ready.
pub open spec fn ready_lines() -> Seq<Seq<char>> {
    seq!["Please press ENTER to get ready!"@]
}

/// The lines shown when someone left the room.
pub open spec fn exit_room_lines() -> Seq<Seq<char>> {
    seq!["Someone exits room."@, "Waiting for other players to join room......"@]
}

/// The lines shown when someone lost the connection.
pub open spec fn lost_lines() -> Seq<Seq<char>> {
    seq!["Someone lost connection..."@, "Waiting for other players to join room......"@]
}

fn one_line(a: &str) -> (v: Vec<String>)
    ensures
        lines(v) == seq![a@],
{
    let v = vec![a.to_owned()];
    proof {
        assert(lines(v) =~= seq![a@]);
    }
    v
}

fn two_lines(a: &str, b: &str) -> (v: Vec<String>)
    ensures
        lines(v) == seq![a@, b@],
{
    let v = vec![a.to_owned(), b.to_owned()];
    proof {
        assert(lines(v) =~= seq![a@, b@]);
    }
    v
}

/// The screens of a client with what each shows and keeps.
#[derive(Debug)]
pub enum ClientState {
    /// Asking for the address of the server.
    GetServer { input: String, msg: String, connecting: bool },
    /// Asking for the name, then whether to make or to join a room.
    AskName { input: String, msg: String, button: u32, is_input: bool },
    /// Asking for the name of a new room.
    NewRoom { input: String, msg: String, name: String },
    /// Asking for the room to join.
    JoinRoom { input: String, msg: String, name: String },
    /// Waiting for the room to fill: each place with name, place in the
    /// room and readiness, this client's own first.
    WaitPlayer { players: Vec<(String, usize, bool)>, msg: Vec<String>, roomid: String },
    /// Waiting for the players to get ready.
    WaitReady { players: Vec<(String, usize, bool)>, msg: Vec<String>, roomid: String },
    /// Playing: each player with name, place in the room and held-card count,
    /// whose turn it is, the last card laid, the own hand and held cards,
    /// the desk, the chosen card (from 1, 0 for none) and button, and the
    /// count of plays.
    Gaming {
        players: Vec<(String, usize, u32)>,
        next: usize,
        last: Option<Card>,
        cards: Vec<Card>,
        holds: Vec<Card>,
        desk: Desk,
        choose: usize,
        button: u32,
        has_last: bool,
        play_cnt: u32,
        msg: Option<String>,
        roomid: String,
    },
    /// The result of a game: the chains with their owners, and what each
    /// player held.
    GameResult { ds: Vec<Vec<(Card, usize)>>, players: Vec<(String, usize, Vec<Card>)>, roomid: String },
}

/// A client: its screen, and whether the exit menu is open with its
/// chosen button.
#[derive(Debug)]
pub struct ClientModel {
    pub state: ClientState,
    pub exitmenu: (bool, u32),
}

/// What the caller is to do after a step.
#[derive(Debug)]
pub enum ClientAction {
    /// Nothing.
    Nothing,
    /// Connect to the server at this address.
    Connect(String),
    /// Make a new listener for the game stream of a room to join.
    NewListener,
    /// Ask the server for a new room of this name.
    RequestNewRoom(String),
    /// Join, under a name, the room of an id.
    RequestJoinRoom(String, String),
    /// Tell the server that the player at a place of a room is ready.
    GetReady(u32, String),
    /// Ask for what the player at a place of a room sees of the game that
    /// just started, the turn being at the given place.
    QueryGameStatus(u32, String, u32),
    /// Send a play of the player at a place of a room.
    PlayCard(u32, String, Play),
    /// Tell the server that the player at a place leaves the game.
    ExitGame(u32, String),
    /// Leave the game, then ask for the state of the room.
    ExitGameThenRoomStatus(u32, String),
    /// Leave the room and stop the listener of the game stream.
    LeaveRoom(u32, String),
    /// Leave the room, stop the listener and quit.
    LeaveRoomAndQuit(u32, String),
    /// Stop the listener of the game stream.
    StopListener,
    /// Stop the listener of the game stream and quit.
    StopListenerAndQuit,
    /// Quit.
    Quit,
    /// Edit the text field with a key.
    EditInput(KeyCode),
}

/// The screen a state shows.
pub open spec fn screen_of(s: ClientState) -> Screen {
    match s {
        ClientState::GetServer { .. } => Screen::GetServer,
        ClientState::AskName { .. } => Screen::AskName,
        ClientState::NewRoom { .. } => Screen::NewRoom,
        ClientState::JoinRoom { .. } => Screen::JoinRoom,
        ClientState::WaitPlayer { .. } => Screen::WaitPlayer,
        ClientState::WaitReady { .. } => Screen::WaitReady,
        ClientState::Gaming { .. } => Screen::Gaming,
        ClientState::GameResult { .. } => Screen::GameResult,
    }
}

/// The play that the chosen card and button make.
pub open spec fn chosen_play(cards: Seq<Card>, choose: usize, button: u32) -> Play {
    if button == 0 {
        Play::Discard(info_of_card(cards[choose - 1]))
    } else {
        Play::Hold(info_of_card(cards[choose - 1]))
    }
}

/// Enter can be handled: the screens that look at the own place have one,
/// and a chosen card is in the hand.
pub open spec fn enter_ok(m: ClientModel) -> bool {
    match m.state {
        ClientState::WaitReady { players, .. } => players@.len() > 0,
        ClientState::Gaming { players, cards, choose, next, .. } => players@.len() > 0
            && (cards@.len() != 0 && choose != 0 && next == 0 ==> choose <= cards@.len()),
        ClientState::GameResult { players, .. } => players@.len() > 0,
        _ => true,
    }
}

/// What Enter does: connect to the typed address; go on to name a new room
/// or to type the room to join; ask for the new room or join the room; get
/// ready; play the chosen card; confirm the result. Elsewhere nothing
/// happens and nothing is drawn again.
pub open spec fn enter_goes(m: ClientModel, r: ClientModel, a: ClientAction, redraw: bool) -> bool {
    match m.state {
        ClientState::GetServer { input, msg, connecting } => if !connecting {
            &&& r.exitmenu == m.exitmenu
            &&& r.state matches ClientState::GetServer { input: i2, msg: m2, connecting: c2 }
            &&& i2 == input
            &&& m2@ == "Try connecting to "@ + input@ + " ......"@
            &&& c2
            &&& a == ClientAction::Connect(input)
            &&& redraw
        } else {
            r == m && a == ClientAction::Nothing && !redraw
        },
        ClientState::AskName { input, msg, button, is_input } => if is_input {
            r == m && a == ClientAction::Nothing && !redraw
        } else if button == 0 {
            &&& r.exitmenu == m.exitmenu
            &&& r.state matches ClientState::NewRoom { input: i2, msg: m2, name: n2 }
            &&& i2@.len() == 0
            &&& n2 == input
            &&& m2@ == "Hello, "@ + input@ + "!\nPlease enter new room name:"@
            &&& a == ClientAction::Nothing
            &&& redraw
        } else {
            &&& r.exitmenu == (m.exitmenu.0, 0u32)
            &&& r.state matches ClientState::JoinRoom { input: i2, msg: m2, name: n2 }
            &&& i2@.len() == 0
            &&& n2 == input
            &&& m2@ == "Hello, "@ + input@ + "!\nPlease enter room ID:"@
            &&& a == ClientAction::NewListener
            &&& redraw
        },
        ClientState::NewRoom { input, .. } => r == m && a == ClientAction::RequestNewRoom(input) && redraw,
        ClientState::JoinRoom { input, name, .. } => r == m && a == ClientAction::RequestJoinRoom(name, input)
            && redraw,
        ClientState::WaitPlayer { .. } => r == m && a == ClientAction::Nothing && !redraw,
        ClientState::WaitReady { players, msg, roomid } => if !players@[0].2 {
            &&& r.exitmenu == m.exitmenu
            &&& r.state matches ClientState::WaitReady { players: p2, msg: m2, roomid: r2 }
            &&& p2@ == players@.update(0, (players@[0].0, players@[0].1, true))
            &&& lines(m2) == seq!["Waiting for other players to get ready......"@]
            &&& r2 == roomid
            &&& a == ClientAction::GetReady(players@[0].1 as u32, roomid)
            &&& redraw
        } else {
            r == m && a == ClientAction::Nothing && !redraw
        },
        ClientState::Gaming { players, cards, choose, next, button, roomid, .. } => if cards@.len() != 0 && choose
            != 0 && next == 0 {
            r == m && a == ClientAction::PlayCard(players@[0].1 as u32, roomid, chosen_play(cards@, choose, button))
                && redraw
        } else {
            r == m && a == ClientAction::Nothing && !redraw
        },
        ClientState::GameResult { players, roomid, .. } => r == m && a == ClientAction::ExitGameThenRoomStatus(
            players@[0].1 as u32,
            roomid,
        ) && redraw,
    }
}

impl ClientModel {
    /// Handles the Enter key.
    pub fn handle_enter(self) -> (r: (ClientModel, ClientAction, bool))
        requires
            enter_ok(self),
        ensures
            enter_goes(self, r.0, r.1, r.2),
    {
        let exitmenu = self.exitmenu;
        match self.state {
            ClientState::GetServer { input, msg, connecting } => {
                if !connecting {
                    let m2 = text3("Try connecting to ", input.as_str(), " ......");
                    let a = ClientAction::Connect(input.clone());
                    (ClientModel { state: ClientState::GetServer { input, msg: m2, connecting: true }, exitmenu }, a, true)
                } else {
                    (
                        ClientModel { state: ClientState::GetServer { input, msg, connecting }, exitmenu },
                        ClientAction::Nothing,
                        false,
                    )
                }
            },
            ClientState::AskName { input, msg, button, is_input } => {
                if is_input {
                    (
                        ClientModel { state: ClientState::AskName { input, msg, button, is_input }, exitmenu },
                        ClientAction::Nothing,
                        false,
                    )
                } else if button == 0 {
                    let m2 = text3("Hello, ", input.as_str(), "!\nPlease enter new room name:");
                    (
                        ClientModel { state: ClientState::NewRoom { input: String::new(), msg: m2, name: input }, exitmenu },
                        ClientAction::Nothing,
                        true,
                    )
                } else {
                    let m2 = text3("Hello, ", input.as_str(), "!\nPlease enter room ID:");
                    (
                        ClientModel {
                            state: ClientState::JoinRoom { input: String::new(), msg: m2, name: input },
                            exitmenu: (exitmenu.0, 0),
                        },
                        ClientAction::NewListener,
                        true,
                    )
                }
            },
            ClientState::NewRoom { input, msg, name } => {
                let a = ClientAction::RequestNewRoom(input.clone());
                (ClientModel { state: ClientState::NewRoom { input, msg, name }, exitmenu }, a, true)
            },
            ClientState::JoinRoom { input, msg, name } => {
                let a = ClientAction::RequestJoinRoom(name.clone(), input.clone());
                (ClientModel { state: ClientState::JoinRoom { input, msg, name }, exitmenu }, a, true)
            },
            ClientState::WaitPlayer { players, msg, roomid } => {
                (
                    ClientModel { state: ClientState::WaitPlayer { players, msg, roomid }, exitmenu },
                    ClientAction::Nothing,
                    false,
                )
            },
            ClientState::WaitReady { players, msg, roomid } => {
                if !players[0].2 {
                    let mut players = players;
                    let a = ClientAction::GetReady(players[0].1 as u32, roomid.clone());
                    players[0].2 = true;
                    let m2 = one_line("Waiting for other players to get ready......");
                    (ClientModel { state: ClientState::WaitReady { players, msg: m2, roomid }, exitmenu }, a, true)
                } else {
                    (
                        ClientModel { state: ClientState::WaitReady { players, msg, roomid }, exitmenu },
                        ClientAction::Nothing,
                        false,
                    )
                }
            },
            ClientState::Gaming {
                players,
                next,
                last,
                cards,
                holds,
                desk,
                choose,
                button,
                has_last,
                play_cnt,
                msg,
                roomid,
            } => {
                let a = if cards.len() != 0 && choose != 0 && next == 0 {
                    ClientAction::PlayCard(players[0].1 as u32, roomid.clone(), make_play(&cards, choose, button))
                } else {
                    ClientAction::Nothing
                };
                let redraw = cards.len() != 0 && choose != 0 && next == 0;
                (
                    ClientModel {
                        state: ClientState::Gaming {
                            players,
                            next,
                            last,
                            cards,
                            holds,
                            desk,
                            choose,
                            button,
                            has_last,
                            play_cnt,
                            msg,
                            roomid,
                        },
                        exitmenu,
                    },
                    a,
                    redraw,
                )
            },
            ClientState::GameResult { ds, players, roomid } => {
                let a = ClientAction::ExitGameThenRoomStatus(players[0].1 as u32, roomid.clone());
                (ClientModel { state: ClientState::GameResult { ds, players, roomid }, exitmenu }, a, true)
            },
        }
    }
}

/// The answer to the request for a new room: on success the room is to be
/// joined (its name stays typed) with a new listener, and the exit menu
/// points at its first button; on failure the reason is shown.
pub open spec fn new_room_answered(m: ClientModel, res: Result<(), String>, r: ClientModel, a: ClientAction) -> bool {
    m.state matches ClientState::NewRoom { input, msg, name } && match res {
        Ok(_) => {
            &&& r.exitmenu == (m.exitmenu.0, 0u32)
            &&& r.state matches ClientState::JoinRoom { input: i2, msg: m2, name: n2 }
            &&& i2 == input
            &&& n2 == name
            &&& m2@ == "Hello, "@ + name@
                + "!\nSuccessfully created a room, ID is shown below.\nPlease press ENTER to join room:"@
            &&& a == ClientAction::NewListener
        },
        Err(e) => {
            &&& r.exitmenu == m.exitmenu
            &&& r.state matches ClientState::NewRoom { input: i2, msg: m2, name: n2 }
            &&& i2 == input
            &&& n2 == name
            &&& m2@ == "Making NewRoom request to server failed:\n"@ + e@ + "\nPlease retry:"@
            &&& a == ClientAction::Nothing
        },
    }
}

/// The answer to joining a room: on success the client waits for the room
/// to fill, with four free places until the room reports, and the exit menu
/// points at its first button; on failure the reason is shown.
pub open spec fn join_room_answered(m: ClientModel, res: Result<(), String>, r: ClientModel) -> bool {
    m.state matches ClientState::JoinRoom { input, msg, name } && match res {
        Ok(_) => {
            &&& r.exitmenu == (m.exitmenu.0, 0u32)
            &&& r.state matches ClientState::WaitPlayer { players: p2, msg: m2, roomid: r2 }
            &&& p2@.len() == 4
            &&& forall|j: int| 0 <= j < 4 ==> (#[trigger] p2@[j]).0@.len() == 0 && p2@[j].1 == 4 && !p2@[j].2
            &&& lines(m2) == seq!["Waiting for other players to join room......"@]
            &&& r2 == input
        },
        Err(e) => {
            &&& r.exitmenu == m.exitmenu
            &&& r.state matches ClientState::JoinRoom { input: i2, msg: m2, name: n2 }
            &&& i2 == input
            &&& n2 == name
            &&& m2@ == "Making JoinRoom request to server failed:\n"@ + e@ + "\nPlease retry:"@
        },
    }
}

/// The answer to a play that Enter sent: when the server took it, the card
/// leaves the hand (a held card joins the held cards, which stay sorted),
/// nothing is chosen and no message is shown; when the server refused it,
/// its reason is shown and nothing else changes.
pub open spec fn play_answered(m: ClientModel, res: Result<(), String>, r: ClientModel) -> bool {
    &&& r.exitmenu == m.exitmenu
    &&& m.state matches ClientState::Gaming {
        players, next, last, cards, holds, desk, choose, button, has_last, play_cnt, msg, roomid
    }
    &&& r.state matches ClientState::Gaming {
        players: players2, next: next2, last: last2, cards: cards2, holds: holds2, desk: desk2,
        choose: choose2, button: button2, has_last: has_last2, play_cnt: play_cnt2, msg: msg2, roomid: roomid2
    }
    &&& players2 == players && next2 == next && last2 == last && desk2 == desk && button2 == button
    &&& has_last2 == has_last && play_cnt2 == play_cnt && roomid2 == roomid
    &&& match res {
        Ok(_) => {
            &&& cards2@ == cards@.remove(choose - 1)
            &&& choose2 == 0
            &&& msg2 is None
            &&& button == 1 ==> cards_sorted(holds2@)
                && holds2@.to_multiset() == holds@.push(cards@[choose - 1]).to_multiset()
            &&& button != 1 ==> holds2@ == holds@
        },
        Err(e) => cards2 == cards && holds2 == holds && choose2 == choose && msg2 == Some(e),
    }
}

/// The state of the room asked for after confirming a result or leaving a
/// game from the result: the client waits for the players to get ready,
/// with the places of the room as seen from its own, and the exit menu
/// points at its first button.
pub open spec fn room_status_answered(m: ClientModel, ri: RoomInfo, r: ClientModel) -> bool {
    &&& m.state matches ClientState::GameResult { players, roomid, .. }
    &&& r.exitmenu == (m.exitmenu.0, 0u32)
    &&& r.state matches ClientState::WaitReady { players: p2, msg: m2, roomid: r2 }
    &&& seats_of(players@[0].1 as int, ri, p2@)
    &&& lines(m2) == ready_lines()
    &&& r2 == roomid
}

/// What the player sees of a game that just started: the game screen with
/// the players of the room, the turn at the index of the player at place
/// `next`, the hand in order, nothing held, laid or chosen, and the exit
/// menu at its first button.
pub open spec fn game_started(m: ClientModel, next: u32, gi: GameInfo, r: ClientModel) -> bool {
    &&& m.state matches ClientState::WaitReady { players, roomid, .. }
    &&& r.exitmenu == (m.exitmenu.0, 0u32)
    &&& r.state matches ClientState::Gaming {
        players: players2, next: next2, last: last2, cards: cards2, holds: holds2, desk: desk2,
        choose: choose2, button: button2, has_last: has_last2, play_cnt: play_cnt2, msg: msg2, roomid: roomid2
    }
    &&& gaming_of(players@, players2@)
    &&& next2 == place_of(players2@, next as usize)
    &&& last2 is None
    &&& cards_sorted(cards2@)
    &&& cards2@.to_multiset() == gi.cards@.map_values(|ci: CardInfo| card_of_info(ci)).to_multiset()
    &&& holds2@.len() == 0
    &&& desk2.spec_is_empty()
    &&& choose2 == 0 && button2 == 0 && !has_last2 && play_cnt2 == 0
    &&& msg2 is None
    &&& roomid2 == roomid
}

impl ClientModel {
    /// Takes the answer to the request for a new room.
    pub fn new_room_reply(self, res: Result<(), String>) -> (r: (ClientModel, ClientAction))
        requires
            self.state is NewRoom,
        ensures
            new_room_answered(self, res, r.0, r.1),
    {
        let exitmenu = self.exitmenu;
        match self.state {
            ClientState::NewRoom { input, msg, name } => match res {
                Ok(()) => {
                    let m2 = text3(
                        "Hello, ",
                        name.as_str(),
                        "!\nSuccessfully created a room, ID is shown below.\nPlease press ENTER to join room:",
                    );
                    (
                        ClientModel { state: ClientState::JoinRoom { input, msg: m2, name }, exitmenu: (exitmenu.0, 0) },
                        ClientAction::NewListener,
                    )
                },
                Err(e) => {
                    let m2 = text3("Making NewRoom request to server failed:\n", e.as_str(), "\nPlease retry:");
                    (ClientModel { state: ClientState::NewRoom { input, msg: m2, name }, exitmenu }, ClientAction::Nothing)
                },
            },
            _ => {
                proof {
                    assert(false);
                }
                (self, ClientAction::Nothing)
            },
        }
    }

    /// Takes the answer to joining a room.
    pub fn join_room_reply(self, res: Result<(), String>) -> (r: ClientModel)
        requires
            self.state is JoinRoom,
        ensures
            join_room_answered(self, res, r),
    {
        let exitmenu = self.exitmenu;
        match self.state {
            ClientState::JoinRoom { input, msg, name } => match res {
                Ok(()) => {
                    let mut players: Vec<(String, usize, bool)> = Vec::new();
                    let mut j: usize = 0;
                    while j < 4
                        invariant
                            j <= 4,
                            players@.len() == j,
                            forall|k: int| 0 <= k < j ==> (#[trigger] players@[k]).0@.len() == 0 && players@[k].1 == 4
                                && !players@[k].2,
                        decreases 4 - j,
                    {
                        players.push((String::new(), 4, false));
                        j = j + 1;
                    }
                    let m2 = one_line("Waiting for other players to join room......");
                    ClientModel { state: ClientState::WaitPlayer { players, msg: m2, roomid: input }, exitmenu: (exitmenu.0, 0) }
                },
                Err(e) => {
                    let m2 = text3("Making JoinRoom request to server failed:\n", e.as_str(), "\nPlease retry:");
                    ClientModel { state: ClientState::JoinRoom { input, msg: m2, name }, exitmenu }
                },
            },
            _ => {
                proof {
                    assert(false);
                }
                self
            },
        }
    }

    /// Takes the answer to a play that Enter sent; `Err` carries the reason
    /// of a refusal.
    pub fn play_reply(self, res: Result<(), String>) -> (r: ClientModel)
        requires
            self.state matches ClientState::Gaming { cards, choose, .. } && 1 <= choose <= cards@.len(),
        ensures
            play_answered(self, res, r),
    {
        let exitmenu = self.exitmenu;
        match self.state {
            ClientState::Gaming {
                players,
                next,
                last,
                cards,
                holds,
                desk,
                choose,
                button,
                has_last,
                play_cnt,
                msg,
                roomid,
            } => match res {
                Ok(()) => {
                    let mut cards = cards;
                    let mut holds = holds;
                    let mut choose = choose;
                    take_played(&mut cards, &mut holds, &mut choose, button);
                    ClientModel {
                        state: ClientState::Gaming {
                            players,
                            next,
                            last,
                            cards,
                            holds,
                            desk,
                            choose,
                            button,
                            has_last,
                            play_cnt,
                            msg: None,
                            roomid,
                        },
                        exitmenu,
                    }
                },
                Err(e) => ClientModel {
                    state: ClientState::Gaming {
                        players,
                        next,
                        last,
                        cards,
                        holds,
                        desk,
                        choose,
                        button,
                        has_last,
                        play_cnt,
                        msg: Some(e),
                        roomid,
                    },
                    exitmenu,
                },
            },
            _ => {
                proof {
                    assert(false);
                }
                self
            },
        }
    }

    /// Takes the state of the room asked for after a result; the own place
    /// is not ready in it.
    pub fn room_status_reply(self, ri: &RoomInfo) -> (r: ClientModel)
        requires
            self.state matches ClientState::GameResult { players, .. } && players@.len() > 0
                && room_readable(players@[0].1 as int, *ri)
                && !seat_ready(*ri, (players@[0].1 as int) % 4),
        ensures
            room_status_answered(self, *ri, r),
    {
        let exitmenu = self.exitmenu;
        match self.state {
            ClientState::GameResult { ds, players, roomid } => {
                let ps = room_info_to_players(players[0].1, ri);
                let m2 = one_line("Please press ENTER to get ready!");
                ClientModel { state: ClientState::WaitReady { players: ps, msg: m2, roomid }, exitmenu: (exitmenu.0, 0) }
            },
            _ => {
                proof {
                    assert(false);
                }
                self
            },
        }
    }

    /// Takes what the player sees of a game that just started with the turn
    /// at place `next`; a player sits at that place.
    pub fn game_status_reply(self, next: u32, gi: &GameInfo) -> (r: ClientModel)
        requires
            self.state matches ClientState::WaitReady { players, .. }
                && exists|j: int| 0 <= j < players@.len() && (#[trigger] players@[j]).1 == next as usize,
        ensures
            game_started(self, next, *gi, r),
    {
        let exitmenu = self.exitmenu;
        match self.state {
            ClientState::WaitReady { players, msg, roomid } => {
                let gp = gaming_players(&players);
                proof {
                    let j = choose|j: int| 0 <= j < players@.len() && (#[trigger] players@[j]).1 == next as usize;
                    assert(gp@[j].1 == next as usize);
                }
                let n = find_place(&gp, next as usize);
                let mut cards = cards_from_infos(&gi.cards);
                sort_cards(&mut cards);
                ClientModel {
                    state: ClientState::Gaming {
                        players: gp,
                        next: n,
                        last: None,
                        cards,
                        holds: Vec::new(),
                        desk: Desk::default(),
                        choose: 0,
                        button: 0,
                        has_last: false,
                        play_cnt: 0,
                        msg: None,
                        roomid,
                    },
                    exitmenu: (exitmenu.0, 0),
                }
            },
            _ => {
                proof {
                    assert(false);
                }
                self
            },
        }
    }
}

/// The room id that a screen in a room keeps.
pub open spec fn roomid_of(s: ClientState) -> Seq<char> {
    match s {
        ClientState::WaitPlayer { roomid, .. } => roomid@,
        ClientState::WaitReady { roomid, .. } => roomid@,
        ClientState::Gaming { roomid, .. } => roomid@,
        ClientState::GameResult { roomid, .. } => roomid@,
        _ => Seq::empty(),
    }
}

/// `r` waits for the room to fill again, with the places of the reported
/// room `ri` as seen from place `myidx`, the lines `ls`, the same room, and
/// the exit menu at its first button.
pub open spec fn back_to_wait(m: ClientModel, myidx: int, ri: RoomInfo, ls: Seq<Seq<char>>, r: ClientModel) -> bool {
    &&& r.exitmenu == (m.exitmenu.0, 0u32)
    &&& r.state matches ClientState::WaitPlayer { players: p2, msg: m2, roomid: r2 }
    &&& seats_of(myidx, ri, p2@)
    &&& lines(m2) == ls
    &&& r2@ == roomid_of(m.state)
}

/// A message of the game stream can come on the screen of `m` and can be
/// read: the messages that each screen expects, rooms that can be seen from
/// the own place, players that sit in the room, plays that can be followed
/// and results that agree with the game.
pub open spec fn stream_ok(m: ClientModel, gm: GameMsg) -> bool {
    let id = gm.your_id as int;
    match m.state {
        ClientState::WaitPlayer { .. } => match gm.msg {
            Some(Msg::RoomInfo(ri)) => room_readable(id, ri),
            Some(Msg::ExitRoom(ri)) => room_readable(id, ri),
            _ => false,
        },
        ClientState::WaitReady { players, .. } => match gm.msg {
            Some(Msg::RoomInfo(ri)) => room_readable(id, ri),
            Some(Msg::WhoReady(who)) => exists|j: int|
                0 <= j < players@.len() && (#[trigger] players@[j]).1 == who as usize,
            Some(Msg::Start(_)) => players@.len() > 0,
            Some(Msg::ExitRoom(ri)) => room_readable(id, ri),
            Some(Msg::ExitGame(_)) => true,
            Some(Msg::LoseConnection(ri)) => room_readable(id, ri),
            _ => false,
        },
        ClientState::Gaming { players, next, desk, play_cnt, holds, .. } => match gm.msg {
            Some(Msg::Play(pi)) => play_followable(players@, next, desk, play_cnt, pi.player, pi.play),
            Some(Msg::Endgame(res)) => res.desk matches Some(ds) && desk_result_readable(ds, players@)
                && hold_result_readable(res.hold@, players@, holds@),
            Some(Msg::ExitGame(who)) => exists|j: int|
                0 <= j < players@.len() && (#[trigger] players@[j]).1 == who as usize,
            Some(Msg::ExitRoom(ri)) => room_readable(id, ri),
            Some(Msg::LoseConnection(ri)) => room_readable(id, ri),
            _ => false,
        },
        ClientState::GameResult { .. } => match gm.msg {
            Some(Msg::ExitGame(_)) => true,
            Some(Msg::WhoReady(_)) => true,
            Some(Msg::ExitRoom(ri)) => room_readable(id, ri),
            Some(Msg::LoseConnection(ri)) => room_readable(id, ri),
            _ => false,
        },
        _ => false,
    }
}

/// What a message of the game stream does. The places of a reported room
/// are seen from the place the message is for. While waiting for players, a
/// room report is taken in, and a room that waits for readiness leads on.
/// While waiting for readiness, a report is taken in, a ready player is
/// marked, the start asks for the hand, and someone leaving the room or
/// losing the connection leads back to waiting for players. While playing,
/// a play is followed, the end leads to the result, someone leaving the game
/// leads back to waiting for readiness with nobody ready, and someone
/// leaving the room or losing the connection leads back to waiting for
/// players. On the result, a left game is not drawn again. Only the start
/// asks for an action.
pub open spec fn stream_goes(m: ClientModel, gm: GameMsg, r: ClientModel, a: ClientAction, redraw: bool) -> bool {
    let id = gm.your_id as int;
    match m.state {
        ClientState::WaitPlayer { players, msg, roomid } => {
            &&& a == ClientAction::Nothing
            &&& redraw
            &&& match gm.msg {
                Some(Msg::RoomInfo(ri)) => if ri.state matches Some(State::WaitReady(_)) {
                    &&& r.exitmenu == (m.exitmenu.0, 0u32)
                    &&& r.state matches ClientState::WaitReady { players: p2, msg: m2, roomid: r2 }
                    &&& seats_of(id, ri, p2@)
                    &&& lines(m2) == ready_lines()
                    &&& r2 == roomid
                } else {
                    &&& r.exitmenu == m.exitmenu
                    &&& r.state matches ClientState::WaitPlayer { players: p2, msg: m2, roomid: r2 }
                    &&& seats_of(id, ri, p2@)
                    &&& m2 == msg
                    &&& r2 == roomid
                },
                Some(Msg::ExitRoom(ri)) => {
                    &&& r.exitmenu == m.exitmenu
                    &&& r.state matches ClientState::WaitPlayer { players: p2, msg: m2, roomid: r2 }
                    &&& seats_of(id, ri, p2@)
                    &&& m2 == msg
                    &&& r2 == roomid
                },
                _ => true,
            }
        },
        ClientState::WaitReady { players, msg, roomid } => match gm.msg {
            Some(Msg::RoomInfo(ri)) => {
                &&& a == ClientAction::Nothing && redraw
                &&& r.exitmenu == m.exitmenu
                &&& r.state matches ClientState::WaitReady { players: p2, msg: m2, roomid: r2 }
                &&& seats_of(id, ri, p2@)
                &&& m2 == msg
                &&& r2 == roomid
            },
            Some(Msg::WhoReady(who)) => {
                &&& a == ClientAction::Nothing && redraw
                &&& r.exitmenu == m.exitmenu
                &&& r.state matches ClientState::WaitReady { players: p2, msg: m2, roomid: r2 }
                &&& got_ready(players@, who as usize, p2@)
                &&& m2 == msg
                &&& r2 == roomid
            },
            Some(Msg::Start(next)) => r == m && a == ClientAction::QueryGameStatus(players@[0].1 as u32, roomid, next)
                && redraw,
            Some(Msg::ExitRoom(ri)) => a == ClientAction::Nothing && redraw && back_to_wait(m, id, ri, exit_room_lines(), r),
            Some(Msg::LoseConnection(ri)) => a == ClientAction::Nothing && redraw && back_to_wait(m, id, ri, lost_lines(), r),
            _ => r == m && a == ClientAction::Nothing && redraw,
        },
        ClientState::Gaming { players, next, last, cards, holds, desk, choose, button, has_last, play_cnt, msg, roomid } => {
            &&& a == ClientAction::Nothing
            &&& redraw
            &&& match gm.msg {
                Some(Msg::Play(pi)) => {
                    &&& r.exitmenu == m.exitmenu
                    &&& r.state matches ClientState::Gaming {
                        players: players2, next: next2, last: last2, cards: cards2, holds: holds2, desk: desk2,
                        choose: choose2, button: button2, has_last: has_last2, play_cnt: play_cnt2, msg: msg2, roomid: roomid2
                    }
                    &&& play_followed(players@, next, desk, play_cnt, pi.play, players2@, next2, last2, has_last2, desk2, play_cnt2)
                    &&& cards2 == cards && holds2 == holds && choose2 == choose && button2 == button && msg2 == msg
                    &&& roomid2 == roomid
                },
                Some(Msg::Endgame(res)) => {
                    &&& r.exitmenu == (m.exitmenu.0, 0u32)
                    &&& r.state matches ClientState::GameResult { ds: ds2, players: p2, roomid: r2 }
                    &&& desk_result_of(res.desk->Some_0, players@, ds2@)
                    &&& hold_result_of(res.hold@, players@, p2@)
                    &&& r2 == roomid
                },
                Some(Msg::ExitGame(who)) => {
                    &&& r.exitmenu == (m.exitmenu.0, 0u32)
                    &&& r.state matches ClientState::WaitReady { players: p2, msg: m2, roomid: r2 }
                    &&& waiting_of(players@, p2@)
                    &&& lines(m2) == seq![
                        "Player "@ + players@[place_of(players@, who as usize)].0@ + " exits game."@,
                        "Please press ENTER to get ready!"@,
                    ]
                    &&& r2 == roomid
                },
                Some(Msg::ExitRoom(ri)) => back_to_wait(m, id, ri, exit_room_lines(), r),
                Some(Msg::LoseConnection(ri)) => back_to_wait(m, id, ri, lost_lines(), r),
                _ => true,
            }
        },
        ClientState::GameResult { .. } => {
            &&& a == ClientAction::Nothing
            &&& match gm.msg {
                Some(Msg::ExitGame(_)) => r == m && !redraw,
                Some(Msg::ExitRoom(ri)) => redraw && back_to_wait(m, id, ri, exit_room_lines(), r),
                Some(Msg::LoseConnection(ri)) => redraw && back_to_wait(m, id, ri, lost_lines(), r),
                _ => r == m && redraw,
            }
        },
        _ => true,
    }
}

/// A line and then a fixed line.
fn text_then_line(a: String, b: &str) -> (v: Vec<String>)
    ensures
        lines(v) == seq![a@, b@],
{
    let v = vec![a, b.to_owned()];
    proof {
        assert(lines(v) =~= seq![v@[0]@, b@]);
    }
    v
}

impl ClientModel {
    /// Handles a message of the game stream.
    pub fn handle_stream_msg(self, gm: GameMsg) -> (r: (ClientModel, ClientAction, bool))
        requires
            stream_ok(self, gm),
        ensures
            stream_goes(self, gm, r.0, r.1, r.2),
    {
        let exitmenu = self.exitmenu;
        let id = gm.your_id as usize;
        match self.state {
            ClientState::WaitPlayer { players, msg, roomid } => match gm.msg {
                Some(Msg::RoomInfo(ri)) => {
                    let ps = room_info_to_players(id, &ri);
                    if let Some(State::WaitReady(_)) = ri.state {
                        let m2 = one_line("Please press ENTER to get ready!");
                        (
                            ClientModel { state: ClientState::WaitReady { players: ps, msg: m2, roomid }, exitmenu: (exitmenu.0, 0) },
                            ClientAction::Nothing,
                            true,
                        )
                    } else {
                        (
                            ClientModel { state: ClientState::WaitPlayer { players: ps, msg, roomid }, exitmenu },
                            ClientAction::Nothing,
                            true,
                        )
                    }
                },
                Some(Msg::ExitRoom(ri)) => {
                    let ps = room_info_to_players(id, &ri);
                    (
                        ClientModel { state: ClientState::WaitPlayer { players: ps, msg, roomid }, exitmenu },
                        ClientAction::Nothing,
                        true,
                    )
                },
                _ => {
                    proof {
                        assert(false);
                    }
                    (
                        ClientModel { state: ClientState::WaitPlayer { players, msg, roomid }, exitmenu },
                        ClientAction::Nothing,
                        true,
                    )
                },
            },
            ClientState::WaitReady { players, msg, roomid } => match gm.msg {
                Some(Msg::RoomInfo(ri)) => {
                    let ps = room_info_to_players(id, &ri);
                    (
                        ClientModel { state: ClientState::WaitReady { players: ps, msg, roomid }, exitmenu },
                        ClientAction::Nothing,
                        true,
                    )
                },
                Some(Msg::WhoReady(who)) => {
                    let mut players = players;
                    someone_get_ready(&mut players, who as usize);
                    (
                        ClientModel { state: ClientState::WaitReady { players, msg, roomid }, exitmenu },
                        ClientAction::Nothing,
                        true,
                    )
                },
                Some(Msg::Start(next)) => {
                    let a = ClientAction::QueryGameStatus(players[0].1 as u32, roomid.clone(), next);
                    (ClientModel { state: ClientState::WaitReady { players, msg, roomid }, exitmenu }, a, true)
                },
                Some(Msg::ExitRoom(ri)) => {
                    let ps = room_info_to_players(id, &ri);
                    let m2 = two_lines("Someone exits room.", "Waiting for other players to join room......");
                    (
                        ClientModel { state: ClientState::WaitPlayer { players: ps, msg: m2, roomid }, exitmenu: (exitmenu.0, 0) },
                        ClientAction::Nothing,
                        true,
                    )
                },
                Some(Msg::LoseConnection(ri)) => {
                    let ps = room_info_to_players(id, &ri);
                    let m2 = two_lines("Someone lost connection...", "Waiting for other players to join room......");
                    (
                        ClientModel { state: ClientState::WaitPlayer { players: ps, msg: m2, roomid }, exitmenu: (exitmenu.0, 0) },
                        ClientAction::Nothing,
                        true,
                    )
                },
                _ => (
                    ClientModel { state: ClientState::WaitReady { players, msg, roomid }, exitmenu },
                    ClientAction::Nothing,
                    true,
                ),
            },
            ClientState::Gaming {
                players,
                next,
                last,
                cards,
                holds,
                desk,
                choose,
                button,
                has_last,
                play_cnt,
                msg,
                roomid,
            } => match gm.msg {
                Some(Msg::Play(pi)) => {
                    let mut players = players;
                    let mut next = next;
                    let mut last = last;
                    let mut has_last = has_last;
                    let mut desk = desk;
                    let mut play_cnt = play_cnt;
                    apply_play(&mut players, &mut next, &mut last, &mut has_last, &mut desk, &mut play_cnt, pi.player, pi.play);
                    (
                        ClientModel {
                            state: ClientState::Gaming {
                                players,
                                next,
                                last,
                                cards,
                                holds,
                                desk,
                                choose,
                                button,
                                has_last,
                                play_cnt,
                                msg,
                                roomid,
                            },
                            exitmenu,
                        },
                        ClientAction::Nothing,
                        true,
                    )
                },
                Some(Msg::Endgame(res)) => {
                    let ds = match &res.desk {
                        Some(d) => parse_desk_result(d, &players),
                        None => {
                            proof {
                                assert(false);
                            }
                            Vec::new()
                        },
                    };
                    let ps = parse_hold_result(&res.hold, &players, &holds);
                    (
                        ClientModel { state: ClientState::GameResult { ds, players: ps, roomid }, exitmenu: (exitmenu.0, 0) },
                        ClientAction::Nothing,
                        true,
                    )
                },
                Some(Msg::ExitGame(who)) => {
                    proof {
                        let j = choose|j: int| 0 <= j < players@.len() && (#[trigger] players@[j]).1 == who as usize;
                    }
                    let k = find_place(&players, who as usize);
                    let line = text3("Player ", players[k].0.as_str(), " exits game.");
                    let m2 = text_then_line(line, "Please press ENTER to get ready!");
                    let ps = waiting_players(&players);
                    (
                        ClientModel { state: ClientState::WaitReady { players: ps, msg: m2, roomid }, exitmenu: (exitmenu.0, 0) },
                        ClientAction::Nothing,
                        true,
                    )
                },
                Some(Msg::ExitRoom(ri)) => {
                    let ps = room_info_to_players(id, &ri);
                    let m2 = two_lines("Someone exits room.", "Waiting for other players to join room......");
                    (
                        ClientModel { state: ClientState::WaitPlayer { players: ps, msg: m2, roomid }, exitmenu: (exitmenu.0, 0) },
                        ClientAction::Nothing,
                        true,
                    )
                },
                Some(Msg::LoseConnection(ri)) => {
                    let ps = room_info_to_players(id, &ri);
                    let m2 = two_lines("Someone lost connection...", "Waiting for other players to join room......");
                    (
                        ClientModel { state: ClientState::WaitPlayer { players: ps, msg: m2, roomid }, exitmenu: (exitmenu.0, 0) },
                        ClientAction::Nothing,
                        true,
                    )
                },
                _ => {
                    proof {
                        assert(false);
                    }
                    (
                        ClientModel {
                            state: ClientState::Gaming {
                                players,
                                next,
                                last,
                                cards,
                                holds,
                                desk,
                                choose,
                                button,
                                has_last,
                                play_cnt,
                                msg,
                                roomid,
                            },
                            exitmenu,
                        },
                        ClientAction::Nothing,
                        true,
                    )
                },
            },
            ClientState::GameResult { ds, players, roomid } => match gm.msg {
                Some(Msg::ExitGame(_)) => (
                    ClientModel { state: ClientState::GameResult { ds, players, roomid }, exitmenu },
                    ClientAction::Nothing,
                    false,
                ),
                Some(Msg::ExitRoom(ri)) => {
                    let ps = room_info_to_players(id, &ri);
                    let m2 = two_lines("Someone exits room.", "Waiting for other players to join room......");
                    (
                        ClientModel { state: ClientState::WaitPlayer { players: ps, msg: m2, roomid }, exitmenu: (exitmenu.0, 0) },
                        ClientAction::Nothing,
                        true,
                    )
                },
                Some(Msg::LoseConnection(ri)) => {
                    let ps = room_info_to_players(id, &ri);
                    let m2 = two_lines("Someone lost connection...", "Waiting for other players to join room......");
                    (
                        ClientModel { state: ClientState::WaitPlayer { players: ps, msg: m2, roomid }, exitmenu: (exitmenu.0, 0) },
                        ClientAction::Nothing,
                        true,
                    )
                },
                _ => (
                    ClientModel { state: ClientState::GameResult { ds, players, roomid }, exitmenu },
                    ClientAction::Nothing,
                    true,
                ),
            },
            _ => {
                proof {
                    assert(false);
                }
                (self, ClientAction::Nothing, false)
            },
        }
    }
}

/// The exit menu's button can be pressed: it is one of the buttons of the
/// screen, and a screen in a room has the own place.
pub open spec fn exit_ok(m: ClientModel) -> bool {
    &&& m.exitmenu.1 < spec_exit_buttons(screen_of(m.state))
    &&& match m.state {
        ClientState::WaitPlayer { players, .. } => players@.len() > 0,
        ClientState::WaitReady { players, .. } => players@.len() > 0,
        ClientState::Gaming { players, .. } => players@.len() > 0,
        ClientState::GameResult { players, .. } => players@.len() > 0,
        _ => true,
    }
}

/// `r` asks for the name again after the room was left by the player of
/// name `name`, with the exit menu at its first button.
pub open spec fn asks_name_again(r: ClientModel, name: String) -> bool {
    &&& r.exitmenu.1 == 0
    &&& r.state matches ClientState::AskName { input: i2, msg: m2, button: b2, is_input: t2 }
    &&& i2 == name
    &&& m2@ == "Exited room successfully.\nPlease enter your nickname:"@
    &&& b2 == 0
    &&& t2
}

/// What pressing Enter on the exit menu does; the menu closes in any case.
/// The first button keeps everything as it is (but stops the listener while
/// joining a room); the last button quits, leaving the room first when in
/// one. In a room the second button leaves the room and asks for the name
/// again, and while playing it leaves the game and waits for the players to
/// get ready, with nobody ready; on the result it leaves the game and asks
/// for the state of the room. While playing or on the result the third
/// button leaves the room and asks for the name again.
pub open spec fn exit_goes(m: ClientModel, r: ClientModel, a: ClientAction) -> bool {
    let b = m.exitmenu.1;
    let same = r.state == m.state && r.exitmenu.1 == b;
    &&& !r.exitmenu.0
    &&& match m.state {
        ClientState::GetServer { .. } => same && a == (if b == 0 { ClientAction::Nothing } else { ClientAction::Quit }),
        ClientState::AskName { .. } => same && a == (if b == 0 { ClientAction::Nothing } else { ClientAction::Quit }),
        ClientState::NewRoom { .. } => same && a == (if b == 0 { ClientAction::Nothing } else { ClientAction::Quit }),
        ClientState::JoinRoom { .. } => same && a == (if b == 0 {
            ClientAction::StopListener
        } else {
            ClientAction::StopListenerAndQuit
        }),
        ClientState::WaitPlayer { players, roomid, .. } => if b == 0 {
            same && a == ClientAction::Nothing
        } else if b == 1 {
            asks_name_again(r, players@[0].0) && a == ClientAction::LeaveRoom(players@[0].1 as u32, roomid)
        } else {
            same && a == ClientAction::LeaveRoomAndQuit(players@[0].1 as u32, roomid)
        },
        ClientState::WaitReady { players, roomid, .. } => if b == 0 {
            same && a == ClientAction::Nothing
        } else if b == 1 {
            asks_name_again(r, players@[0].0) && a == ClientAction::LeaveRoom(players@[0].1 as u32, roomid)
        } else {
            same && a == ClientAction::LeaveRoomAndQuit(players@[0].1 as u32, roomid)
        },
        ClientState::Gaming { players, roomid, .. } => if b == 0 {
            same && a == ClientAction::Nothing
        } else if b == 1 {
            &&& r.exitmenu.1 == 0
            &&& r.state matches ClientState::WaitReady { players: p2, msg: m2, roomid: r2 }
            &&& waiting_of(players@, p2@)
            &&& lines(m2) == ready_lines()
            &&& r2 == roomid
            &&& a == ClientAction::ExitGame(players@[0].1 as u32, roomid)
        } else if b == 2 {
            asks_name_again(r, players@[0].0) && a == ClientAction::LeaveRoom(players@[0].1 as u32, roomid)
        } else {
            same && a == ClientAction::LeaveRoomAndQuit(players@[0].1 as u32, roomid)
        },
        ClientState::GameResult { players, roomid, .. } => if b == 0 {
            same && a == ClientAction::Nothing
        } else if b == 1 {
            same && a == ClientAction::ExitGameThenRoomStatus(players@[0].1 as u32, roomid)
        } else if b == 2 {
            asks_name_again(r, players@[0].0) && a == ClientAction::LeaveRoom(players@[0].1 as u32, roomid)
        } else {
            same && a == ClientAction::LeaveRoomAndQuit(players@[0].1 as u32, roomid)
        },
    }
}

fn asking_name_again(name: String, exitmenu: (bool, u32)) -> (r: ClientModel)
    ensures
        asks_name_again(r, name),
        r.exitmenu.0 == exitmenu.0,
{
    ClientModel {
        state: ClientState::AskName {
            input: name,
            msg: "Exited room successfully.\nPlease enter your nickname:".to_owned(),
            button: 0,
            is_input: true,
        },
        exitmenu: (exitmenu.0, 0),
    }
}

/// The arrows left and right can be handled: the buttons can toggle, and a
/// chosen card can move among the cards of the hand.
pub open spec fn lr_ok(m: ClientModel) -> bool {
    match m.state {
        ClientState::AskName { button, is_input, .. } => !is_input ==> button < u32::MAX,
        ClientState::Gaming { cards, choose, .. } => cards@.len() != 0 ==> cards@.len() < usize::MAX && (choose
            > cards@.len() ==> choose + cards@.len() <= usize::MAX),
        _ => true,
    }
}

/// What the arrows left and right do: move the cursor of a text field,
/// toggle the buttons of the name screen, or move the chosen card among the
/// cards of the hand (choices 0, for none, to the number of cards, wrapping
/// around). Elsewhere nothing happens and nothing is drawn again.
pub open spec fn lr_goes(m: ClientModel, is_left: bool, r: ClientModel, a: ClientAction, redraw: bool) -> bool {
    let key = if is_left { KeyCode::Left } else { KeyCode::Right };
    &&& r.exitmenu == m.exitmenu
    &&& match m.state {
        ClientState::GetServer { connecting, .. } => if !connecting {
            r == m && a == ClientAction::EditInput(key) && redraw
        } else {
            r == m && a == ClientAction::Nothing && !redraw
        },
        ClientState::AskName { input, msg, button, is_input } => if is_input {
            r == m && a == ClientAction::EditInput(key) && redraw
        } else {
            &&& r.state matches ClientState::AskName { input: i2, msg: m2, button: b2, is_input: t2 }
            &&& i2 == input && m2 == msg && b2 == (button + 1) % 2 && t2 == is_input
            &&& a == ClientAction::Nothing
            &&& redraw
        },
        ClientState::NewRoom { .. } => r == m && a == ClientAction::EditInput(key) && redraw,
        ClientState::JoinRoom { .. } => r == m && a == ClientAction::EditInput(key) && redraw,
        ClientState::Gaming { players, next, last, cards, holds, desk, choose, button, has_last, play_cnt, msg, roomid } => if cards@.len()
            != 0 {
            &&& r.state == ClientState::Gaming {
                players,
                next,
                last,
                cards,
                holds,
                desk,
                choose: ((choose + if is_left { cards@.len() as int } else { 1int }) % (cards@.len() + 1) as int) as usize,
                button,
                has_last,
                play_cnt,
                msg,
                roomid,
            }
            &&& a == ClientAction::Nothing
            &&& redraw
        } else {
            r == m && a == ClientAction::Nothing && !redraw
        },
        _ => r == m && a == ClientAction::Nothing && !redraw,
    }
}

/// The arrows up and down can be handled: the game buttons can toggle.
pub open spec fn ud_ok(m: ClientModel) -> bool {
    m.state matches ClientState::Gaming { button, next, .. } ==> (next == 0 ==> button < u32::MAX)
}

/// What the arrows up and down do: on the name screen switch between the
/// text field and the buttons; while playing, on the own turn, toggle
/// between discarding and holding. Elsewhere nothing happens and nothing is
/// drawn again.
pub open spec fn ud_goes(m: ClientModel, r: ClientModel, redraw: bool) -> bool {
    &&& r.exitmenu == m.exitmenu
    &&& match m.state {
        ClientState::AskName { input, msg, button, is_input } => r.state == ClientState::AskName {
            input,
            msg,
            button,
            is_input: !is_input,
        } && redraw,
        ClientState::Gaming { players, next, last, cards, holds, desk, choose, button, has_last, play_cnt, msg, roomid } => if next
            == 0 {
            r.state == ClientState::Gaming {
                players,
                next,
                last,
                cards,
                holds,
                desk,
                choose,
                button: ((button + 1) % 2) as u32,
                has_last,
                play_cnt,
                msg,
                roomid,
            } && redraw
        } else {
            r == m && !redraw
        },
        _ => r == m && !redraw,
    }
}

/// Whether a text field takes keys on this state.
pub open spec fn edits_text(s: ClientState) -> bool {
    match s {
        ClientState::GetServer { connecting, .. } => !connecting,
        ClientState::AskName { is_input, .. } => is_input,
        ClientState::NewRoom { .. } => true,
        ClientState::JoinRoom { .. } => true,
        _ => false,
    }
}

/// The result of connecting to the server: while connecting, a connection
/// leads to asking the name, with the exit menu at its first button, and a
/// failure shows the reason with the default address typed again. Otherwise
/// the result is dropped and nothing is drawn again.
pub open spec fn connect_goes(m: ClientModel, res: Result<(), String>, default_addr: String, r: ClientModel, redraw: bool) -> bool {
    if m.state matches ClientState::GetServer { connecting, .. } && connecting {
        &&& redraw
        &&& match res {
            Ok(_) => {
                &&& r.exitmenu == (m.exitmenu.0, 0u32)
                &&& r.state matches ClientState::AskName { input: i2, msg: m2, button: b2, is_input: t2 }
                &&& i2@.len() == 0
                &&& m2@ == "Game server connected.\nPlease enter your nickname:"@
                &&& b2 == 0
                &&& t2
            },
            Err(e) => {
                &&& r.exitmenu == m.exitmenu
                &&& r.state matches ClientState::GetServer { input: i2, msg: m2, connecting: c2 }
                &&& i2 == default_addr
                &&& m2@ == "Connecting to server failed:\n"@ + e@ + "\nPlease retry:"@
                &&& !c2
            },
        }
    } else {
        r == m && !redraw
    }
}

impl ClientModel {
    /// Handles Enter on the exit menu.
    pub fn handle_exitmenu_enter(self) -> (r: (ClientModel, ClientAction))
        requires
            exit_ok(self),
        ensures
            exit_goes(self, r.0, r.1),
    {
        let b = self.exitmenu.1;
        let closed = (false, b);
        match self.state {
            ClientState::GetServer { input, msg, connecting } => (
                ClientModel { state: ClientState::GetServer { input, msg, connecting }, exitmenu: closed },
                if b == 0 { ClientAction::Nothing } else { ClientAction::Quit },
            ),
            ClientState::AskName { input, msg, button, is_input } => (
                ClientModel { state: ClientState::AskName { input, msg, button, is_input }, exitmenu: closed },
                if b == 0 { ClientAction::Nothing } else { ClientAction::Quit },
            ),
            ClientState::NewRoom { input, msg, name } => (
                ClientModel { state: ClientState::NewRoom { input, msg, name }, exitmenu: closed },
                if b == 0 { ClientAction::Nothing } else { ClientAction::Quit },
            ),
            ClientState::JoinRoom { input, msg, name } => (
                ClientModel { state: ClientState::JoinRoom { input, msg, name }, exitmenu: closed },
                if b == 0 { ClientAction::StopListener } else { ClientAction::StopListenerAndQuit },
            ),
            ClientState::WaitPlayer { players, msg, roomid } => {
                if b == 0 {
                    (ClientModel { state: ClientState::WaitPlayer { players, msg, roomid }, exitmenu: closed }, ClientAction::Nothing)
                } else if b == 1 {
                    let a = ClientAction::LeaveRoom(players[0].1 as u32, roomid);
                    (asking_name_again(players[0].0.clone(), closed), a)
                } else {
                    let a = ClientAction::LeaveRoomAndQuit(players[0].1 as u32, roomid.clone());
                    (ClientModel { state: ClientState::WaitPlayer { players, msg, roomid }, exitmenu: closed }, a)
                }
            },
            ClientState::WaitReady { players, msg, roomid } => {
                if b == 0 {
                    (ClientModel { state: ClientState::WaitReady { players, msg, roomid }, exitmenu: closed }, ClientAction::Nothing)
                } else if b == 1 {
                    let a = ClientAction::LeaveRoom(players[0].1 as u32, roomid);
                    (asking_name_again(players[0].0.clone(), closed), a)
                } else {
                    let a = ClientAction::LeaveRoomAndQuit(players[0].1 as u32, roomid.clone());
                    (ClientModel { state: ClientState::WaitReady { players, msg, roomid }, exitmenu: closed }, a)
                }
            },
            ClientState::Gaming {
                players,
                next,
                last,
                cards,
                holds,
                desk,
                choose,
                button,
                has_last,
                play_cnt,
                msg,
                roomid,
            } => {
                if b == 0 {
                    (
                        ClientModel {
                            state: ClientState::Gaming {
                                players,
                                next,
                                last,
                                cards,
                                holds,
                                desk,
                                choose,
                                button,
                                has_last,
                                play_cnt,
                                msg,
                                roomid,
                            },
                            exitmenu: closed,
                        },
                        ClientAction::Nothing,
                    )
                } else if b == 1 {
                    let a = ClientAction::ExitGame(players[0].1 as u32, roomid.clone());
                    let ps = waiting_players(&players);
                    let m2 = one_line("Please press ENTER to get ready!");
                    (ClientModel { state: ClientState::WaitReady { players: ps, msg: m2, roomid }, exitmenu: (false, 0) }, a)
                } else if b == 2 {
                    let a = ClientAction::LeaveRoom(players[0].1 as u32, roomid);
                    (asking_name_again(players[0].0.clone(), closed), a)
                } else {
                    let a = ClientAction::LeaveRoomAndQuit(players[0].1 as u32, roomid.clone());
                    (
                        ClientModel {
                            state: ClientState::Gaming {
                                players,
                                next,
                                last,
                                cards,
                                holds,
                                desk,
                                choose,
                                button,
                                has_last,
                                play_cnt,
                                msg,
                                roomid,
                            },
                            exitmenu: closed,
                        },
                        a,
                    )
                }
            },
            ClientState::GameResult { ds, players, roomid } => {
                if b == 0 {
                    (ClientModel { state: ClientState::GameResult { ds, players, roomid }, exitmenu: closed }, ClientAction::Nothing)
                } else if b == 1 {
                    let a = ClientAction::ExitGameThenRoomStatus(players[0].1 as u32, roomid.clone());
                    (ClientModel { state: ClientState::GameResult { ds, players, roomid }, exitmenu: closed }, a)
                } else if b == 2 {
                    let a = ClientAction::LeaveRoom(players[0].1 as u32, roomid);
                    (asking_name_again(players[0].0.clone(), closed), a)
                } else {
                    let a = ClientAction::LeaveRoomAndQuit(players[0].1 as u32, roomid.clone());
                    (ClientModel { state: ClientState::GameResult { ds, players, roomid }, exitmenu: closed }, a)
                }
            },
        }
    }

    /// Handles the arrows left (`is_left`) and right.
    pub fn handle_lr_arrow(self, is_left: bool) -> (r: (ClientModel, ClientAction, bool))
        requires
            lr_ok(self),
        ensures
            lr_goes(self, is_left, r.0, r.1, r.2),
    {
        let exitmenu = self.exitmenu;
        let key = if is_left { KeyCode::Left } else { KeyCode::Right };
        match self.state {
            ClientState::GetServer { input, msg, connecting } => {
                let a = if !connecting { ClientAction::EditInput(key) } else { ClientAction::Nothing };
                (ClientModel { state: ClientState::GetServer { input, msg, connecting }, exitmenu }, a, !connecting)
            },
            ClientState::AskName { input, msg, button, is_input } => {
                if is_input {
                    (
                        ClientModel { state: ClientState::AskName { input, msg, button, is_input }, exitmenu },
                        ClientAction::EditInput(key),
                        true,
                    )
                } else {
                    let b2 = next_button(button);
                    (
                        ClientModel { state: ClientState::AskName { input, msg, button: b2, is_input }, exitmenu },
                        ClientAction::Nothing,
                        true,
                    )
                }
            },
            ClientState::NewRoom { input, msg, name } => (
                ClientModel { state: ClientState::NewRoom { input, msg, name }, exitmenu },
                ClientAction::EditInput(key),
                true,
            ),
            ClientState::JoinRoom { input, msg, name } => (
                ClientModel { state: ClientState::JoinRoom { input, msg, name }, exitmenu },
                ClientAction::EditInput(key),
                true,
            ),
            ClientState::Gaming {
                players,
                next,
                last,
                cards,
                holds,
                desk,
                choose,
                button,
                has_last,
                play_cnt,
                msg,
                roomid,
            } => {
                let n = cards.len();
                let c2 = if n != 0 { move_choice(choose, n, is_left) } else { choose };
                (
                    ClientModel {
                        state: ClientState::Gaming {
                            players,
                            next,
                            last,
                            cards,
                            holds,
                            desk,
                            choose: c2,
                            button,
                            has_last,
                            play_cnt,
                            msg,
                            roomid,
                        },
                        exitmenu,
                    },
                    ClientAction::Nothing,
                    n != 0,
                )
            },
            ClientState::WaitPlayer { players, msg, roomid } => (
                ClientModel { state: ClientState::WaitPlayer { players, msg, roomid }, exitmenu },
                ClientAction::Nothing,
                false,
            ),
            ClientState::WaitReady { players, msg, roomid } => (
                ClientModel { state: ClientState::WaitReady { players, msg, roomid }, exitmenu },
                ClientAction::Nothing,
                false,
            ),
            ClientState::GameResult { ds, players, roomid } => (
                ClientModel { state: ClientState::GameResult { ds, players, roomid }, exitmenu },
                ClientAction::Nothing,
                false,
            ),
        }
    }

    /// Handles the arrows up and down.
    pub fn handle_ud_arrow(self) -> (r: (ClientModel, bool))
        requires
            ud_ok(self),
        ensures
            ud_goes(self, r.0, r.1),
    {
        let exitmenu = self.exitmenu;
        match self.state {
            ClientState::AskName { input, msg, button, is_input } => (
                ClientModel { state: ClientState::AskName { input, msg, button, is_input: !is_input }, exitmenu },
                true,
            ),
            ClientState::Gaming {
                players,
                next,
                last,
                cards,
                holds,
                desk,
                choose,
                button,
                has_last,
                play_cnt,
                msg,
                roomid,
            } => {
                let b2 = if next == 0 { next_button(button) } else { button };
                (
                    ClientModel {
                        state: ClientState::Gaming {
                            players,
                            next,
                            last,
                            cards,
                            holds,
                            desk,
                            choose,
                            button: b2,
                            has_last,
                            play_cnt,
                            msg,
                            roomid,
                        },
                        exitmenu,
                    },
                    next == 0,
                )
            },
            other => (ClientModel { state: other, exitmenu }, false),
        }
    }

    /// Handles Esc: opens or closes the exit menu.
    pub fn handle_esc(self) -> (r: ClientModel)
        ensures
            r.state == self.state,
            r.exitmenu == (!self.exitmenu.0, self.exitmenu.1),
    {
        ClientModel { state: self.state, exitmenu: (!self.exitmenu.0, self.exitmenu.1) }
    }

    /// Handles the arrows up and down on the exit menu: the chosen button
    /// moves and wraps around.
    pub fn handle_exitmenu_move(self, up: bool) -> (r: ClientModel)
        requires
            self.exitmenu.1 + 4 <= u32::MAX,
        ensures
            r.state == self.state,
            r.exitmenu.0 == self.exitmenu.0,
            r.exitmenu.1 == if up {
                (self.exitmenu.1 + spec_exit_buttons(screen_of(self.state)) - 1) % (spec_exit_buttons(screen_of(self.state)) as int)
            } else {
                (self.exitmenu.1 + 1) % (spec_exit_buttons(screen_of(self.state)) as int)
            },
    {
        let screen = match &self.state {
            ClientState::GetServer { .. } => Screen::GetServer,
            ClientState::AskName { .. } => Screen::AskName,
            ClientState::NewRoom { .. } => Screen::NewRoom,
            ClientState::JoinRoom { .. } => Screen::JoinRoom,
            ClientState::WaitPlayer { .. } => Screen::WaitPlayer,
            ClientState::WaitReady { .. } => Screen::WaitReady,
            ClientState::Gaming { .. } => Screen::Gaming,
            ClientState::GameResult { .. } => Screen::GameResult,
        };
        let e = if up { ExitMenuEvent::MoveUp } else { ExitMenuEvent::MoveDown };
        let b = exit_menu_move(self.exitmenu.1, screen, e);
        ClientModel { state: self.state, exitmenu: (self.exitmenu.0, b) }
    }

    /// Handles a key meant for a text field (a character, backspace,
    /// delete): it goes to the field when one takes keys.
    pub fn handle_typing(self, key: KeyCode) -> (r: (ClientModel, ClientAction, bool))
        ensures
            r.0 == self,
            edits_text(self.state) ==> r.1 == ClientAction::EditInput(key) && r.2,
            !edits_text(self.state) ==> r.1 == ClientAction::Nothing && !r.2,
    {
        let edits = match &self.state {
            ClientState::GetServer { connecting, .. } => !*connecting,
            ClientState::AskName { is_input, .. } => *is_input,
            ClientState::NewRoom { .. } => true,
            ClientState::JoinRoom { .. } => true,
            _ => false,
        };
        if edits {
            (self, ClientAction::EditInput(key), true)
        } else {
            (self, ClientAction::Nothing, false)
        }
    }

    /// Takes the text of the text field after an edit.
    pub fn set_input(self, text: String) -> (r: ClientModel)
        ensures
            r.exitmenu == self.exitmenu,
            match self.state {
                ClientState::GetServer { msg, connecting, .. } => r.state == ClientState::GetServer { input: text, msg, connecting },
                ClientState::AskName { msg, button, is_input, .. } => r.state == ClientState::AskName { input: text, msg, button, is_input },
                ClientState::NewRoom { msg, name, .. } => r.state == ClientState::NewRoom { input: text, msg, name },
                ClientState::JoinRoom { msg, name, .. } => r.state == ClientState::JoinRoom { input: text, msg, name },
                _ => r.state == self.state,
            },
    {
        let exitmenu = self.exitmenu;
        let state = match self.state {
            ClientState::GetServer { msg, connecting, .. } => ClientState::GetServer { input: text, msg, connecting },
            ClientState::AskName { msg, button, is_input, .. } => ClientState::AskName { input: text, msg, button, is_input },
            ClientState::NewRoom { msg, name, .. } => ClientState::NewRoom { input: text, msg, name },
            ClientState::JoinRoom { msg, name, .. } => ClientState::JoinRoom { input: text, msg, name },
            other => other,
        };
        ClientModel { state, exitmenu }
    }

    /// Takes the result of connecting to the server; `default_addr` is the
    /// address typed again after a failure.
    pub fn server_connect_result(self, res: Result<(), String>, default_addr: String) -> (r: (ClientModel, bool))
        ensures
            connect_goes(self, res, default_addr, r.0, r.1),
    {
        let exitmenu = self.exitmenu;
        match self.state {
            ClientState::GetServer { input, msg, connecting } => {
                if !connecting {
                    (ClientModel { state: ClientState::GetServer { input, msg, connecting }, exitmenu }, false)
                } else {
                    match res {
                        Ok(()) => (
                            ClientModel {
                                state: ClientState::AskName {
                                    input: String::new(),
                                    msg: "Game server connected.\nPlease enter your nickname:".to_owned(),
                                    button: 0,
                                    is_input: true,
                                },
                                exitmenu: (exitmenu.0, 0),
                            },
                            true,
                        ),
                        Err(e) => {
                            let m2 = text3("Connecting to server failed:\n", e.as_str(), "\nPlease retry:");
                            (ClientModel { state: ClientState::GetServer { input: default_addr, msg: m2, connecting: false }, exitmenu }, true)
                        },
                    }
                }
            },
            other => (ClientModel { state: other, exitmenu }, false),
        }
    }
}

/// The kind of a message of the game stream; a room report tells whether
/// the room waits for ready players.
pub open spec fn kind_of(gm: GameMsg) -> MsgKind {
    match gm.msg {
        None => MsgKind::Empty,
        Some(Msg::RoomInfo(ri)) => MsgKind::RoomInfo(ri.state matches Some(State::WaitReady(_))),
        Some(Msg::WhoReady(_)) => MsgKind::WhoReady,
        Some(Msg::Start(_)) => MsgKind::Start,
        Some(Msg::Play(_)) => MsgKind::Play,
        Some(Msg::Endgame(_)) => MsgKind::Endgame,
        Some(Msg::ExitGame(_)) => MsgKind::ExitGame,
        Some(Msg::ExitRoom(_)) => MsgKind::ExitRoom,
        Some(Msg::LoseConnection(_)) => MsgKind::LoseConnection,
    }
}

/// Following a message of the game stream moves the client between its
/// screens as the table of screens says: a message that a screen handles is
/// one that the table accepts there, a step to another screen lands on that
/// screen, and staying keeps the screen and draws again as the table says.
/// The start first asks for the hand, and the answer leads to the game.
pub proof fn lemma_stream_follows_screen_table(
    m: ClientModel,
    gm: GameMsg,
    r: ClientModel,
    a: ClientAction,
    redraw: bool,
)
    requires
        stream_ok(m, gm),
        stream_goes(m, gm, r, a, redraw),
    ensures
        stream_accepts(screen_of(m.state), kind_of(gm)),
        kind_of(gm) != MsgKind::Start ==> match spec_stream_step(screen_of(m.state), kind_of(gm)) {
            Step::Goto(s) => screen_of(r.state) == s,
            Step::Stay(d) => screen_of(r.state) == screen_of(m.state) && redraw == d,
        },
        kind_of(gm) == MsgKind::Start ==> {
            &&& spec_stream_step(screen_of(m.state), kind_of(gm)) == Step::Goto(Screen::Gaming)
            &&& a is QueryGameStatus
            &&& forall|next: u32, gi: GameInfo, r2: ClientModel|
                #[trigger] game_started(r, next, gi, r2) ==> screen_of(r2.state) == Screen::Gaming
        },
{
}

/// What the Enter key looks at on the screen of `m`.
pub open spec fn enter_context(m: ClientModel) -> EnterContext {
    match m.state {
        ClientState::GetServer { connecting, .. } => EnterContext {
            connecting,
            is_input: false,
            button: 0,
            me_ready: false,
            n_cards: 0,
            choose: 0,
            next: 0,
        },
        ClientState::AskName { button, is_input, .. } => EnterContext {
            connecting: false,
            is_input,
            button,
            me_ready: false,
            n_cards: 0,
            choose: 0,
            next: 0,
        },
        ClientState::WaitReady { players, .. } => EnterContext {
            connecting: false,
            is_input: false,
            button: 0,
            me_ready: players@[0].2,
            n_cards: 0,
            choose: 0,
            next: 0,
        },
        ClientState::Gaming { cards, choose, next, .. } => EnterContext {
            connecting: false,
            is_input: false,
            button: 0,
            me_ready: false,
            n_cards: cards@.len() as usize,
            choose,
            next,
        },
        _ => EnterContext {
            connecting: false,
            is_input: false,
            button: 0,
            me_ready: false,
            n_cards: 0,
            choose: 0,
            next: 0,
        },
    }
}

/// Enter does on every screen what the table of Enter actions says: it is
/// ignored (nothing to do, nothing drawn) exactly when the table ignores it,
/// connects, goes on to name a new room or to join one, asks for a new room
/// or joins it, gets ready, plays the chosen card, or confirms the result,
/// each with the one matching request.
pub proof fn lemma_enter_follows_action_table(m: ClientModel, r: ClientModel, a: ClientAction, redraw: bool)
    requires
        enter_ok(m),
        m.state matches ClientState::Gaming { cards, .. } ==> cards@.len() <= usize::MAX,
        enter_goes(m, r, a, redraw),
    ensures
        match spec_enter_action(screen_of(m.state), enter_context(m)) {
            EnterAction::Ignore => a is Nothing && !redraw && r == m,
            EnterAction::Connect => a is Connect && redraw,
            EnterAction::ToNewRoom => a is Nothing && redraw && r.state is NewRoom,
            EnterAction::ToJoinRoom => a is NewListener && redraw && r.state is JoinRoom,
            EnterAction::RequestNewRoom => a is RequestNewRoom && redraw,
            EnterAction::RequestJoinRoom => a is RequestJoinRoom && redraw,
            EnterAction::GetReady => a is GetReady && redraw,
            EnterAction::PlayCard => a is PlayCard && redraw,
            EnterAction::ConfirmResult => a is ExitGameThenRoomStatus && redraw,
        },
{
}

/// A play that Enter sent and the server took is the chosen card leaving the
/// hand: the card sent is the one removed, and the held cards gain it
/// exactly when the play held it (the game's two buttons being discard and
/// hold).
pub proof fn lemma_sent_play_is_the_removed_card(
    m: ClientModel,
    r: ClientModel,
    a: ClientAction,
    redraw: bool,
    r2: ClientModel,
)
    requires
        enter_ok(m),
        enter_goes(m, r, a, redraw),
        a is PlayCard,
        m.state matches ClientState::Gaming { button, .. } && button < 2,
        play_answered(r, Ok(()), r2),
    ensures
        m.state matches ClientState::Gaming { cards, holds, choose, .. } && r2.state matches ClientState::Gaming {
            cards: cards2,
            holds: holds2,
            ..
        } && {
            let p = a->PlayCard_2;
            &&& card_of_play(p) == cards@[choose - 1]
            &&& cards2@.len() + 1 == cards@.len()
            &&& cards2@.to_multiset().insert(card_of_play(p)) == cards@.to_multiset()
            &&& p is Hold ==> holds2@.to_multiset() == holds@.to_multiset().insert(card_of_play(p))
            &&& p is Discard ==> holds2@ == holds@
        },
{
    if let ClientState::Gaming { cards, holds, choose, button, .. } = m.state {
        let c = cards@[choose - 1];
        assert(card_of_info(info_of_card(c)) == c) by {
            match c.suit {
                crate::proto::CardSuit::Spade => {},
                crate::proto::CardSuit::Heart => {},
                crate::proto::CardSuit::Club => {},
                crate::proto::CardSuit::Diamond => {},
            }
        }
        vstd::seq_lib::to_multiset_remove(cards@, choose - 1);
        vstd::seq_lib::to_multiset_build(holds@, c);
        cards@.to_multiset_ensures();
        assert(cards@.to_multiset().count(c) > 0) by {
            assert(cards@.contains(c));
        }
        assert(cards@.to_multiset().remove(c).insert(c) =~= cards@.to_multiset());
    }
}

/// Pressing a button of the exit menu does what the table of the exit menu
/// says: closing keeps the screen, quitting quits (leaving the room first
/// when in one), leaving the room asks for the name again, and leaving the
/// game tells the server so.
pub proof fn lemma_exit_follows_action_table(m: ClientModel, r: ClientModel, a: ClientAction)
    requires
        exit_ok(m),
        exit_goes(m, r, a),
    ensures
        !r.exitmenu.0,
        match spec_exit_action(screen_of(m.state), m.exitmenu.1) {
            ExitAction::Close => r.state == m.state && (a is Nothing || a is StopListener),
            ExitAction::Quit => r.state == m.state && (a is Quit || a is StopListenerAndQuit),
            ExitAction::LeaveRoom => a is LeaveRoom && r.state is AskName && r.exitmenu.1 == 0,
            ExitAction::LeaveRoomAndQuit => a is LeaveRoomAndQuit && r.state == m.state,
            ExitAction::LeaveGame => a is ExitGame || a is ExitGameThenRoomStatus,
        },
{
}

/// Moving the chosen card left and then right, or right and then left,
/// gives back the state before.
pub proof fn lemma_lr_undo(m: ClientModel, is_left: bool, r1: ClientModel, a1: ClientAction, d1: bool, r2: ClientModel, a2: ClientAction, d2: bool)
    requires
        m.state matches ClientState::Gaming { cards, choose, .. } && 0 < cards@.len() < usize::MAX
            && choose <= cards@.len(),
        lr_goes(m, is_left, r1, a1, d1),
        lr_goes(r1, !is_left, r2, a2, d2),
    ensures
        r2 == m,
{
    if let ClientState::Gaming { cards, choose, .. } = m.state {
        crate::client::state::lemma_move_choice_undo(choose as int, cards@.len() as int);
    }
}

} // verus!
