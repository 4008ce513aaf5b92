//! How a client moves between its screens: what a key does, what the exit
//! menu does, which message of the server is expected on which screen and
//! where it leads.

use vstd::prelude::*;
use crate::client::state::lemma_move_choice_undo;

verus! {

/// The screens of a client.
#[derive(Clone, Copy, Debug, PartialEq, Eq, Structural)]
pub enum Screen {
    GetServer,
    AskName,
    NewRoom,
    JoinRoom,
    WaitPlayer,
    WaitReady,
    Gaming,
    GameResult,
}

/// How many buttons the exit menu of a screen has.
pub open spec fn spec_exit_buttons(s: Screen) -> u32 {
    match s {
        Screen::GetServer | Screen::AskName | Screen::JoinRoom | Screen::NewRoom => 2,
        Screen::WaitPlayer | Screen::WaitReady => 3,
        Screen::Gaming | Screen::GameResult => 4,
    }
}

/// How many buttons the exit menu of a screen has: back and quit, then
/// leaving the room, then leaving the game.
pub fn exit_menu_buttons(s: Screen) -> (n: u32)
    ensures
        n == spec_exit_buttons(s),
{
    match s {
        Screen::GetServer | Screen::AskName | Screen::JoinRoom | Screen::NewRoom => 2,
        Screen::WaitPlayer | Screen::WaitReady => 3,
        Screen::Gaming | Screen::GameResult => 4,
    }
}

/// The button of the exit menu chosen after the up or down key; the
/// buttons wrap around.
pub fn move_exit_menu(cur: u32, button_num: u32, up: bool) -> (r: u32)
    requires
        button_num >= 1,
        cur + button_num <= u32::MAX,
    ensures
        r == if up { (cur + button_num - 1) % (button_num as int) } else { (cur + 1) % (button_num as int) },
        r < button_num,
{
    if up {
        (cur + button_num - 1) % button_num
    } else {
        (cur + 1) % button_num
    }
}


/// A key of the exit menu.
#[derive(Clone, Copy, Debug, PartialEq, Eq, Structural)]
pub enum ExitMenuEvent {
    Enter,
    MoveUp,
    MoveDown,
}

/// The button of the exit menu of `screen` chosen after `e`: up and down
/// move through the buttons and wrap around, enter leaves the choice as it
/// is.
pub fn exit_menu_move(cur: u32, screen: Screen, e: ExitMenuEvent) -> (r: u32)
    requires
        cur + 4 <= u32::MAX,
    ensures
        e == ExitMenuEvent::Enter ==> r == cur,
        e == ExitMenuEvent::MoveUp ==> r == (cur + spec_exit_buttons(screen) - 1) % (spec_exit_buttons(screen) as int),
        e == ExitMenuEvent::MoveDown ==> r == (cur + 1) % (spec_exit_buttons(screen) as int),
{
    let n = exit_menu_buttons(screen);
    match e {
        ExitMenuEvent::Enter => cur,
        ExitMenuEvent::MoveUp => move_exit_menu(cur, n, true),
        ExitMenuEvent::MoveDown => move_exit_menu(cur, n, false),
    }
}

/// Moving up and then down in the exit menu of a screen, or down and then
/// up, comes back to the button chosen before.
pub proof fn lemma_exit_menu_undo(cur: int, screen: Screen)
    requires
        0 <= cur < spec_exit_buttons(screen),
    ensures
        ({
            let n = spec_exit_buttons(screen) as int;
            &&& ((cur + n - 1) % n + 1) % n == cur
            &&& ((cur + 1) % n + n - 1) % n == cur
        }),
{
    lemma_move_choice_undo(cur, spec_exit_buttons(screen) - 1);
}

/// What pressing enter on a button of the exit menu does.
#[derive(Clone, Copy, Debug, PartialEq, Eq, Structural)]
pub enum ExitAction {
    /// Close the menu.
    Close,
    /// Quit the client.
    Quit,
    /// Leave the room and ask for the name again.
    LeaveRoom,
    /// Leave the room and quit the client.
    LeaveRoomAndQuit,
    /// Leave the game and wait for the players to get ready again.
    LeaveGame,
}

/// What the button `button` of the exit menu of `screen` does.
pub open spec fn spec_exit_action(screen: Screen, button: u32) -> ExitAction {
    if button == 0 {
        ExitAction::Close
    } else {
        match screen {
            Screen::GetServer | Screen::AskName | Screen::NewRoom | Screen::JoinRoom => ExitAction::Quit,
            Screen::WaitPlayer | Screen::WaitReady => if button == 1 {
                ExitAction::LeaveRoom
            } else {
                ExitAction::LeaveRoomAndQuit
            },
            Screen::Gaming | Screen::GameResult => if button == 1 {
                ExitAction::LeaveGame
            } else if button == 2 {
                ExitAction::LeaveRoom
            } else {
                ExitAction::LeaveRoomAndQuit
            },
        }
    }
}

/// What the button `button` of the exit menu of `screen` does, and whether
/// the listener of the game stream is to be stopped first (always so while
/// joining a room). The menu is closed afterwards.
pub fn exit_menu_action(screen: Screen, button: u32) -> (r: (ExitAction, bool))
    requires
        button < spec_exit_buttons(screen),
    ensures
        r.0 == spec_exit_action(screen, button),
        r.1 == (screen == Screen::JoinRoom),
{
    let cancel = match screen {
        Screen::JoinRoom => true,
        _ => false,
    };
    let action = if button == 0 {
        ExitAction::Close
    } else {
        match screen {
            Screen::GetServer | Screen::AskName | Screen::NewRoom | Screen::JoinRoom => ExitAction::Quit,
            Screen::WaitPlayer | Screen::WaitReady => if button == 1 {
                ExitAction::LeaveRoom
            } else {
                ExitAction::LeaveRoomAndQuit
            },
            Screen::Gaming | Screen::GameResult => if button == 1 {
                ExitAction::LeaveGame
            } else if button == 2 {
                ExitAction::LeaveRoom
            } else {
                ExitAction::LeaveRoomAndQuit
            },
        }
    };
    (action, cancel)
}

/// The kind of a message of the game stream; a room report tells whether
/// the room waits for ready players.
#[derive(Clone, Copy, Debug, PartialEq, Eq, Structural)]
pub enum MsgKind {
    RoomInfo(bool),
    WhoReady,
    Start,
    Play,
    Endgame,
    ExitGame,
    ExitRoom,
    LoseConnection,
    Empty,
}

/// What a message of the game stream does to the screen: keep it (and
/// whether to draw again), or go to another one.
#[derive(Clone, Copy, Debug, PartialEq, Eq, Structural)]
pub enum Step {
    Stay(bool),
    Goto(Screen),
}

/// Whether a message of kind `k` can arrive on `screen`; any other is a
/// breach of the protocol.
pub open spec fn stream_accepts(screen: Screen, k: MsgKind) -> bool {
    match screen {
        Screen::WaitPlayer => k matches MsgKind::RoomInfo(_) || k == MsgKind::ExitRoom,
        Screen::WaitReady => k matches MsgKind::RoomInfo(_) || k == MsgKind::WhoReady || k == MsgKind::Start
            || k == MsgKind::ExitRoom || k == MsgKind::ExitGame || k == MsgKind::LoseConnection,
        Screen::Gaming => k == MsgKind::Play || k == MsgKind::Endgame || k == MsgKind::ExitGame
            || k == MsgKind::ExitRoom || k == MsgKind::LoseConnection,
        Screen::GameResult => k == MsgKind::ExitGame || k == MsgKind::ExitRoom || k == MsgKind::LoseConnection
            || k == MsgKind::WhoReady,
        _ => false,
    }
}

/// Where a message of kind `k` on `screen` leads.
pub open spec fn spec_stream_step(screen: Screen, k: MsgKind) -> Step {
    match screen {
        Screen::WaitPlayer => match k {
            MsgKind::RoomInfo(true) => Step::Goto(Screen::WaitReady),
            _ => Step::Stay(true),
        },
        Screen::WaitReady => match k {
            MsgKind::Start => Step::Goto(Screen::Gaming),
            MsgKind::ExitRoom | MsgKind::LoseConnection => Step::Goto(Screen::WaitPlayer),
            _ => Step::Stay(true),
        },
        Screen::Gaming => match k {
            MsgKind::Endgame => Step::Goto(Screen::GameResult),
            MsgKind::ExitGame => Step::Goto(Screen::WaitReady),
            MsgKind::ExitRoom | MsgKind::LoseConnection => Step::Goto(Screen::WaitPlayer),
            _ => Step::Stay(true),
        },
        _ => match k {
            MsgKind::ExitGame => Step::Stay(false),
            MsgKind::ExitRoom | MsgKind::LoseConnection => Step::Goto(Screen::WaitPlayer),
            _ => Step::Stay(true),
        },
    }
}

/// Whether a message of kind `k` can arrive on `screen`.
pub fn stream_accepts_exec(screen: Screen, k: MsgKind) -> (b: bool)
    ensures
        b == stream_accepts(screen, k),
{
    match screen {
        Screen::WaitPlayer => match k {
            MsgKind::RoomInfo(_) | MsgKind::ExitRoom => true,
            _ => false,
        },
        Screen::WaitReady => match k {
            MsgKind::RoomInfo(_) | MsgKind::WhoReady | MsgKind::Start | MsgKind::ExitRoom | MsgKind::ExitGame
            | MsgKind::LoseConnection => true,
            _ => false,
        },
        Screen::Gaming => match k {
            MsgKind::Play | MsgKind::Endgame | MsgKind::ExitGame | MsgKind::ExitRoom | MsgKind::LoseConnection => true,
            _ => false,
        },
        Screen::GameResult => match k {
            MsgKind::ExitGame | MsgKind::ExitRoom | MsgKind::LoseConnection | MsgKind::WhoReady => true,
            _ => false,
        },
        _ => false,
    }
}

/// Where a message of kind `k`, which can arrive on `screen`, leads.
pub fn stream_step(screen: Screen, k: MsgKind) -> (s: Step)
    requires
        stream_accepts(screen, k),
    ensures
        s == spec_stream_step(screen, k),
{
    match screen {
        Screen::WaitPlayer => match k {
            MsgKind::RoomInfo(true) => Step::Goto(Screen::WaitReady),
            _ => Step::Stay(true),
        },
        Screen::WaitReady => match k {
            MsgKind::Start => Step::Goto(Screen::Gaming),
            MsgKind::ExitRoom | MsgKind::LoseConnection => Step::Goto(Screen::WaitPlayer),
            _ => Step::Stay(true),
        },
        Screen::Gaming => match k {
            MsgKind::Endgame => Step::Goto(Screen::GameResult),
            MsgKind::ExitGame => Step::Goto(Screen::WaitReady),
            MsgKind::ExitRoom | MsgKind::LoseConnection => Step::Goto(Screen::WaitPlayer),
            _ => Step::Stay(true),
        },
        _ => match k {
            MsgKind::ExitGame => Step::Stay(false),
            MsgKind::ExitRoom | MsgKind::LoseConnection => Step::Goto(Screen::WaitPlayer),
            _ => Step::Stay(true),
        },
    }
}

/// The result of connecting to the server on `screen`: only while a
/// connection is being made; a connection leads to asking the name, a
/// failure stays to try again. The answer `None` tells that the result is
/// dropped and nothing is drawn.
pub fn connect_step(screen: Screen, connecting: bool, connected: bool) -> (s: Option<Step>)
    ensures
        !(screen == Screen::GetServer && connecting) ==> s == None::<Step>,
        screen == Screen::GetServer && connecting && connected ==> s == Some(Step::Goto(Screen::AskName)),
        screen == Screen::GetServer && connecting && !connected ==> s == Some(Step::Stay(true)),
{
    match screen {
        Screen::GetServer => if !connecting {
            None
        } else if connected {
            Some(Step::Goto(Screen::AskName))
        } else {
            Some(Step::Stay(true))
        },
        _ => None,
    }
}

/// What the enter key does.
#[derive(Clone, Copy, Debug, PartialEq, Eq, Structural)]
pub enum EnterAction {
    /// Nothing; the screen is not drawn again.
    Ignore,
    /// Connect to the typed server address.
    Connect,
    /// Go on to name a new room.
    ToNewRoom,
    /// Go on to type the room to join.
    ToJoinRoom,
    /// Ask the server for a new room of the typed name.
    RequestNewRoom,
    /// Join the typed room.
    RequestJoinRoom,
    /// Tell the server that the player is ready.
    GetReady,
    /// Play the chosen card.
    PlayCard,
    /// Confirm the result and wait for the players to get ready again.
    ConfirmResult,
}

/// The state of a screen that the enter key looks at.
#[derive(Clone, Copy, Debug)]
pub struct EnterContext {
    /// A connection to the server is being made.
    pub connecting: bool,
    /// The name field, not the buttons, has the focus.
    pub is_input: bool,
    /// The chosen button.
    pub button: u32,
    /// The player is ready.
    pub me_ready: bool,
    /// How many cards the player has.
    pub n_cards: usize,
    /// The chosen card, from 1; 0 for none.
    pub choose: usize,
    /// The index, in this client's order, of the player whose turn it is.
    pub next: usize,
}

/// What the enter key does on `screen`.
pub open spec fn spec_enter_action(screen: Screen, cx: EnterContext) -> EnterAction {
    match screen {
        Screen::GetServer => if !cx.connecting { EnterAction::Connect } else { EnterAction::Ignore },
        Screen::AskName => if cx.is_input {
            EnterAction::Ignore
        } else if cx.button == 0 {
            EnterAction::ToNewRoom
        } else {
            EnterAction::ToJoinRoom
        },
        Screen::NewRoom => EnterAction::RequestNewRoom,
        Screen::JoinRoom => EnterAction::RequestJoinRoom,
        Screen::WaitReady => if !cx.me_ready { EnterAction::GetReady } else { EnterAction::Ignore },
        Screen::Gaming => if cx.n_cards != 0 && cx.choose != 0 && cx.next == 0 {
            EnterAction::PlayCard
        } else {
            EnterAction::Ignore
        },
        Screen::GameResult => EnterAction::ConfirmResult,
        Screen::WaitPlayer => EnterAction::Ignore,
    }
}

/// What the enter key does on `screen`.
pub fn enter_action(screen: Screen, cx: EnterContext) -> (a: EnterAction)
    ensures
        a == spec_enter_action(screen, cx),
{
    match screen {
        Screen::GetServer => if !cx.connecting { EnterAction::Connect } else { EnterAction::Ignore },
        Screen::AskName => if cx.is_input {
            EnterAction::Ignore
        } else if cx.button == 0 {
            EnterAction::ToNewRoom
        } else {
            EnterAction::ToJoinRoom
        },
        Screen::NewRoom => EnterAction::RequestNewRoom,
        Screen::JoinRoom => EnterAction::RequestJoinRoom,
        Screen::WaitReady => if !cx.me_ready { EnterAction::GetReady } else { EnterAction::Ignore },
        Screen::Gaming => if cx.n_cards != 0 && cx.choose != 0 && cx.next == 0 {
            EnterAction::PlayCard
        } else {
            EnterAction::Ignore
        },
        Screen::GameResult => EnterAction::ConfirmResult,
        Screen::WaitPlayer => EnterAction::Ignore,
    }
}

} // verus!
