//! The events that drive a client, and how a key pressed on the terminal
//! becomes one.

use vstd::prelude::*;

verus! {

/// An event of a client: a key, a new terminal size, a redraw, the result of
/// connecting to a server (a client `C` or why it failed), or a message `M`
/// of the game stream.
#[derive(Debug)]
pub enum ClientEvent<C, M> {
    Enter,
    LeftArrow,
    RightArrow,
    UpArrow,
    DownArrow,
    Esc,
    CtrlC,
    Type(char),
    Resize(u16, u16),
    Refresh,
    Backspace,
    Delete,
    ServerConnectResult(Result<C, String>),
    StreamMsg(M),
}

/// A key of the terminal.
#[derive(Clone, Copy, Debug, PartialEq, Eq, Structural)]
pub enum KeyCode {
    Enter,
    Esc,
    Char(char),
    Left,
    Right,
    Up,
    Down,
    Backspace,
    Delete,
    Other,
}

/// A pressed key, and whether control and no other modifier was held.
#[derive(Clone, Copy, Debug, PartialEq, Eq, Structural)]
pub struct KeyPress {
    pub code: KeyCode,
    pub control: bool,
}

/// Control-C quits and control-L redraws; other characters are typed.
pub open spec fn char_event<C, M>(c: char, control: bool) -> ClientEvent<C, M> {
    if control && (c == 'c' || c == 'C') {
        ClientEvent::CtrlC
    } else if control && (c == 'l' || c == 'L') {
        ClientEvent::Refresh
    } else {
        ClientEvent::Type(c)
    }
}

/// The event for a key: each key of its own, none for other keys.
pub open spec fn spec_key_event<C, M>(key: KeyPress) -> Option<ClientEvent<C, M>> {
    match key.code {
        KeyCode::Enter => Some(ClientEvent::Enter),
        KeyCode::Esc => Some(ClientEvent::Esc),
        KeyCode::Char(c) => Some(char_event(c, key.control)),
        KeyCode::Left => Some(ClientEvent::LeftArrow),
        KeyCode::Right => Some(ClientEvent::RightArrow),
        KeyCode::Up => Some(ClientEvent::UpArrow),
        KeyCode::Down => Some(ClientEvent::DownArrow),
        KeyCode::Backspace => Some(ClientEvent::Backspace),
        KeyCode::Delete => Some(ClientEvent::Delete),
        KeyCode::Other => None,
    }
}

/// Turns the keys of the terminal into events of the client.
#[derive(Debug)]
pub struct TermEventHandler;

impl TermEventHandler {
    pub fn new() -> (h: Self) {
        TermEventHandler
    }

    /// The event for a pressed key.
    pub fn key_event<C, M>(&self, key: KeyPress) -> (e: Option<ClientEvent<C, M>>)
        ensures
            e == spec_key_event::<C, M>(key),
    {
        match key.code {
            KeyCode::Enter => Some(ClientEvent::Enter),
            KeyCode::Esc => Some(ClientEvent::Esc),
            KeyCode::Char(c) => {
                if key.control && (c == 'c' || c == 'C') {
                    Some(ClientEvent::CtrlC)
                } else if key.control && (c == 'l' || c == 'L') {
                    Some(ClientEvent::Refresh)
                } else {
                    Some(ClientEvent::Type(c))
                }
            },
            KeyCode::Left => Some(ClientEvent::LeftArrow),
            KeyCode::Right => Some(ClientEvent::RightArrow),
            KeyCode::Up => Some(ClientEvent::UpArrow),
            KeyCode::Down => Some(ClientEvent::DownArrow),
            KeyCode::Backspace => Some(ClientEvent::Backspace),
            KeyCode::Delete => Some(ClientEvent::Delete),
            KeyCode::Other => None,
        }
    }
}

/// The event for a key of the plain front end: the arrows up and
/// down are not used, and the right arrow moves left as the left one does.
pub open spec fn spec_plain_key_event<C, M>(key: KeyPress) -> Option<ClientEvent<C, M>> {
    match key.code {
        KeyCode::Enter => Some(ClientEvent::Enter),
        KeyCode::Esc => Some(ClientEvent::Esc),
        KeyCode::Char(c) => Some(char_event(c, key.control)),
        KeyCode::Left => Some(ClientEvent::LeftArrow),
        KeyCode::Right => Some(ClientEvent::LeftArrow),
        KeyCode::Backspace => Some(ClientEvent::Backspace),
        KeyCode::Delete => Some(ClientEvent::Delete),
        _ => None,
    }
}

/// Turns the keys of the terminal into events of the plain front end.
#[derive(Debug)]
pub struct EventHandler;

impl EventHandler {
    pub fn new() -> (h: Self) {
        EventHandler
    }

    /// The event for a pressed key.
    pub fn key_event<C, M>(&self, key: KeyPress) -> (e: Option<ClientEvent<C, M>>)
        ensures
            e == spec_plain_key_event::<C, M>(key),
    {
        match key.code {
            KeyCode::Enter => Some(ClientEvent::Enter),
            KeyCode::Esc => Some(ClientEvent::Esc),
            KeyCode::Char(c) => {
                if key.control && (c == 'c' || c == 'C') {
                    Some(ClientEvent::CtrlC)
                } else if key.control && (c == 'l' || c == 'L') {
                    Some(ClientEvent::Refresh)
                } else {
                    Some(ClientEvent::Type(c))
                }
            },
            KeyCode::Left => Some(ClientEvent::LeftArrow),
            KeyCode::Right => Some(ClientEvent::LeftArrow),
            KeyCode::Backspace => Some(ClientEvent::Backspace),
            KeyCode::Delete => Some(ClientEvent::Delete),
            _ => None,
        }
    }
}

/// An error of the terminal front end.
#[derive(Clone, Debug)]
pub enum TuiError {
    /// A channel was closed; it carries what was being sent.
    ChannelClosed(String),
}

} // verus!
