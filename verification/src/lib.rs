//! Verified game logic of the Seven-of-Hearts card game: the cards and the
//! hands of the players, the four chains on the desk, the rules that decide
//! which card may be discarded or must be held, the room that deals and runs
//! a game for four players, and the bookkeeping that a client does to follow
//! a game from the messages of the server.

pub mod proto;
pub mod error;
pub mod game;
pub mod desk;
pub mod room;
pub mod rule;
pub mod client;

use vstd::prelude::*;

verus! {

/// The port on which the game server listens unless told otherwise.
pub const DEFAULT_PORT: u16 = 20007;

/// The capacity of the channels that carry game messages.
pub const DEFAULT_CHANNEL_SIZE: usize = 64;

} // verus!
