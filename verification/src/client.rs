//! What a client keeps to follow a game: its own picture of the desk, the
//! players as seen from its own place, and the bookkeeping that each message
//! of the server and each key of the player call for.

pub mod desk;
pub mod state;
pub mod flow;
pub mod event;
pub mod card;
pub mod model;
