//! The errors with which the server refuses a request, and the status code
//! that each carries.

use vstd::prelude::*;

verus! {

/// The status codes that the game server answers with.
#[derive(Clone, Copy, Debug, PartialEq, Eq, Structural)]
pub enum Code {
    AlreadyExists,
    PermissionDenied,
    NotFound,
    ResourceExhausted,
    Internal,
}

/// Why the server refused a request.
#[derive(Clone, Debug)]
pub enum RpcError {
    /// The player asked to get ready a second time.
    AlreadyReady,
    /// The player played a card that is not in the hand.
    NotOwned,
    /// The player discarded a card that does not fit on the desk.
    InvalidDiscard,
    /// The player held a card while having a card that fits on the desk.
    MustDiscard,
    /// The room has no free place; it carries the room's id.
    RoomFull(String),
    /// The room is not waiting for its players to get ready.
    NotWaitReady(String),
    /// No player sits at this place.
    PlayerNotFound(u64),
    /// No game is running in the room.
    NotGaming,
    /// It is another player's turn; it carries that player's place.
    NotYourTurn(u64),
    /// A result was asked of a room that is not gaming.
    RoomNotGaming,
    /// A result was asked before all cards were played.
    GameNotEnd,
    /// A result was asked while a player still has cards.
    CardsLeft,
    /// A player left a game in a room that is not full.
    NotInGame,
    /// A room of this id exists already.
    RoomExists(String),
    /// No room of this id exists.
    RoomNotFound(String),
}

/// The status code that each refusal carries.
pub open spec fn spec_code(e: RpcError) -> Code {
    match e {
        RpcError::AlreadyReady => Code::AlreadyExists,
        RpcError::RoomExists(_) => Code::AlreadyExists,
        RpcError::RoomFull(_) => Code::ResourceExhausted,
        RpcError::PlayerNotFound(_) => Code::NotFound,
        RpcError::RoomNotFound(_) => Code::NotFound,
        _ => Code::PermissionDenied,
    }
}

impl RpcError {
    /// The status code of this refusal.
    pub fn code(&self) -> (c: Code)
        ensures
            c == spec_code(*self),
    {
        match self {
            RpcError::AlreadyReady => Code::AlreadyExists,
            RpcError::RoomExists(_) => Code::AlreadyExists,
            RpcError::RoomFull(_) => Code::ResourceExhausted,
            RpcError::PlayerNotFound(_) => Code::NotFound,
            RpcError::RoomNotFound(_) => Code::NotFound,
            _ => Code::PermissionDenied,
        }
    }
}

} // verus!
