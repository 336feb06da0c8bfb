//! Error taxonomy of the room coordinator.
//!
//! Every failure is a recoverable, per-request error: it is reported back
//! to the originating connection and never corrupts room state.

use vstd::prelude::*;

verus! {

/// The reasons a room operation can be refused.
#[derive(Debug, Clone, PartialEq, Eq, Structural)]
pub enum GameError {
    /// The room code does not name a live room.
    RoomNotFound,
    /// The calling user is not a member of the room.
    NotAMember,
    /// The operation is reserved to the room's host.
    NotHost,
    /// The operation is only legal while the room is in the lobby.
    NotInLobby,
    /// The operation is only legal once the game has started.
    NotStarted,
    /// Starting the game requires every member to be ready.
    NotAllReady,
    /// Only players still alive may take this action.
    NotAlive,
    /// The sender violated the minimum inter-message interval.
    RateLimited,
    /// The room code is not six uppercase letters or digits.
    InvalidFormat,
    /// The bounded number of room-code generation attempts was exceeded.
    ResourceExhausted,
    /// The inbound envelope's type tag is not recognized.
    Unknown,
}

impl GameError {
    /// The description each error variant carries on the wire.
    pub open spec fn spec_message(&self) -> Seq<char> {
        match self {
            GameError::RoomNotFound => "room not found"@,
            GameError::NotAMember => "user is not in the room"@,
            GameError::NotHost => "only the host may do this"@,
            GameError::NotInLobby => "only legal before the game starts"@,
            GameError::NotStarted => "the game has not started"@,
            GameError::NotAllReady => "all members must be ready"@,
            GameError::NotAlive => "only alive players may do this"@,
            GameError::RateLimited => "sending too fast"@,
            GameError::InvalidFormat => "malformed room code"@,
            GameError::ResourceExhausted => "could not generate a unique room code"@,
            GameError::Unknown => "unknown message type"@,
        }
    }

    /// A short, stable description for the outbound `error` envelope.
    pub fn message(&self) -> (r: &'static str)
        ensures
            r@ == self.spec_message(),
    {
        match self {
            GameError::RoomNotFound => "room not found",
            GameError::NotAMember => "user is not in the room",
            GameError::NotHost => "only the host may do this",
            GameError::NotInLobby => "only legal before the game starts",
            GameError::NotStarted => "the game has not started",
            GameError::NotAllReady => "all members must be ready",
            GameError::NotAlive => "only alive players may do this",
            GameError::RateLimited => "sending too fast",
            GameError::InvalidFormat => "malformed room code",
            GameError::ResourceExhausted => "could not generate a unique room code",
            GameError::Unknown => "unknown message type",
        }
    }
}

/// The transport-level error type of the wider service.  The coordinator
/// maps its own taxonomy onto it for callers that speak this shape.
#[derive(Debug, Clone)]
pub enum CustomError {
    NotFound(String),
    InternalServerError(String),
    InternalError(String),
    BadRequest(String),
    AuthFailed(String),
    RedisError(String),
}

impl CustomError {
    /// The message carried by the error, as a specification value.
    pub open spec fn spec_message(&self) -> Seq<char> {
        match self {
            CustomError::NotFound(m) => m@,
            CustomError::InternalServerError(m) => m@,
            CustomError::InternalError(m) => m@,
            CustomError::BadRequest(m) => m@,
            CustomError::AuthFailed(m) => m@,
            CustomError::RedisError(m) => m@,
        }
    }

    /// The message carried by the error, whatever its variant.
    pub fn message(&self) -> (r: &String)
        ensures
            r@ == self.spec_message(),
    {
        match self {
            CustomError::NotFound(m) => m,
            CustomError::InternalServerError(m) => m,
            CustomError::InternalError(m) => m,
            CustomError::BadRequest(m) => m,
            CustomError::AuthFailed(m) => m,
            CustomError::RedisError(m) => m,
        }
    }

    /// How the coordinator's errors surface on the transport: a missing
    /// room is a not-found condition, exhaustion of the code space is a
    /// server-side failure, and everything else is a bad request.
    pub fn from_game(e: &GameError) -> (r: CustomError)
        ensures
            matches!(e, GameError::RoomNotFound) ==> matches!(r, CustomError::NotFound(_)),
            matches!(e, GameError::ResourceExhausted)
                ==> matches!(r, CustomError::InternalServerError(_)),
            !matches!(e, GameError::RoomNotFound) && !matches!(e, GameError::ResourceExhausted)
                ==> matches!(r, CustomError::BadRequest(_)),
            r.spec_message() == e.spec_message(),
    {
        let msg = e.message();
        match e {
            GameError::RoomNotFound => CustomError::NotFound(msg.to_owned()),
            GameError::ResourceExhausted => CustomError::InternalServerError(msg.to_owned()),
            _ => CustomError::BadRequest(msg.to_owned()),
        }
    }
}

} // verus!
