//! Wire-level data types of the coordinator.
//!
//! Inbound payloads arrive as JSON envelopes `{ "type": ..., "payload": ... }`;
//! the transport layer decodes them into the types below and hands them to
//! the session dispatcher.  Outbound messages are computed by the registry
//! and serialized by the transport layer.

use vstd::prelude::*;

verus! {

/// A room is either gathering players or running a game.
#[derive(Debug, Clone, Copy, PartialEq, Eq, Structural)]
pub enum RoomStatus {
    Lobby,
    Started,
}

/// The hidden role a player is dealt when a game starts.
#[derive(Debug, Clone, Copy, PartialEq, Eq, Structural)]
pub enum Role {
    Wolf,
    Villager,
    Witness,
}

/// Payload of the inbound `join_room` envelope.
#[derive(Debug, Clone)]
pub struct JoinRoomIn {
    pub room_code: String,
    pub user_id: i64,
    pub nick_name: String,
    pub avatar: Option<String>,
    pub create_if_not_exists: bool,
}

/// Payload of the inbound `leave_room` envelope.
#[derive(Debug, Clone)]
pub struct LeaveRoomIn {
    pub room_code: String,
    pub user_id: i64,
}

/// Payload of the inbound `set_ready` envelope.
#[derive(Debug, Clone)]
pub struct SetReadyIn {
    pub room_code: String,
    pub user_id: i64,
    pub ready: bool,
}

/// Payload of the inbound `start_game` envelope.
#[derive(Debug, Clone)]
pub struct StartGameIn {
    pub room_code: String,
    pub user_id: i64,
    pub game_key: String,
}

/// Payload of the inbound `broadcast` envelope.
#[derive(Debug, Clone)]
pub struct BroadcastIn {
    pub room_code: String,
    pub user_id: i64,
    pub text: String,
}

/// Payload of the inbound `role_reveal` envelope: a host-only relay used
/// by the alternative transport binding.
#[derive(Debug, Clone)]
pub struct RoleRevealIn {
    pub room_code: String,
    pub user_id: i64,
    pub to_user_id: i64,
    pub role: Role,
    pub wolf_user_ids: Vec<i64>,
    pub wolf_count: i64,
    pub total_players: i64,
}

/// One member in the public room snapshot.
#[derive(Debug, Clone)]
pub struct RoomMemberOut {
    pub user_id: i64,
    pub nick_name: String,
    pub avatar: Option<String>,
    pub ready: bool,
    pub is_host: bool,
    pub joined_at: i64,
}

/// The game summary in the public room snapshot.
#[derive(Debug, Clone)]
pub struct GameOut {
    pub key: String,
    pub started_at: i64,
}

/// The public view of a room: no hidden roles, no raw vote contents.
#[derive(Debug, Clone)]
pub struct RoomStateOut {
    pub room_code: String,
    pub host_user_id: i64,
    pub status: RoomStatus,
    pub members: Vec<RoomMemberOut>,
    pub game: Option<GameOut>,
}

/// A private, unicast-only role disclosure.  A wolf learns the other
/// wolves, a witness learns all wolves, a villager learns nothing.
#[derive(Debug, Clone)]
pub struct RoleRevealOut {
    pub to_user_id: i64,
    pub role: Role,
    pub wolf_user_ids: Vec<i64>,
    pub wolf_count: i64,
    pub total_players: i64,
}

impl RoleRevealOut {
    /// A fresh reveal with the same content.
    pub fn duplicate(&self) -> (r: RoleRevealOut)
        ensures
            r.to_user_id == self.to_user_id,
            r.role == self.role,
            r.wolf_user_ids@ == self.wolf_user_ids@,
            r.wolf_count == self.wolf_count,
            r.total_players == self.total_players,
    {
        RoleRevealOut {
            to_user_id: self.to_user_id,
            role: self.role,
            wolf_user_ids: crate::ids::copy_ids(&self.wolf_user_ids),
            wolf_count: self.wolf_count,
            total_players: self.total_players,
        }
    }
}

/// An inbound envelope decoded into its typed payload.  Unrecognized
/// `type` tags fall through to `Unknown` and produce an error envelope
/// rather than a silent drop.
#[derive(Debug, Clone)]
pub enum InboundEvent {
    JoinRoom(JoinRoomIn),
    LeaveRoom(LeaveRoomIn),
    SetReady(SetReadyIn),
    StartGame(StartGameIn),
    Broadcast(BroadcastIn),
    RoleReveal(RoleRevealIn),
    Unknown(String),
}

/// An outbound message before serialization.
#[derive(Debug, Clone)]
pub enum OutboundMsg {
    /// A `room_state` envelope.
    RoomState(RoomStateOut),
    /// A `role_reveal` envelope; must only ever be unicast.
    RoleReveal(RoleRevealOut),
    /// A `broadcast` envelope relaying a member's text.
    Chat { from_user_id: i64, text: String, at: i64 },
    /// An `error` envelope.
    Error(String),
}

/// One outbound message addressed to one connection's delivery queue.
#[derive(Debug, Clone)]
pub struct Delivery {
    pub user_id: i64,
    pub conn: u64,
    pub msg: OutboundMsg,
}

} // verus!
