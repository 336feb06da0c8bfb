//! Data types of the instant-messaging side channel: user signatures
//! and the room endpoints proxied through the IM service.

use vstd::prelude::*;

verus! {

/// A minted user signature handed to the IM client SDK.
#[derive(Debug, Clone)]
pub struct ImUserSigOut {
    pub sdk_app_id: u64,
    pub identifier: String,
    pub user_id: i64,
    pub user_sig: String,
    pub expire_at: i64,
}

/// The IM application credentials.
#[derive(Debug, Clone)]
pub struct ImConfig {
    pub sdk_app_id: u64,
    pub secret_key: String,
    pub expire_seconds: u64,
}

/// One listed IM room.
#[derive(Debug, Clone)]
pub struct ImRoomOut {
    pub group_id: String,
    pub name: String,
    pub member_num: Option<u32>,
    pub owner_identifier: Option<String>,
}

/// The listed IM rooms.
#[derive(Debug, Clone)]
pub struct ImRoomListOut {
    pub rooms: Vec<ImRoomOut>,
}

/// Acknowledgement of a started IM game.
#[derive(Debug, Clone)]
pub struct ImStartGameOut {
    pub group_id: String,
    pub started_at: i64,
    pub total_players: u32,
}

/// An uplinked vote; `None` is an abstention.
#[derive(Debug, Clone)]
pub struct ImVoteIn {
    pub target_identifier: Option<String>,
}

/// Progress of the current voting round.
#[derive(Debug, Clone)]
pub struct ImVoteOut {
    pub group_id: String,
    pub voter_identifier: String,
    pub voted_count: u32,
    pub total_alive: u32,
    pub finished: bool,
}

/// A request to dismiss an IM room.
#[derive(Debug, Clone)]
pub struct ImDismissRoomIn {
    pub group_id: String,
}

/// Acknowledgement of a dismissed IM room.
#[derive(Debug, Clone)]
pub struct ImDismissRoomOut {
    pub group_id: String,
}

} // verus!
