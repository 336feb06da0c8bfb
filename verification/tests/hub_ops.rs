use game_rooms::errors::GameError;
use game_rooms::hub::GameHub;
use game_rooms::protocol::{JoinRoomIn, OutboundMsg, RoomStatus};

fn join(code: &str, uid: i64, nick: &str, create: bool) -> JoinRoomIn {
    JoinRoomIn {
        room_code: code.to_string(),
        user_id: uid,
        nick_name: nick.to_string(),
        avatar: None,
        create_if_not_exists: create,
    }
}

#[test]
fn join_missing_room_without_create_is_not_found() {
    let mut hub = GameHub::new();
    let r = hub.join_room(&join("AB12C9", 1, "ada", false), 11, 1000);
    assert!(matches!(r, Err(GameError::RoomNotFound)));
}

#[test]
fn join_with_malformed_code_is_rejected_before_lookup() {
    let mut hub = GameHub::new();
    let r = hub.join_room(&join("oops", 1, "ada", true), 11, 1000);
    assert!(matches!(r, Err(GameError::InvalidFormat)));
}

#[test]
fn first_join_creates_the_room_and_makes_the_joiner_host() {
    let mut hub = GameHub::new();
    let st = hub.join_room(&join("AB12C9", 7, "ada", true), 11, 1000).unwrap();
    assert_eq!(st.room_code, "AB12C9");
    assert_eq!(st.host_user_id, 7);
    assert_eq!(st.status, RoomStatus::Lobby);
    assert_eq!(st.members.len(), 1);
    assert_eq!(st.members[0].user_id, 7);
    assert!(st.members[0].is_host);
    assert!(!st.members[0].ready);
    assert!(st.game.is_none());
}

#[test]
fn rejoin_updates_profile_but_keeps_ready_and_join_time() {
    let mut hub = GameHub::new();
    hub.join_room(&join("AB12C9", 7, "ada", true), 11, 1000).unwrap();
    hub.set_ready("AB12C9", 7, true).unwrap();
    let st = hub
        .join_room(&join("AB12C9", 7, "countess", false), 12, 5000)
        .unwrap();
    assert_eq!(st.members.len(), 1);
    assert_eq!(st.members[0].nick_name, "countess");
    assert!(st.members[0].ready, "ready survives a reconnect");
    assert_eq!(st.members[0].joined_at, 1000, "join time survives a reconnect");
}

#[test]
fn members_snapshot_is_sorted_by_join_time() {
    let mut hub = GameHub::new();
    hub.join_room(&join("AB12C9", 1, "late", true), 11, 3000).unwrap();
    hub.join_room(&join("AB12C9", 2, "early", false), 12, 1000).unwrap();
    let st = hub.join_room(&join("AB12C9", 3, "middle", false), 13, 2000).unwrap();
    let order: Vec<i64> = st.members.iter().map(|m| m.user_id).collect();
    assert_eq!(order, vec![2, 3, 1]);
}

#[test]
fn member_set_tracks_joins_and_leaves() {
    let mut hub = GameHub::new();
    hub.join_room(&join("AB12C9", 1, "a", true), 11, 1000).unwrap();
    hub.join_room(&join("AB12C9", 2, "b", false), 12, 2000).unwrap();
    hub.join_room(&join("AB12C9", 3, "c", false), 13, 3000).unwrap();
    let st = hub.leave_room("AB12C9", 2).expect("room still has members");
    let mut ids: Vec<i64> = st.members.iter().map(|m| m.user_id).collect();
    ids.sort();
    assert_eq!(ids, vec![1, 3]);
    // the last leaves: the room is deleted ...
    assert!(hub.leave_room("AB12C9", 1).is_some());
    assert!(hub.leave_room("AB12C9", 3).is_none());
    // ... so a non-creating join now fails
    let r = hub.join_room(&join("AB12C9", 9, "d", false), 19, 4000);
    assert!(matches!(r, Err(GameError::RoomNotFound)));
}

#[test]
fn host_succession_picks_earliest_join_then_smallest_id() {
    let mut hub = GameHub::new();
    hub.join_room(&join("AB12C9", 5, "host", true), 11, 1000).unwrap();
    hub.join_room(&join("AB12C9", 9, "tied-late", false), 12, 2000).unwrap();
    hub.join_room(&join("AB12C9", 4, "tied-early", false), 13, 2000).unwrap();
    let st = hub.leave_room("AB12C9", 5).unwrap();
    // 9 and 4 both joined at 2000; the smaller user id wins
    assert_eq!(st.host_user_id, 4);
    let st2 = hub.leave_room("AB12C9", 4).unwrap();
    assert_eq!(st2.host_user_id, 9);
}

#[test]
fn leaving_a_room_one_is_not_in_returns_the_prior_state() {
    let mut hub = GameHub::new();
    hub.join_room(&join("AB12C9", 1, "a", true), 11, 1000).unwrap();
    let st = hub.leave_room("AB12C9", 999).expect("room is untouched");
    assert_eq!(st.members.len(), 1);
    assert_eq!(st.host_user_id, 1);
    assert!(hub.leave_room("ZZZZZZ", 1).is_none());
}

#[test]
fn set_ready_is_idempotent_and_only_legal_in_lobby() {
    let mut hub = GameHub::new();
    hub.join_room(&join("AB12C9", 1, "a", true), 11, 1000).unwrap();
    let st1 = hub.set_ready("AB12C9", 1, true).unwrap();
    let st2 = hub.set_ready("AB12C9", 1, true).unwrap();
    assert_eq!(st1.members[0].ready, st2.members[0].ready);
    assert_eq!(st1.members[0].joined_at, st2.members[0].joined_at);
    assert_eq!(st1.host_user_id, st2.host_user_id);
    assert!(matches!(
        hub.set_ready("AB12C9", 2, true),
        Err(GameError::NotAMember)
    ));
    assert!(matches!(
        hub.set_ready("ZZZZZZ", 1, true),
        Err(GameError::RoomNotFound)
    ));
    hub.start_game("AB12C9", 1, "werewolf".to_string(), 9000).unwrap();
    assert!(matches!(
        hub.set_ready("AB12C9", 1, false),
        Err(GameError::NotInLobby)
    ));
}

#[test]
fn start_game_requires_host_lobby_and_full_readiness() {
    let mut hub = GameHub::new();
    hub.join_room(&join("AB12C9", 1, "a", true), 11, 1000).unwrap();
    hub.join_room(&join("AB12C9", 2, "b", false), 12, 2000).unwrap();
    assert!(matches!(
        hub.start_game("ZZZZZZ", 1, "werewolf".to_string(), 5000),
        Err(GameError::RoomNotFound)
    ));
    assert!(matches!(
        hub.start_game("AB12C9", 2, "werewolf".to_string(), 5000),
        Err(GameError::NotHost)
    ));
    assert!(matches!(
        hub.start_game("AB12C9", 1, "werewolf".to_string(), 5000),
        Err(GameError::NotAllReady)
    ));
    hub.set_ready("AB12C9", 1, true).unwrap();
    hub.set_ready("AB12C9", 2, true).unwrap();
    let (st, reveals) = hub.start_game("AB12C9", 1, "werewolf".to_string(), 5000).unwrap();
    assert_eq!(st.status, RoomStatus::Started);
    let game = st.game.expect("game summary present");
    assert_eq!(game.key, "werewolf");
    assert_eq!(game.started_at, 5000);
    assert_eq!(reveals.len(), 2);
    assert!(matches!(
        hub.start_game("AB12C9", 1, "werewolf".to_string(), 6000),
        Err(GameError::NotInLobby)
    ));
}

fn started_trio() -> GameHub {
    let mut hub = GameHub::new();
    hub.join_room(&join("AB12C9", 1, "a", true), 11, 1000).unwrap();
    hub.join_room(&join("AB12C9", 2, "b", false), 12, 2000).unwrap();
    hub.join_room(&join("AB12C9", 3, "c", false), 13, 3000).unwrap();
    for uid in 1..=3 {
        hub.set_ready("AB12C9", uid, true).unwrap();
    }
    hub.start_game("AB12C9", 1, "werewolf".to_string(), 5000).unwrap();
    hub
}

#[test]
fn vote_round_eliminates_the_majority_target() {
    let mut hub = started_trio();
    let o1 = hub.cast_vote("AB12C9", 1, Some(2)).unwrap();
    assert_eq!((o1.voted_count, o1.total_alive, o1.finished), (1, 3, false));
    assert_eq!(o1.eliminated, None);
    let o2 = hub.cast_vote("AB12C9", 2, Some(2)).unwrap();
    assert!(!o2.finished);
    let o3 = hub.cast_vote("AB12C9", 3, Some(1)).unwrap();
    assert!(o3.finished);
    assert_eq!(o3.eliminated, Some(2));
    // the eliminated player may no longer vote; the others start a fresh round
    assert!(matches!(
        hub.cast_vote("AB12C9", 2, Some(1)),
        Err(GameError::NotAlive)
    ));
    let o4 = hub.cast_vote("AB12C9", 1, None).unwrap();
    assert_eq!((o4.voted_count, o4.total_alive, o4.finished), (1, 2, false));
}

#[test]
fn revoting_overwrites_instead_of_double_counting() {
    let mut hub = started_trio();
    hub.cast_vote("AB12C9", 1, Some(2)).unwrap();
    let o = hub.cast_vote("AB12C9", 1, Some(3)).unwrap();
    assert_eq!(o.voted_count, 1, "a re-vote does not add a ballot");
    hub.cast_vote("AB12C9", 2, Some(3)).unwrap();
    let last = hub.cast_vote("AB12C9", 3, None).unwrap();
    assert!(last.finished);
    assert_eq!(last.eliminated, Some(3), "only the overwritten vote counts");
}

#[test]
fn tied_round_eliminates_nobody_and_resets_votes() {
    let mut hub = started_trio();
    hub.cast_vote("AB12C9", 1, Some(2)).unwrap();
    hub.cast_vote("AB12C9", 2, Some(1)).unwrap();
    let o = hub.cast_vote("AB12C9", 3, None).unwrap();
    assert!(o.finished);
    assert_eq!(o.eliminated, None);
    // the next round starts from zero recorded votes
    let o2 = hub.cast_vote("AB12C9", 1, None).unwrap();
    assert_eq!((o2.voted_count, o2.total_alive, o2.finished), (1, 3, false));
}

#[test]
fn voting_needs_a_started_game() {
    let mut hub = GameHub::new();
    hub.join_room(&join("AB12C9", 1, "a", true), 11, 1000).unwrap();
    assert!(matches!(
        hub.cast_vote("AB12C9", 1, None),
        Err(GameError::NotStarted)
    ));
    assert!(matches!(
        hub.cast_vote("ZZZZZZ", 1, None),
        Err(GameError::RoomNotFound)
    ));
}

#[test]
fn broadcast_rate_limit_enforces_the_minimum_interval() {
    let mut hub = GameHub::new();
    hub.join_room(&join("AB12C9", 1, "a", true), 11, 1000).unwrap();
    hub.join_room(&join("AB12C9", 2, "b", false), 12, 2000).unwrap();
    let ds = hub.broadcast("AB12C9", 1, "hello", 10_000).unwrap();
    assert_eq!(ds.len(), 2);
    for d in &ds {
        match &d.msg {
            OutboundMsg::Chat { from_user_id, text, at } => {
                assert_eq!(*from_user_id, 1);
                assert_eq!(text, "hello");
                assert_eq!(*at, 10_000);
            }
            other => panic!("expected a chat message, got {:?}", other),
        }
    }
    // 200 ms later: dropped; exactly one of the two calls is delivered
    assert!(matches!(
        hub.broadcast("AB12C9", 1, "again", 10_200),
        Err(GameError::RateLimited)
    ));
    // 300 ms after the accepted one: delivered again
    assert!(hub.broadcast("AB12C9", 1, "later", 10_300).is_ok());
    // another sender has its own window
    assert!(hub.broadcast("AB12C9", 2, "mine", 10_301).is_ok());
    assert!(matches!(
        hub.broadcast("AB12C9", 9, "ghost", 10_400),
        Err(GameError::NotAMember)
    ));
}

#[test]
fn forward_reaches_exactly_the_recipient() {
    let mut hub = GameHub::new();
    hub.join_room(&join("AB12C9", 1, "a", true), 11, 1000).unwrap();
    hub.join_room(&join("AB12C9", 2, "b", false), 12, 2000).unwrap();
    let d = hub
        .forward_to_user("AB12C9", 2, OutboundMsg::Error("psst".to_string()))
        .unwrap();
    assert_eq!(d.user_id, 2);
    assert_eq!(d.conn, 12);
    assert!(matches!(
        hub.forward_to_user("AB12C9", 9, OutboundMsg::Error("x".to_string())),
        Err(GameError::NotAMember)
    ));
}

#[test]
fn generated_codes_are_fresh_and_well_formed() {
    let mut hub = GameHub::new();
    let code = hub.generate_room_code().unwrap();
    assert!(game_rooms::codes::validate_room_code(&code).is_ok());
    hub.join_room(&join(&code, 1, "a", true), 11, 1000).unwrap();
    let other = hub.generate_room_code().unwrap();
    assert_ne!(code, other);
}
