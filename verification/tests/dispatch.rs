use game_rooms::hub::GameHub;
use game_rooms::protocol::{
    BroadcastIn, InboundEvent, JoinRoomIn, LeaveRoomIn, OutboundMsg, RoleRevealIn, RoomStatus,
    SetReadyIn, StartGameIn,
};
use game_rooms::session::{handle_disconnect, handle_event, ConnSession};

fn join_event(code: &str, uid: i64, nick: &str, create: bool) -> InboundEvent {
    InboundEvent::JoinRoom(JoinRoomIn {
        room_code: code.to_string(),
        user_id: uid,
        nick_name: nick.to_string(),
        avatar: None,
        create_if_not_exists: create,
    })
}

#[test]
fn four_players_join_ready_and_start() {
    // Four users join AB12C9 (auto-created), all set ready, the host
    // starts: status becomes Started, each of the four receives exactly
    // one private reveal, and a room_state broadcast reaches all four
    // connections.
    let mut hub = GameHub::new();
    let mut sessions: Vec<ConnSession> = (0..4).map(|_| ConnSession::new()).collect();
    for (i, uid) in [(0usize, 1i64), (1, 2), (2, 3), (3, 4)] {
        let ev = join_event("AB12C9", uid, &format!("p{uid}"), uid == 1);
        let o = handle_event(&mut hub, &mut sessions[i], 100 + i as u64, &ev, 1000 + uid);
        assert!(o.error.is_none());
        assert!(matches!(o.reply, Some(OutboundMsg::RoomState(_))));
        assert_eq!(o.broadcasts.len(), 1);
    }
    for (i, uid) in [(0usize, 1i64), (1, 2), (2, 3), (3, 4)] {
        let ev = InboundEvent::SetReady(SetReadyIn {
            room_code: "AB12C9".to_string(),
            user_id: uid,
            ready: true,
        });
        let o = handle_event(&mut hub, &mut sessions[i], 100 + i as u64, &ev, 2000);
        assert!(o.error.is_none());
        assert_eq!(o.broadcasts.len(), 1);
    }
    let start = InboundEvent::StartGame(StartGameIn {
        room_code: "AB12C9".to_string(),
        user_id: 1,
        game_key: "werewolf".to_string(),
    });
    let o = handle_event(&mut hub, &mut sessions[0], 100, &start, 3000);
    assert!(o.error.is_none());
    assert_eq!(o.broadcasts.len(), 1);
    let (state, targets) = &o.broadcasts[0];
    assert_eq!(state.status, RoomStatus::Started);
    assert_eq!(targets.len(), 4, "the snapshot reaches all four connections");
    let mut conns: Vec<u64> = targets.iter().map(|(_, c)| *c).collect();
    conns.sort();
    assert_eq!(conns, vec![100, 101, 102, 103]);
    // exactly one private reveal per member, unicast to its own connection
    assert_eq!(o.unicasts.len(), 4);
    let mut revealed: Vec<i64> = o.unicasts.iter().map(|d| d.user_id).collect();
    revealed.sort();
    assert_eq!(revealed, vec![1, 2, 3, 4]);
    for d in &o.unicasts {
        assert!(matches!(d.msg, OutboundMsg::RoleReveal(_)));
        assert_eq!(d.conn, 100 + (d.user_id as u64 - 1));
    }
}

#[test]
fn unknown_event_types_answer_with_an_error_envelope() {
    let mut hub = GameHub::new();
    let mut sess = ConnSession::new();
    let ev = InboundEvent::Unknown("dance".to_string());
    let o = handle_event(&mut hub, &mut sess, 7, &ev, 1000);
    match o.reply {
        Some(OutboundMsg::Error(m)) => assert_eq!(m, "Unknown type: dance"),
        other => panic!("expected an error reply, got {:?}", other),
    }
    assert!(o.broadcasts.is_empty());
    assert!(o.unicasts.is_empty());
}

#[test]
fn refused_operations_answer_the_caller_only() {
    let mut hub = GameHub::new();
    let mut sess = ConnSession::new();
    let ev = InboundEvent::SetReady(SetReadyIn {
        room_code: "AB12C9".to_string(),
        user_id: 1,
        ready: true,
    });
    let o = handle_event(&mut hub, &mut sess, 7, &ev, 1000);
    assert!(o.error.is_some());
    assert!(matches!(o.reply, Some(OutboundMsg::Error(_))));
    assert!(o.broadcasts.is_empty());
}

#[test]
fn joining_another_room_leaves_the_old_one_first() {
    let mut hub = GameHub::new();
    let mut keeper = ConnSession::new();
    let o = handle_event(&mut hub, &mut keeper, 1, &join_event("AAAAAA", 10, "stay", true), 1000);
    assert!(o.error.is_none());
    let mut mover = ConnSession::new();
    handle_event(&mut hub, &mut mover, 2, &join_event("AAAAAA", 20, "move", false), 2000);
    let o = handle_event(&mut hub, &mut mover, 2, &join_event("BBBBBB", 20, "move", true), 3000);
    assert!(o.error.is_none());
    // one broadcast for the old room (now without the mover), one for the new
    assert_eq!(o.broadcasts.len(), 2);
    let (old_state, _) = &o.broadcasts[0];
    assert_eq!(old_state.room_code, "AAAAAA");
    assert_eq!(old_state.members.len(), 1);
    assert_eq!(old_state.members[0].user_id, 10);
    let (new_state, _) = &o.broadcasts[1];
    assert_eq!(new_state.room_code, "BBBBBB");
    assert_eq!(new_state.members[0].user_id, 20);
}

#[test]
fn leave_event_clears_only_the_matching_binding() {
    let mut hub = GameHub::new();
    let mut sess = ConnSession::new();
    handle_event(&mut hub, &mut sess, 1, &join_event("AAAAAA", 10, "a", true), 1000);
    handle_event(&mut hub, &mut sess, 1, &join_event("AAAAAA", 11, "b", false), 1500);
    let ev = InboundEvent::LeaveRoom(LeaveRoomIn {
        room_code: "AAAAAA".to_string(),
        user_id: 10,
    });
    let mut other = ConnSession::new();
    let o = handle_event(&mut hub, &mut other, 2, &ev, 2000);
    assert_eq!(o.broadcasts.len(), 1, "remaining members see the departure");
    assert!(o.reply.is_none());
}

#[test]
fn broadcast_event_fans_out_to_every_member() {
    let mut hub = GameHub::new();
    let mut a = ConnSession::new();
    let mut b = ConnSession::new();
    handle_event(&mut hub, &mut a, 1, &join_event("AAAAAA", 10, "a", true), 1000);
    handle_event(&mut hub, &mut b, 2, &join_event("AAAAAA", 11, "b", false), 1500);
    let ev = InboundEvent::Broadcast(BroadcastIn {
        room_code: "AAAAAA".to_string(),
        user_id: 10,
        text: "soup's on".to_string(),
    });
    let o = handle_event(&mut hub, &mut a, 1, &ev, 60_000);
    assert!(o.error.is_none());
    assert_eq!(o.unicasts.len(), 2);
    // a second message within the window is refused with an error reply
    let o2 = handle_event(&mut hub, &mut a, 1, &ev, 60_100);
    assert!(o2.error.is_some());
    assert!(o2.unicasts.is_empty());
}

#[test]
fn disconnect_cleanup_runs_leave_and_is_idempotent() {
    let mut hub = GameHub::new();
    let mut stay = ConnSession::new();
    let mut drop_conn = ConnSession::new();
    handle_event(&mut hub, &mut stay, 1, &join_event("AAAAAA", 10, "a", true), 1000);
    handle_event(&mut hub, &mut drop_conn, 2, &join_event("AAAAAA", 11, "b", false), 1500);
    let broadcasts = handle_disconnect(&mut hub, &mut drop_conn);
    assert_eq!(broadcasts.len(), 1);
    let (state, targets) = &broadcasts[0];
    assert_eq!(state.members.len(), 1);
    assert_eq!(state.members[0].user_id, 10);
    assert_eq!(targets.len(), 1);
    // running the cleanup again is a no-op
    let again = handle_disconnect(&mut hub, &mut drop_conn);
    assert!(again.is_empty());
    // the last member's disconnect deletes the room silently
    let last = handle_disconnect(&mut hub, &mut stay);
    assert!(last.is_empty());
}

#[test]
fn role_reveal_relay_is_host_only_and_needs_a_started_game() {
    let mut hub = GameHub::new();
    let mut host = ConnSession::new();
    let mut guest = ConnSession::new();
    handle_event(&mut hub, &mut host, 1, &join_event("AAAAAA", 10, "host", true), 1000);
    handle_event(&mut hub, &mut guest, 2, &join_event("AAAAAA", 11, "guest", false), 1500);
    let reveal = |from: i64| {
        InboundEvent::RoleReveal(RoleRevealIn {
            room_code: "AAAAAA".to_string(),
            user_id: from,
            to_user_id: 11,
            role: game_rooms::protocol::Role::Wolf,
            wolf_user_ids: vec![11],
            wolf_count: 1,
            total_players: 2,
        })
    };
    // before the game starts the relay is refused
    let o = handle_event(&mut hub, &mut host, 1, &reveal(10), 2000);
    assert!(o.error.is_some());
    for uid in [10, 11] {
        let ev = InboundEvent::SetReady(SetReadyIn {
            room_code: "AAAAAA".to_string(),
            user_id: uid,
            ready: true,
        });
        handle_event(&mut hub, &mut host, 1, &ev, 2500);
    }
    let start = InboundEvent::StartGame(StartGameIn {
        room_code: "AAAAAA".to_string(),
        user_id: 10,
        game_key: "werewolf".to_string(),
    });
    handle_event(&mut hub, &mut host, 1, &start, 3000);
    // only the host may relay
    let o = handle_event(&mut hub, &mut guest, 2, &reveal(11), 4000);
    assert!(o.error.is_some());
    // the host's relay is unicast to the recipient's connection
    let o = handle_event(&mut hub, &mut host, 1, &reveal(10), 5000);
    assert!(o.error.is_none());
    assert_eq!(o.unicasts.len(), 1);
    assert_eq!(o.unicasts[0].user_id, 11);
    assert_eq!(o.unicasts[0].conn, 2);
    match &o.unicasts[0].msg {
        OutboundMsg::RoleReveal(rr) => {
            assert_eq!(rr.to_user_id, 11);
            assert_eq!(rr.wolf_user_ids, vec![11]);
        }
        other => panic!("expected a reveal, got {:?}", other),
    }
}

#[test]
fn malformed_room_codes_are_refused_before_any_lookup() {
    let mut hub = GameHub::new();
    let mut sess = ConnSession::new();
    // bind the session to a live room first
    handle_event(&mut hub, &mut sess, 1, &join_event("AAAAAA", 10, "a", true), 1000);
    let bad_events = [
        join_event("bad!", 10, "a", true),
        InboundEvent::LeaveRoom(LeaveRoomIn {
            room_code: "bad!".to_string(),
            user_id: 10,
        }),
        InboundEvent::SetReady(SetReadyIn {
            room_code: "bad!".to_string(),
            user_id: 10,
            ready: true,
        }),
        InboundEvent::StartGame(StartGameIn {
            room_code: "bad!".to_string(),
            user_id: 10,
            game_key: "werewolf".to_string(),
        }),
        InboundEvent::Broadcast(BroadcastIn {
            room_code: "bad!".to_string(),
            user_id: 10,
            text: "hi".to_string(),
        }),
        InboundEvent::RoleReveal(RoleRevealIn {
            room_code: "bad!".to_string(),
            user_id: 10,
            to_user_id: 10,
            role: game_rooms::protocol::Role::Wolf,
            wolf_user_ids: vec![],
            wolf_count: 0,
            total_players: 0,
        }),
    ];
    for ev in bad_events {
        let o = handle_event(&mut hub, &mut sess, 1, &ev, 2000);
        assert_eq!(o.error, Some(game_rooms::errors::GameError::InvalidFormat));
        match o.reply {
            Some(OutboundMsg::Error(m)) => assert_eq!(m, "malformed room code"),
            other => panic!("expected a format error reply, got {:?}", other),
        }
        assert!(o.broadcasts.is_empty());
        assert!(o.unicasts.is_empty());
    }
    // in particular, a malformed join did not tear the user out of the
    // old room: the membership is still there
    let o = handle_event(&mut hub, &mut sess, 1, &join_event("AAAAAA", 10, "a", false), 3000);
    assert!(o.error.is_none());
    match o.reply {
        Some(OutboundMsg::RoomState(st)) => {
            assert_eq!(st.members.len(), 1);
            assert_eq!(st.members[0].user_id, 10);
        }
        other => panic!("expected a snapshot reply, got {:?}", other),
    }
}
