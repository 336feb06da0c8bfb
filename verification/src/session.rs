//! The per-connection dispatcher.
//!
//! The transport layer decodes each inbound envelope into an
//! [`InboundEvent`] and hands it here together with the connection's
//! delivery handle and the current time.  The dispatcher drives the
//! registry, tracks which room/user pair the connection last joined
//! (for cleanup on disconnect), and says which messages go where: a
//! snapshot broadcast is computed once and addressed to every member's
//! queue, private reveals are unicast only, and every refused operation
//! answers the caller with an error envelope — the connection is never
//! closed over it.

use vstd::prelude::*;
use crate::codes::{is_valid_code, validate_room_code};
use crate::errors::GameError;
use crate::hub::{
    broadcast_post, codes_distinct, join_room_post, leave_state_post, lemma_room_idx,
    lemma_room_idx_stable, relay_reveal_post, room_idx, set_ready_post, set_ready_state_post,
    snapshot_targets_post, start_game_state_post, GameHub,
};
use crate::protocol::{Delivery, InboundEvent, OutboundMsg, RoomStateOut};
use crate::roles::reveal_matches;
use crate::room::{is_snapshot_of, member_idx, member_ids, Room};
use crate::text::str_eq;

verus! {

/// Which room/user pair this connection last joined.
pub struct ConnSession {
    pub room_code: Option<String>,
    pub user_id: Option<i64>,
}

/// The session is bound to this room and user.
pub open spec fn bound_to(s: ConnSession, code: Seq<char>, uid: i64) -> bool {
    &&& s.room_code matches Some(c) && c@ == code
    &&& s.user_id == Some(uid)
}

/// The session is bound to something.
pub open spec fn is_bound(s: ConnSession) -> bool {
    s.room_code is Some && s.user_id is Some
}

/// Everything one inbound event produces: snapshot broadcasts (one
/// snapshot paired with all the member queues it goes to), unicasts,
/// the direct reply to the caller, and the error being reported, if
/// any.
pub struct HandleOutcome {
    pub broadcasts: Vec<(RoomStateOut, Vec<(i64, u64)>)>,
    pub unicasts: Vec<Delivery>,
    pub reply: Option<OutboundMsg>,
    pub error: Option<GameError>,
    /// The registry state after the implicit leave that precedes a
    /// join switching rooms; equal to the prior state otherwise.
    pub mid: Ghost<Seq<Room>>,
}

impl ConnSession {
    /// A fresh, unbound session.
    pub fn new() -> (r: ConnSession)
        ensures
            !is_bound(r),
            r.room_code is None,
            r.user_id is None,
    {
        ConnSession { room_code: None, user_id: None }
    }
}

/// The room code an event carries, if its kind names one.
pub open spec fn event_code(event: InboundEvent) -> Option<Seq<char>> {
    match event {
        InboundEvent::JoinRoom(input) => Some(input.room_code@),
        InboundEvent::LeaveRoom(input) => Some(input.room_code@),
        InboundEvent::SetReady(input) => Some(input.room_code@),
        InboundEvent::StartGame(input) => Some(input.room_code@),
        InboundEvent::Broadcast(input) => Some(input.room_code@),
        InboundEvent::RoleReveal(input) => Some(input.room_code@),
        InboundEvent::Unknown(_) => None,
    }
}

/// The event carries a malformed room code.
pub open spec fn has_invalid_code(event: InboundEvent) -> bool {
    match event_code(event) {
        Some(c) => !is_valid_code(c),
        None => false,
    }
}

/// What a format refusal looks like: nothing happens, and the caller
/// alone is told the code is malformed.
pub open spec fn format_refused(
    old_rs: Seq<Room>,
    new_rs: Seq<Room>,
    old_s: ConnSession,
    new_s: ConnSession,
    o: HandleOutcome,
) -> bool {
    &&& new_rs == old_rs
    &&& new_s == old_s
    &&& o.broadcasts@.len() == 0
    &&& o.unicasts@.len() == 0
    &&& o.error == Some(GameError::InvalidFormat)
    &&& (o.reply matches Some(OutboundMsg::Error(m)) && m@
        == GameError::InvalidFormat.spec_message())
}

/// What handling one event does: a malformed room code is rejected
/// before any registry lookup; otherwise the registry effect of each
/// event kind is exactly its operation's transition, and the outcome
/// lists the messages that effect requires.
pub open spec fn handle_event_post(
    old_rs: Seq<Room>,
    new_rs: Seq<Room>,
    old_s: ConnSession,
    new_s: ConnSession,
    conn: u64,
    event: InboundEvent,
    now_ms: i64,
    o: HandleOutcome,
) -> bool {
    if has_invalid_code(event) {
        format_refused(old_rs, new_rs, old_s, new_s, o)
    } else {
        handle_dispatch_post(old_rs, new_rs, old_s, new_s, conn, event, now_ms, o)
    }
}

/// The per-kind dispatch effect, for events whose room code (if any)
/// is well-formed.
pub open spec fn handle_dispatch_post(
    old_rs: Seq<Room>,
    new_rs: Seq<Room>,
    old_s: ConnSession,
    new_s: ConnSession,
    conn: u64,
    event: InboundEvent,
    now_ms: i64,
    o: HandleOutcome,
) -> bool {
    match event {
        InboundEvent::JoinRoom(input) => {
            let switching = is_bound(old_s) && !bound_to_code(old_s, input.room_code@);
            let base: int = if switching && room_idx(o.mid@, old_s.room_code->Some_0@) >= 0 {
                1int
            } else {
                0int
            };
            &&& (if switching {
                &&& leave_state_post(
                    old_rs,
                    o.mid@,
                    old_s.room_code->Some_0@,
                    old_s.user_id->Some_0,
                )
                &&& (room_idx(o.mid@, old_s.room_code->Some_0@) >= 0 ==> snapshot_targets_post(
                    o.mid@,
                    old_s.room_code->Some_0@,
                    Ok(o.broadcasts@[0]),
                ))
            } else {
                o.mid@ == old_rs
            })
            &&& match o.error {
                Some(e) => {
                    &&& join_room_post(o.mid@, new_rs, input, conn, now_ms, Err(e))
                    &&& (o.reply matches Some(OutboundMsg::Error(m)) && m@ == e.spec_message())
                    &&& new_s == old_s
                    &&& o.broadcasts@.len() == base
                    &&& o.unicasts@.len() == 0
                },
                None => {
                    &&& (o.reply matches Some(OutboundMsg::RoomState(st)) && join_room_post(
                        o.mid@,
                        new_rs,
                        input,
                        conn,
                        now_ms,
                        Ok(st),
                    ))
                    &&& bound_to(new_s, input.room_code@, input.user_id)
                    &&& o.broadcasts@.len() == base + 1
                    &&& snapshot_targets_post(
                        new_rs,
                        input.room_code@,
                        Ok(o.broadcasts@[base]),
                    )
                    &&& o.unicasts@.len() == 0
                },
            }
        },
        InboundEvent::LeaveRoom(input) => {
            &&& leave_state_post(old_rs, new_rs, input.room_code@, input.user_id)
            &&& (if room_idx(new_rs, input.room_code@) >= 0 {
                o.broadcasts@.len() == 1 && snapshot_targets_post(
                    new_rs,
                    input.room_code@,
                    Ok(o.broadcasts@[0]),
                )
            } else {
                o.broadcasts@.len() == 0
            })
            &&& (if bound_to(old_s, input.room_code@, input.user_id) {
                !is_bound(new_s)
            } else {
                new_s == old_s
            })
            &&& o.unicasts@.len() == 0
            &&& o.reply is None
            &&& o.error is None
        },
        InboundEvent::SetReady(input) => {
            &&& new_s == old_s
            &&& match o.error {
                Some(e) => {
                    &&& set_ready_post(
                        old_rs,
                        new_rs,
                        input.room_code@,
                        input.user_id,
                        input.ready,
                        Err(e),
                    )
                    &&& (o.reply matches Some(OutboundMsg::Error(m)) && m@ == e.spec_message())
                    &&& o.broadcasts@.len() == 0
                },
                None => {
                    &&& set_ready_state_post(
                        old_rs,
                        new_rs,
                        input.room_code@,
                        input.user_id,
                        input.ready,
                    )
                    &&& o.broadcasts@.len() == 1
                    &&& snapshot_targets_post(new_rs, input.room_code@, Ok(o.broadcasts@[0]))
                    &&& o.reply is None
                },
            }
            &&& o.unicasts@.len() == 0
        },
        InboundEvent::StartGame(input) => {
            &&& new_s == old_s
            &&& match o.error {
                Some(e) => {
                    &&& crate::hub::start_game_post(
                        old_rs,
                        new_rs,
                        input.room_code@,
                        input.user_id,
                        input.game_key@,
                        now_ms,
                        Err(e),
                    )
                    &&& (o.reply matches Some(OutboundMsg::Error(m)) && m@ == e.spec_message())
                    &&& o.broadcasts@.len() == 0
                    &&& o.unicasts@.len() == 0
                },
                None => {
                    let k = room_idx(old_rs, input.room_code@);
                    &&& start_game_state_post(
                        old_rs,
                        new_rs,
                        input.room_code@,
                        input.user_id,
                        input.game_key@,
                        now_ms,
                    )
                    &&& o.broadcasts@.len() == 1
                    &&& is_snapshot_of(new_rs[k], o.broadcasts@[0].0)
                    &&& o.broadcasts@[0].1@.len() == new_rs[k].members@.len()
                    &&& (forall|j: int|
                        0 <= j < o.broadcasts@[0].1@.len() ==> #[trigger] o.broadcasts@[0].1@[j]
                            == (new_rs[k].members@[j].user_id, new_rs[k].members@[j].conn))
                    &&& (new_rs[k].game matches Some(g) && {
                        &&& o.unicasts@.len() == g.roles@.len()
                        &&& (forall|i: int|
                            0 <= i < g.roles@.len() ==> {
                                let d = #[trigger] o.unicasts@[i];
                                &&& d.user_id == g.roles@[i].0
                                &&& d.conn == new_rs[k].members@[
                                    member_idx(new_rs[k].members@, g.roles@[i].0)
                                ].conn
                                &&& (d.msg matches OutboundMsg::RoleReveal(rr) && reveal_matches(
                                    g.roles@,
                                    g.roles@[i].0,
                                    g.roles@[i].1,
                                    rr,
                                ))
                            })
                    })
                    &&& o.reply is None
                },
            }
        },
        InboundEvent::Broadcast(input) => {
            &&& new_s == old_s
            &&& o.broadcasts@.len() == 0
            &&& match o.error {
                Some(e) => {
                    &&& broadcast_post(
                        old_rs,
                        new_rs,
                        input.room_code@,
                        input.user_id,
                        input.text@,
                        now_ms,
                        Err(e),
                    )
                    &&& (o.reply matches Some(OutboundMsg::Error(m)) && m@ == e.spec_message())
                    &&& o.unicasts@.len() == 0
                },
                None => {
                    &&& broadcast_post(
                        old_rs,
                        new_rs,
                        input.room_code@,
                        input.user_id,
                        input.text@,
                        now_ms,
                        Ok(o.unicasts),
                    )
                    &&& o.reply is None
                },
            }
        },
        InboundEvent::RoleReveal(input) => {
            &&& new_s == old_s
            &&& new_rs == old_rs
            &&& o.broadcasts@.len() == 0
            &&& match o.error {
                Some(e) => {
                    &&& relay_reveal_post(old_rs, input, Err(e))
                    &&& (o.reply matches Some(OutboundMsg::Error(m)) && m@ == e.spec_message())
                    &&& o.unicasts@.len() == 0
                },
                None => {
                    &&& o.unicasts@.len() == 1
                    &&& relay_reveal_post(old_rs, input, Ok(o.unicasts@[0]))
                    &&& o.reply is None
                },
            }
        },
        InboundEvent::Unknown(t) => {
            &&& new_rs == old_rs
            &&& new_s == old_s
            &&& o.broadcasts@.len() == 0
            &&& o.unicasts@.len() == 0
            &&& o.error == Some(GameError::Unknown)
            &&& (o.reply matches Some(OutboundMsg::Error(m)) && m@ == "Unknown type: "@ + t@)
        },
    }
}

/// The session's bound code is this one.
pub open spec fn bound_to_code(s: ConnSession, code: Seq<char>) -> bool {
    s.room_code matches Some(c) && c@ == code
}

/// Whether the event's room code, if it names one, is well-formed.
fn event_code_ok(event: &InboundEvent) -> (r: bool)
    ensures
        r == !has_invalid_code(*event),
{
    let code: Option<&String> = match event {
        InboundEvent::JoinRoom(input) => Some(&input.room_code),
        InboundEvent::LeaveRoom(input) => Some(&input.room_code),
        InboundEvent::SetReady(input) => Some(&input.room_code),
        InboundEvent::StartGame(input) => Some(&input.room_code),
        InboundEvent::Broadcast(input) => Some(&input.room_code),
        InboundEvent::RoleReveal(input) => Some(&input.room_code),
        InboundEvent::Unknown(_) => None,
    };
    match code {
        Some(c) => match validate_room_code(c.as_str()) {
            Ok(_) => true,
            Err(_) => false,
        },
        None => true,
    }
}

/// Dispatches one decoded inbound event.
#[verifier::loop_isolation(false)]
pub fn handle_event(
    hub: &mut GameHub,
    sess: &mut ConnSession,
    conn: u64,
    event: &InboundEvent,
    now_ms: i64,
) -> (o: HandleOutcome)
    requires
        old(hub).wf(),
    ensures
        final(hub).wf(),
        handle_event_post(
            old(hub).rooms@,
            final(hub).rooms@,
            *old(sess),
            *final(sess),
            conn,
            *event,
            now_ms,
            o,
        ),
{
    let ghost rs0 = hub.rooms@;
    let mut o = HandleOutcome {
        broadcasts: Vec::new(),
        unicasts: Vec::new(),
        reply: None,
        error: None,
        mid: Ghost(hub.rooms@),
    };
    if !event_code_ok(event) {
        let e = GameError::InvalidFormat;
        o.reply = Some(OutboundMsg::Error(e.message().to_owned()));
        o.error = Some(e);
        return o;
    }
    match event {
        InboundEvent::JoinRoom(input) => {
            match (&sess.room_code, &sess.user_id) {
                (Some(rc), Some(uid)) => {
                    if !str_eq(rc.as_str(), input.room_code.as_str()) {
                        let _ = hub.leave_room(rc.as_str(), *uid);
                        o.mid = Ghost(hub.rooms@);
                        match hub.snapshot_targets(rc.as_str()) {
                            Ok(b) => {
                                o.broadcasts.push(b);
                            },
                            Err(_) => {},
                        }
                    }
                },
                _ => {},
            }
            match hub.join_room(input, conn, now_ms) {
                Err(e) => {
                    o.reply = Some(OutboundMsg::Error(e.message().to_owned()));
                    o.error = Some(e);
                },
                Ok(st) => {
                    sess.room_code = Some(input.room_code.clone());
                    sess.user_id = Some(input.user_id);
                    proof {
                        let mid = o.mid@;
                        let code = input.room_code@;
                        let k = room_idx(mid, code);
                        lemma_room_idx(mid, code);
                        if k < 0 {
                            lemma_room_idx(hub.rooms@, code);
                            if room_idx(hub.rooms@, code) < 0 {
                                assert(hub.rooms@[hub.rooms@.len() - 1].room_code@ != code);
                            }
                        } else {
                            lemma_room_idx_stable(mid, hub.rooms@, code, k);
                        }
                    }
                    match hub.snapshot_targets(input.room_code.as_str()) {
                        Ok(b) => {
                            o.broadcasts.push(b);
                        },
                        Err(_) => {
                            proof {
                                assert(false);
                            }
                        },
                    }
                    o.reply = Some(OutboundMsg::RoomState(st));
                },
            }
            o
        },
        InboundEvent::LeaveRoom(input) => {
            let was_mine = match (&sess.room_code, &sess.user_id) {
                (Some(rc), Some(uid)) => str_eq(rc.as_str(), input.room_code.as_str()) && *uid
                    == input.user_id,
                _ => false,
            };
            let _ = hub.leave_room(input.room_code.as_str(), input.user_id);
            match hub.snapshot_targets(input.room_code.as_str()) {
                Ok(b) => {
                    o.broadcasts.push(b);
                },
                Err(_) => {},
            }
            if was_mine {
                sess.room_code = None;
                sess.user_id = None;
            }
            proof {
                lemma_room_idx(hub.rooms@, input.room_code@);
            }
            o
        },
        InboundEvent::SetReady(input) => {
            match hub.set_ready(input.room_code.as_str(), input.user_id, input.ready) {
                Err(e) => {
                    o.reply = Some(OutboundMsg::Error(e.message().to_owned()));
                    o.error = Some(e);
                },
                Ok(_st) => {
                    proof {
                        let code = input.room_code@;
                        let k = room_idx(rs0, code);
                        lemma_room_idx(rs0, code);
                        lemma_room_idx_stable(rs0, hub.rooms@, code, k);
                    }
                    match hub.snapshot_targets(input.room_code.as_str()) {
                        Ok(b) => {
                            o.broadcasts.push(b);
                        },
                        Err(_) => {
                            proof {
                                assert(false);
                            }
                        },
                    }
                },
            }
            o
        },
        InboundEvent::StartGame(input) => {
            match hub.start_game(
                input.room_code.as_str(),
                input.user_id,
                input.game_key.clone(),
                now_ms,
            ) {
                Err(e) => {
                    o.reply = Some(OutboundMsg::Error(e.message().to_owned()));
                    o.error = Some(e);
                    o
                },
                Ok((st, reveals)) => {
                    let ghost code = input.room_code@;
                    let ghost k = room_idx(rs0, code);
                    proof {
                        lemma_room_idx(rs0, code);
                        lemma_room_idx_stable(rs0, hub.rooms@, code, k);
                    }
                    match hub.snapshot_targets(input.room_code.as_str()) {
                        Ok(b) => {
                            o.broadcasts.push((st, b.1));
                        },
                        Err(_) => {
                            proof {
                                assert(false);
                            }
                        },
                    }
                    let n = reveals.len();
                    let ghost g = hub.rooms@[k].game->Some_0;
                    let ghost members = hub.rooms@[k].members@;
                    let mut i: usize = 0;
                    while i < n
                        invariant
                            i <= n,
                            n == reveals@.len(),
                            hub.wf(),
                            hub.rooms@[k].game == Some(g),
                            k == room_idx(hub.rooms@, code),
                            0 <= k < hub.rooms@.len(),
                            members == hub.rooms@[k].members@,
                            g.roles@.len() == n,
                            assigned_ids_multiset_matches(g.roles@, members),
                            crate::hub::reveals_ok(g.roles@, reveals@),
                            o.broadcasts@.len() == 1,
                            is_snapshot_of(hub.rooms@[k], o.broadcasts@[0].0),
                            o.broadcasts@[0].1@.len() == hub.rooms@[k].members@.len(),
                            forall|j: int|
                                0 <= j < o.broadcasts@[0].1@.len() ==> #[trigger] o.broadcasts@[0].1@[j]
                                    == (hub.rooms@[k].members@[j].user_id, hub.rooms@[k].members@[j].conn),
                            o.reply is None,
                            o.error is None,
                            o.unicasts@.len() == i,
                            forall|i2: int|
                                0 <= i2 < i ==> {
                                    let d = #[trigger] o.unicasts@[i2];
                                    &&& d.user_id == g.roles@[i2].0
                                    &&& d.conn == members[member_idx(members, g.roles@[i2].0)].conn
                                    &&& (d.msg matches OutboundMsg::RoleReveal(rr)
                                        && reveal_matches(
                                        g.roles@,
                                        g.roles@[i2].0,
                                        g.roles@[i2].1,
                                        rr,
                                    ))
                                },
                        decreases n - i,
                    {
                        let p = &reveals[i];
                        let to_uid = p.0;
                        let rr = p.1.duplicate();
                        proof {
                            assert(to_uid == g.roles@[i as int].0);
                            lemma_roles_are_members(g.roles@, members, i as int);
                            let j0 = choose|j0: int|
                                0 <= j0 < member_ids(members).len() && member_ids(members)[j0]
                                    == to_uid;
                            assert(members[j0].user_id == to_uid);
                            crate::room::lemma_member_idx(members, to_uid);
                            assert(reveal_matches(g.roles@, g.roles@[i as int].0, g.roles@[i as int].1, rr));
                        }
                        match hub.forward_to_user(
                            input.room_code.as_str(),
                            to_uid,
                            OutboundMsg::RoleReveal(rr),
                        ) {
                            Ok(d) => {
                                o.unicasts.push(d);
                            },
                            Err(_) => {
                                proof {
                                    assert(false);
                                }
                            },
                        }
                        i = i + 1;
                    }
                    o
                },
            }
        },
        InboundEvent::Broadcast(input) => {
            match hub.broadcast(
                input.room_code.as_str(),
                input.user_id,
                input.text.as_str(),
                now_ms,
            ) {
                Err(e) => {
                    o.reply = Some(OutboundMsg::Error(e.message().to_owned()));
                    o.error = Some(e);
                },
                Ok(ds) => {
                    o.unicasts = ds;
                },
            }
            o
        },
        InboundEvent::RoleReveal(input) => {
            match hub.relay_reveal(input) {
                Err(e) => {
                    o.reply = Some(OutboundMsg::Error(e.message().to_owned()));
                    o.error = Some(e);
                },
                Ok(d) => {
                    o.unicasts.push(d);
                },
            }
            o
        },
        InboundEvent::Unknown(t) => {
            let mut m = "Unknown type: ".to_owned();
            m.append(t.as_str());
            o.reply = Some(OutboundMsg::Error(m));
            o.error = Some(GameError::Unknown);
            o
        },
    }
}

/// The multiset of dealt ids is the multiset of member ids.
pub open spec fn assigned_ids_multiset_matches(
    roles: Seq<(i64, crate::protocol::Role)>,
    members: Seq<crate::room::RoomMember>,
) -> bool {
    crate::roles::assigned_ids(roles).to_multiset() == member_ids(members).to_multiset()
}

/// Every dealt player is a member.
proof fn lemma_roles_are_members(
    roles: Seq<(i64, crate::protocol::Role)>,
    members: Seq<crate::room::RoomMember>,
    i: int,
)
    requires
        assigned_ids_multiset_matches(roles, members),
        0 <= i < roles.len(),
    ensures
        member_ids(members).contains(roles[i].0),
{
    broadcast use vstd::seq_lib::group_to_multiset_ensures;

    let ids = crate::roles::assigned_ids(roles);
    assert(ids[i] == roles[i].0);
    assert(ids.contains(roles[i].0));
    assert(ids.to_multiset().count(roles[i].0) > 0);
    assert(member_ids(members).to_multiset().count(roles[i].0) > 0);
}

/// What disconnect cleanup does: the bound user leaves its room (a
/// no-op when it already left), the remaining members get a snapshot,
/// and the binding is cleared so a second cleanup is a no-op.
pub open spec fn disconnect_post(
    old_rs: Seq<Room>,
    new_rs: Seq<Room>,
    old_s: ConnSession,
    new_s: ConnSession,
    o: Seq<(RoomStateOut, Vec<(i64, u64)>)>,
) -> bool {
    if is_bound(old_s) {
        let code = old_s.room_code->Some_0@;
        let uid = old_s.user_id->Some_0;
        let k = room_idx(old_rs, code);
        &&& leave_state_post(old_rs, new_rs, code, uid)
        &&& !is_bound(new_s)
        &&& (if k < 0 {
            // the room was already gone: nothing to broadcast
            o.len() == 0
        } else if member_idx(old_rs[k].members@, uid) < 0 {
            // the user had already left: the unchanged room is snapshot
            o.len() == 1 && snapshot_targets_post(new_rs, code, Ok(o[0]))
        } else if old_rs[k].members@.len() == 1 {
            // the last member's departure deletes the room silently
            o.len() == 0
        } else {
            o.len() == 1 && snapshot_targets_post(new_rs, code, Ok(o[0]))
        })
    } else {
        &&& new_rs == old_rs
        &&& new_s == old_s
        &&& o.len() == 0
    }
}

/// Runs the registered cleanup for a disconnecting connection: leave
/// whatever room the connection last joined, then snapshot the
/// remaining members.  Idempotent: a second run finds the session
/// unbound and does nothing.
pub fn handle_disconnect(hub: &mut GameHub, sess: &mut ConnSession) -> (o: Vec<
    (RoomStateOut, Vec<(i64, u64)>),
>)
    requires
        old(hub).wf(),
    ensures
        final(hub).wf(),
        disconnect_post(old(hub).rooms@, final(hub).rooms@, *old(sess), *final(sess), o@),
{
    let ghost rs0 = hub.rooms@;
    let mut out: Vec<(RoomStateOut, Vec<(i64, u64)>)> = Vec::new();
    let bound = match (&sess.room_code, &sess.user_id) {
        (Some(rc), Some(uid)) => {
            match hub.leave_room(rc.as_str(), *uid) {
                Some(_st) => {
                    proof {
                        let code = rc@;
                        let k = room_idx(rs0, code);
                        lemma_room_idx(rs0, code);
                        crate::room::lemma_member_idx(rs0[k].members@, *uid);
                        if member_idx(rs0[k].members@, *uid) >= 0 {
                            lemma_room_idx_stable(rs0, hub.rooms@, code, k);
                        }
                    }
                    match hub.snapshot_targets(rc.as_str()) {
                        Ok(b) => {
                            out.push(b);
                        },
                        Err(_) => {
                            proof {
                                assert(false);
                            }
                        },
                    }
                },
                None => {},
            }
            true
        },
        _ => false,
    };
    if bound {
        sess.room_code = None;
        sess.user_id = None;
    }
    out
}

} // verus!
