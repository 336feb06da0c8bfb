//! The room registry: the single authority over all room aggregates.
//!
//! Every public operation executes atomically with respect to every
//! other operation (the caller serializes access, typically behind one
//! lock) and returns a consistent snapshot and/or the set of messages to
//! deliver.  Wire writes happen afterward, decoupled, so a slow reader
//! only backs up its own queue.

use vstd::prelude::*;
use vstd::pervasive::VecAdditionalExecFns;
use crate::codes::{is_valid_code, random_room_code, validate_room_code};
use crate::errors::GameError;
use crate::ids::{contains_id, copy_ids, find_id, id_idx, lemma_id_idx};
use crate::protocol::{
    Delivery, JoinRoomIn, OutboundMsg, Role, RoleRevealIn, RoleRevealOut, RoomStatus, RoomStateOut,
};
use crate::roles::{
    assigned_ids, build_reveals, deal_witness_werewolf_roles, reveal_matches, role_at, role_count,
    spec_has_witness, spec_wolf_count,
};
use crate::room::{
    earliest_member, find_member, game_wf, is_snapshot_of, lt_key, member_idx, member_ids,
    members_distinct, lemma_member_idx, GamePhase, GameState, Room,
    RoomMember,
};
use crate::tally::{find_voter, is_sole_top, tally_votes, vote_idx, lemma_vote_idx};
use crate::text::str_eq;

verus! {

/// The registry owns every live room.
pub struct GameHub {
    pub rooms: Vec<Room>,
}

/// The first room with the given code, or -1 when none exists.
pub open spec fn room_idx(rooms: Seq<Room>, code: Seq<char>) -> int
    decreases rooms.len(),
{
    if rooms.len() == 0 {
        -1
    } else if rooms[0].room_code@ == code {
        0
    } else {
        let r = room_idx(rooms.drop_first(), code);
        if r < 0 {
            -1
        } else {
            r + 1
        }
    }
}

/// What `room_idx` finds.
pub proof fn lemma_room_idx(rooms: Seq<Room>, code: Seq<char>)
    ensures
        room_idx(rooms, code) >= 0 ==> room_idx(rooms, code) < rooms.len() && rooms[room_idx(
            rooms,
            code,
        )].room_code@ == code,
        room_idx(rooms, code) == -1 ==> forall|j: int|
            0 <= j < rooms.len() ==> (#[trigger] rooms[j]).room_code@ != code,
        room_idx(rooms, code) >= -1,
    decreases rooms.len(),
{
    if rooms.len() > 0 && rooms[0].room_code@ != code {
        lemma_room_idx(rooms.drop_first(), code);
        if room_idx(rooms.drop_first(), code) == -1 {
            assert forall|j: int| 0 <= j < rooms.len() implies rooms[j].room_code@ != code by {
                if j > 0 {
                    assert(rooms.drop_first()[j - 1] == rooms[j]);
                }
            }
        }
    }
}

/// `room_idx` finds the first occurrence.
pub proof fn lemma_room_idx_at(rooms: Seq<Room>, code: Seq<char>, k: int)
    requires
        0 <= k < rooms.len(),
        rooms[k].room_code@ == code,
        forall|j: int| 0 <= j < k ==> (#[trigger] rooms[j]).room_code@ != code,
    ensures
        room_idx(rooms, code) == k,
    decreases rooms.len(),
{
    if k > 0 {
        assert forall|j: int| 0 <= j < k - 1 implies (rooms.drop_first()[j]).room_code@ != code by {
            assert(rooms.drop_first()[j] == rooms[j + 1]);
        }
        assert(rooms.drop_first()[k - 1] == rooms[k]);
        lemma_room_idx_at(rooms.drop_first(), code, k - 1);
    }
}

/// Every room except the one at `k` is untouched, and none appeared or
/// vanished.
pub open spec fn rooms_same_except(old_rs: Seq<Room>, new_rs: Seq<Room>, k: int) -> bool {
    &&& new_rs.len() == old_rs.len()
    &&& forall|j: int| 0 <= j < old_rs.len() && j != k ==> new_rs[j] == old_rs[j]
}

/// No two rooms share a code.
pub open spec fn codes_distinct(rs: Seq<Room>) -> bool {
    forall|j: int, k: int|
        0 <= j < k < rs.len() ==> (#[trigger] rs[j]).room_code@ != (#[trigger] rs[k]).room_code@
}

/// A room keeps its position under a change that touches only it and
/// keeps its code.
pub proof fn lemma_room_idx_stable(old_rs: Seq<Room>, new_rs: Seq<Room>, code: Seq<char>, k: int)
    requires
        codes_distinct(old_rs),
        room_idx(old_rs, code) == k,
        k >= 0,
        rooms_same_except(old_rs, new_rs, k),
        new_rs[k].room_code@ == old_rs[k].room_code@,
    ensures
        room_idx(new_rs, code) == k,
{
    lemma_room_idx(old_rs, code);
    assert forall|j: int| 0 <= j < k implies (#[trigger] new_rs[j]).room_code@ != code by {
        assert(new_rs[j] == old_rs[j]);
        assert(old_rs[j].room_code@ != old_rs[k].room_code@);
    }
    lemma_room_idx_at(new_rs, code, k);
}

/// The registry invariant: room codes are unique and every room is
/// well-formed.
pub open spec fn rooms_wf(rs: Seq<Room>) -> bool {
    &&& codes_distinct(rs)
    &&& forall|j: int| 0 <= j < rs.len() ==> (#[trigger] rs[j]).wf()
}

impl GameHub {
    /// The registry invariant: room codes are unique and every room is
    /// well-formed.
    pub open spec fn wf(self) -> bool {
        rooms_wf(self.rooms@)
    }

    /// An empty registry.
    pub fn new() -> (r: GameHub)
        ensures
            r.wf(),
            r.rooms@.len() == 0,
    {
        GameHub { rooms: Vec::new() }
    }

    /// The position of the room with this code, if it is live.
    fn find_room(&self, code: &str) -> (r: Option<usize>)
        ensures
            match r {
                Some(k) => k == room_idx(self.rooms@, code@),
                None => room_idx(self.rooms@, code@) == -1,
            },
    {
        let n = self.rooms.len();
        let mut k: usize = 0;
        while k < n
            invariant
                k <= n,
                n == self.rooms@.len(),
                forall|j: int| 0 <= j < k ==> (#[trigger] self.rooms@[j]).room_code@ != code@,
            decreases n - k,
        {
            if str_eq(self.rooms[k].room_code.as_str(), code) {
                proof {
                    lemma_room_idx_at(self.rooms@, code@, k as int);
                }
                return Some(k);
            }
            k = k + 1;
        }
        proof {
            lemma_room_idx(self.rooms@, code@);
            if room_idx(self.rooms@, code@) >= 0 {
                assert(self.rooms@[room_idx(self.rooms@, code@)].room_code@ == code@);
            }
        }
        None
    }

    /// Joins `input.user_id` to the room, creating the room when asked
    /// to.  Joining is idempotent on identity: an existing membership
    /// only updates nick name, avatar, and delivery handle, keeping
    /// `ready` and `joined_at`.  The first member of a fresh room
    /// becomes its host.
    pub fn join_room(&mut self, input: &JoinRoomIn, conn: u64, now_ms: i64) -> (r: Result<
        RoomStateOut,
        GameError,
    >)
        requires
            old(self).wf(),
        ensures
            final(self).wf(),
            join_room_post(old(self).rooms@, final(self).rooms@, *input, conn, now_ms, r),
    {
        if let Err(e) = validate_room_code(input.room_code.as_str()) {
            return Err(e);
        }
        let k = self.find_room(input.room_code.as_str());
        proof {
            lemma_room_idx(self.rooms@, input.room_code@);
        }
        match k {
            None => {
                if !input.create_if_not_exists {
                    return Err(GameError::RoomNotFound);
                }
                let member = RoomMember {
                    user_id: input.user_id,
                    nick_name: input.nick_name.clone(),
                    avatar: match &input.avatar {
                        Some(a) => Some(a.clone()),
                        None => None,
                    },
                    ready: false,
                    joined_at: now_ms,
                    conn,
                    last_broadcast_at: 0,
                };
                let mut members: Vec<RoomMember> = Vec::new();
                members.push(member);
                let room = Room {
                    room_code: input.room_code.clone(),
                    host_user_id: input.user_id,
                    status: RoomStatus::Lobby,
                    members,
                    game: None,
                };
                let out = room.to_out();
                let ghost rooms0 = self.rooms@;
                self.rooms.push(room);
                proof {
                    assert(member_ids(self.rooms@.last().members@)[0] == input.user_id);
                    assert(self.rooms@.take(rooms0.len() as int) =~= rooms0);
                    assert forall|j: int, k2: int|
                        0 <= j < k2 < self.rooms@.len() implies (self.rooms@[j]).room_code@ != (
                    self.rooms@[k2]).room_code@ by {
                        if k2 == self.rooms@.len() - 1 {
                            assert(self.rooms@[j] == rooms0[j]);
                        }
                    }
                }
                Ok(out)
            },
            Some(k) => {
                let mi = find_member(&self.rooms[k].members, input.user_id);
                proof {
                    lemma_member_idx(self.rooms@[k as int].members@, input.user_id);
                }
                let ghost rooms0 = self.rooms@;
                let ghost oldr = self.rooms@[k as int];
                let room = &mut self.rooms[k];
                match mi {
                    Some(mi) => {
                        let m = &room.members[mi];
                        let m2 = RoomMember {
                            user_id: m.user_id,
                            nick_name: input.nick_name.clone(),
                            avatar: match &input.avatar {
                                Some(a) => Some(a.clone()),
                                None => None,
                            },
                            ready: m.ready,
                            joined_at: m.joined_at,
                            conn,
                            last_broadcast_at: m.last_broadcast_at,
                        };
                        room.members.set(mi, m2);
                        proof {
                            assert(member_ids(room.members@) =~= member_ids(oldr.members@));
                            assert(member_ids(room.members@).to_set() =~= member_ids(
                                oldr.members@,
                            ).to_set().insert(input.user_id)) by {
                                assert(member_ids(oldr.members@)[mi as int] == input.user_id);
                            }
                        }
                    },
                    None => {
                        let member = RoomMember {
                            user_id: input.user_id,
                            nick_name: input.nick_name.clone(),
                            avatar: match &input.avatar {
                                Some(a) => Some(a.clone()),
                                None => None,
                            },
                            ready: false,
                            joined_at: now_ms,
                            conn,
                            last_broadcast_at: 0,
                        };
                        room.members.push(member);
                        proof {
                            let ids0 = member_ids(oldr.members@);
                            let ids1 = member_ids(room.members@);
                            assert(ids1 =~= ids0.push(input.user_id));
                            assert(room.members@.take(oldr.members@.len() as int)
                                =~= oldr.members@);
                            assert(ids1.to_set() =~= ids0.to_set().insert(input.user_id)) by {
                                assert forall|x: i64| ids1.contains(x) implies ids0.contains(x) || x
                                    == input.user_id by {
                                    let j = choose|j: int| 0 <= j < ids1.len() && ids1[j] == x;
                                    if j < ids0.len() {
                                        assert(ids0[j] == x);
                                    }
                                }
                                assert forall|x: i64| ids0.contains(x) implies ids1.contains(x) by {
                                    let j = choose|j: int| 0 <= j < ids0.len() && ids0[j] == x;
                                    assert(ids1[j] == x);
                                }
                                assert(ids1[ids1.len() - 1] == input.user_id);
                            }
                            assert(members_distinct(room.members@)) by {
                                assert forall|a: int, b: int|
                                    0 <= a < b < room.members@.len() implies room.members@[a].user_id
                                    != room.members@[b].user_id by {
                                    if b == room.members@.len() - 1 {
                                        assert(room.members@[a] == oldr.members@[a]);
                                        assert(oldr.members@[a].user_id != input.user_id);
                                    }
                                }
                            }
                        }
                    },
                }
                let out = room.to_out();
                proof {
                    let newr = self.rooms@[k as int];
                    assert(member_ids(newr.members@).contains(newr.host_user_id)) by {
                        let hi = choose|hi: int|
                            0 <= hi < member_ids(oldr.members@).len() && member_ids(oldr.members@)[hi]
                                == oldr.host_user_id;
                        assert(member_ids(newr.members@)[hi] == newr.members@[hi].user_id);
                        if member_idx(oldr.members@, input.user_id) != hi {
                            assert(newr.members@[hi].user_id == oldr.members@[hi].user_id);
                        }
                    }
                    assert(newr.wf());
                }
                Ok(out)
            },
        }
    }

    /// Removes `user_id` from the room.  The last member's departure
    /// deletes the room (`None`).  Leaving a room one is not in is a
    /// no-op that returns the prior snapshot.  A departing host is
    /// succeeded by the member with the earliest `joined_at`, ties
    /// broken by the smallest user id.
    pub fn leave_room(&mut self, room_code: &str, user_id: i64) -> (r: Option<RoomStateOut>)
        requires
            old(self).wf(),
        ensures
            final(self).wf(),
            leave_room_post(old(self).rooms@, final(self).rooms@, room_code@, user_id, r),
    {
        let k = match self.find_room(room_code) {
            Some(k) => k,
            None => {
                return None;
            },
        };
        proof {
            lemma_room_idx(self.rooms@, room_code@);
        }
        let mi = match find_member(&self.rooms[k].members, user_id) {
            Some(mi) => mi,
            None => {
                proof {
                    lemma_member_idx(self.rooms@[k as int].members@, user_id);
                }
                let out = self.rooms[k].to_out();
                return Some(out);
            },
        };
        proof {
            lemma_member_idx(self.rooms@[k as int].members@, user_id);
        }
        let ghost rooms0 = self.rooms@;
        let ghost oldr = self.rooms@[k as int];
        if self.rooms[k].members.len() == 1 {
            let _removed = self.rooms.remove(k);
            proof {
                assert forall|j: int, k2: int|
                    0 <= j < k2 < self.rooms@.len() implies (self.rooms@[j]).room_code@ != (
                self.rooms@[k2]).room_code@ by {
                    let j0: int = if j < k { j } else { j + 1 };
                    let k0: int = if k2 < k { k2 } else { k2 + 1 };
                    assert(self.rooms@[j] == rooms0[j0]);
                    assert(self.rooms@[k2] == rooms0[k0]);
                }
                assert forall|j: int| 0 <= j < self.rooms@.len() implies (self.rooms@[j]).wf() by {
                    let j0: int = if j < k { j } else { j + 1 };
                    assert(self.rooms@[j] == rooms0[j0]);
                }
            }
            return None;
        }
        let room = &mut self.rooms[k];
        let _gone = room.members.remove(mi);
        proof {
            assert(members_distinct(room.members@)) by {
                assert forall|a: int, b: int|
                    0 <= a < b < room.members@.len() implies room.members@[a].user_id
                    != room.members@[b].user_id by {
                    let a0: int = if a < mi { a } else { a + 1 };
                    let b0: int = if b < mi { b } else { b + 1 };
                    assert(room.members@[a] == oldr.members@[a0]);
                    assert(room.members@[b] == oldr.members@[b0]);
                }
            }
            assert(member_ids(room.members@).to_set() =~= member_ids(oldr.members@).to_set()
                .remove(user_id)) by {
                let ids0 = member_ids(oldr.members@);
                let ids1 = member_ids(room.members@);
                assert forall|x: i64| ids1.contains(x) implies ids0.contains(x) && x != user_id by {
                    let j = choose|j: int| 0 <= j < ids1.len() && ids1[j] == x;
                    let j0: int = if j < mi { j } else { j + 1 };
                    assert(room.members@[j] == oldr.members@[j0]);
                    assert(ids0[j0] == x);
                    assert(oldr.members@[mi as int].user_id == user_id);
                }
                assert forall|x: i64| ids0.contains(x) && x != user_id implies ids1.contains(x) by {
                    let j0 = choose|j0: int| 0 <= j0 < ids0.len() && ids0[j0] == x;
                    let j: int = if j0 < mi {
                        j0
                    } else {
                        j0 - 1
                    };
                    assert(j0 != mi);
                    assert(room.members@[j] == oldr.members@[j0]);
                    assert(ids1[j] == x);
                }
            }
        }
        if room.host_user_id == user_id {
            let hi = earliest_member(&room.members);
            room.host_user_id = room.members[hi].user_id;
            proof {
                lemma_member_idx(room.members@, room.host_user_id);
                assert(member_ids(room.members@)[hi as int] == room.members@[hi as int].user_id);
                let hidx = member_idx(room.members@, room.host_user_id);
                assert(hidx >= 0);
                assert(room.members@[hidx].user_id == room.members@[hi as int].user_id);
                assert(hidx == hi) by {
                    if hidx != hi {
                        assert(members_distinct(room.members@));
                    }
                }
            }
        } else {
            proof {
                assert(member_ids(room.members@).contains(room.host_user_id)) by {
                    assert(member_ids(oldr.members@).to_set().contains(oldr.host_user_id));
                    assert(member_ids(room.members@).to_set().contains(oldr.host_user_id));
                }
            }
        }
        let out = room.to_out();
        proof {
            assert(self.rooms@[k as int].wf());
        }
        Some(out)
    }

    /// Marks `user_id` ready (or not) in the room's lobby and returns
    /// the fresh snapshot.  Calling it twice with the same value is a
    /// state-wise no-op.
    pub fn set_ready(&mut self, room_code: &str, user_id: i64, ready: bool) -> (r: Result<
        RoomStateOut,
        GameError,
    >)
        requires
            old(self).wf(),
        ensures
            final(self).wf(),
            set_ready_post(old(self).rooms@, final(self).rooms@, room_code@, user_id, ready, r),
    {
        let k = match self.find_room(room_code) {
            Some(k) => k,
            None => {
                return Err(GameError::RoomNotFound);
            },
        };
        proof {
            lemma_room_idx(self.rooms@, room_code@);
        }
        if !matches!(self.rooms[k].status, RoomStatus::Lobby) {
            return Err(GameError::NotInLobby);
        }
        let mi = match find_member(&self.rooms[k].members, user_id) {
            Some(mi) => mi,
            None => {
                return Err(GameError::NotAMember);
            },
        };
        proof {
            lemma_member_idx(self.rooms@[k as int].members@, user_id);
        }
        let ghost rooms0 = self.rooms@;
        let room = &mut self.rooms[k];
        let ghost members0 = room.members@;
        let m = &room.members[mi];
        let m2 = RoomMember {
            user_id: m.user_id,
            nick_name: m.nick_name.clone(),
            avatar: match &m.avatar {
                Some(a) => Some(a.clone()),
                None => None,
            },
            ready,
            joined_at: m.joined_at,
            conn: m.conn,
            last_broadcast_at: m.last_broadcast_at,
        };
        room.members.set(mi, m2);
        let out = room.to_out();
        proof {
            let newr = self.rooms@[k as int];
            assert(member_ids(newr.members@).contains(newr.host_user_id)) by {
                let hi = choose|hi: int|
                    0 <= hi < member_ids(members0).len() && member_ids(members0)[hi]
                        == rooms0[k as int].host_user_id;
                assert(member_ids(newr.members@)[hi] == newr.members@[hi].user_id);
                assert(newr.members@[hi].user_id == members0[hi].user_id);
            }
            assert(newr.wf());
        }
        Ok(out)
    }
    /// Starts the room's game.  Only the host, only from the lobby,
    /// only with every member ready.  Roles are dealt at random under
    /// the fixed counting rules, the alive set starts as all members,
    /// and a private reveal is produced for every member — to be
    /// unicast only, never broadcast.
    #[verifier::loop_isolation(false)]
    pub fn start_game(&mut self, room_code: &str, user_id: i64, game_key: String, now_ms: i64) -> (
        r: Result<(RoomStateOut, Vec<(i64, RoleRevealOut)>), GameError>
    )
        requires
            old(self).wf(),
        ensures
            final(self).wf(),
            start_game_post(
                old(self).rooms@,
                final(self).rooms@,
                room_code@,
                user_id,
                game_key@,
                now_ms,
                r,
            ),
    {
        let k = match self.find_room(room_code) {
            Some(k) => k,
            None => {
                return Err(GameError::RoomNotFound);
            },
        };
        proof {
            lemma_room_idx(self.rooms@, room_code@);
        }
        if self.rooms[k].host_user_id != user_id {
            return Err(GameError::NotHost);
        }
        if !matches!(self.rooms[k].status, RoomStatus::Lobby) {
            return Err(GameError::NotInLobby);
        }
        let n = self.rooms[k].members.len();
        let mut j: usize = 0;
        while j < n
            invariant
                j <= n,
                n == self.rooms@[k as int].members@.len(),
                k < self.rooms@.len(),
                forall|i: int| 0 <= i < j ==> (#[trigger] self.rooms@[k as int].members@[i]).ready,
            decreases n - j,
        {
            if !self.rooms[k].members[j].ready {
                return Err(GameError::NotAllReady);
            }
            j = j + 1;
        }
        if n as u64 > i64::MAX as u64 {
            return Err(GameError::ResourceExhausted);
        }

        let mut ids: Vec<i64> = Vec::new();
        let mut i: usize = 0;
        while i < n
            invariant
                i <= n,
                n == self.rooms@[k as int].members@.len(),
                k < self.rooms@.len(),
                ids@.len() == i,
                forall|j2: int|
                    0 <= j2 < i ==> ids@[j2] == (#[trigger] self.rooms@[k as int].members@[j2]).user_id,
            decreases n - i,
        {
            ids.push(self.rooms[k].members[i].user_id);
            i = i + 1;
        }
        proof {
            assert(ids@ =~= member_ids(self.rooms@[k as int].members@));
        }
        let roles = deal_witness_werewolf_roles(&ids);
        let reveals = build_reveals(&roles);

        let ghost oldr = self.rooms@[k as int];
        let room = &mut self.rooms[k];
        room.status = RoomStatus::Started;
        room.game = Some(
            GameState {
                key: game_key,
                started_at: now_ms,
                phase: GamePhase::Started,
                alive: ids,
                roles,
                votes: Vec::new(),
            },
        );
        let out = room.to_out();
        proof {
            let newr = self.rooms@[k as int];
            assert(newr.wf()) by {
                let g = newr.game->Some_0;
                assert(crate::room::ids_distinct(g.alive@)) by {
                    assert(members_distinct(oldr.members@));
                    assert forall|a: int, b: int|
                        0 <= a < b < g.alive@.len() implies g.alive@[a] != g.alive@[b] by {
                        assert(g.alive@[a] == oldr.members@[a].user_id);
                        assert(g.alive@[b] == oldr.members@[b].user_id);
                    }
                }
            }
        }
        Ok((out, reveals))
    }

    /// Records `voter_id`'s vote (or abstention).  The first vote of a
    /// round flips the phase to voting; re-voting overwrites.  When the
    /// recorded votes reach the alive count the round is tallied
    /// synchronously: the sole top candidate (if any) is eliminated,
    /// the votes are cleared, and the phase returns to discussion.
    pub fn cast_vote(&mut self, room_code: &str, voter_id: i64, target: Option<i64>) -> (r: Result<
        VoteOutcome,
        GameError,
    >)
        requires
            old(self).wf(),
        ensures
            final(self).wf(),
            cast_vote_post(old(self).rooms@, final(self).rooms@, room_code@, voter_id, target, r),
    {
        let k = match self.find_room(room_code) {
            Some(k) => k,
            None => {
                return Err(GameError::RoomNotFound);
            },
        };
        proof {
            lemma_room_idx(self.rooms@, room_code@);
        }
        match &self.rooms[k].game {
            None => {
                return Err(GameError::NotStarted);
            },
            Some(g) => {
                if !contains_id(&g.alive, voter_id) {
                    return Err(GameError::NotAlive);
                }
            },
        }
        let ghost oldr = self.rooms@[k as int];
        proof {
            assert(oldr.wf());
        }
        let room = &mut self.rooms[k];
        match &mut room.game {
            None => {
                proof {
                    assert(false);
                }
                Err(GameError::NotStarted)
            },
            Some(g) => {
                if matches!(g.phase, GamePhase::Started) {
                    g.phase = GamePhase::Voting;
                }
                let ghost votes0 = g.votes@;
                proof {
                    lemma_vote_idx(votes0, voter_id);
                }
                match find_voter(&g.votes, voter_id) {
                    Some(vi) => {
                        g.votes.set(vi, (voter_id, target));
                    },
                    None => {
                        g.votes.push((voter_id, target));
                    },
                }
                let ghost votes1 = g.votes@;
                let voted = g.votes.len();
                let total = g.alive.len();
                let finished = voted >= total;
                let eliminated: Option<i64> = if finished {
                    let e = tally_votes(&g.votes, &g.alive);
                    if let Some(victim) = e {
                        let ghost alive0 = g.alive@;
                        proof {
                            lemma_id_idx(alive0, victim);
                        }
                        match find_id(&g.alive, victim) {
                            Some(ai) => {
                                let _ = g.alive.remove(ai);
                                proof {
                                    assert(crate::room::ids_distinct(g.alive@)) by {
                                        assert forall|a: int, b: int|
                                            0 <= a < b < g.alive@.len() implies g.alive@[a]
                                            != g.alive@[b] by {
                                            let a0: int = if a < ai { a } else { a + 1 };
                                            let b0: int = if b < ai { b } else { b + 1 };
                                            assert(g.alive@[a] == alive0[a0]);
                                            assert(g.alive@[b] == alive0[b0]);
                                        }
                                    }
                                }
                            },
                            None => {
                                proof {
                                    assert(false);
                                }
                            },
                        }
                    }
                    g.votes.clear();
                    g.phase = GamePhase::Started;
                    e
                } else {
                    None
                };
                proof {
                    let newr = self.rooms@[k as int];
                    assert(newr.wf()) by {
                        let ng = newr.game->Some_0;
                        let vi = vote_idx(votes0, voter_id);
                        if !finished {
                            assert(game_wf(ng)) by {
                                assert forall|a: int, b: int|
                                    0 <= a < b < ng.votes@.len() implies ng.votes@[a].0
                                    != ng.votes@[b].0 by {
                                    if vi >= 0 {
                                        assert(votes0[vi].0 == voter_id);
                                        if a == vi {
                                            assert(ng.votes@[b] == votes0[b]);
                                        } else if b == vi {
                                            assert(ng.votes@[a] == votes0[a]);
                                        } else {
                                            assert(ng.votes@[a] == votes0[a]);
                                            assert(ng.votes@[b] == votes0[b]);
                                        }
                                    } else {
                                        if b == ng.votes@.len() - 1 {
                                            assert(ng.votes@[a] == votes0[a]);
                                            assert(votes0[a].0 != voter_id);
                                        } else {
                                            assert(ng.votes@[a] == votes0[a]);
                                            assert(ng.votes@[b] == votes0[b]);
                                        }
                                    }
                                }
                                assert forall|a: int|
                                    0 <= a < ng.votes@.len() implies ng.alive@.contains(
                                    (#[trigger] ng.votes@[a]).0) by {
                                    if vi >= 0 && a == vi {
                                    } else if vi < 0 && a == ng.votes@.len() - 1 {
                                    } else {
                                        assert(ng.votes@[a] == votes0[a]);
                                    }
                                }
                            }
                        }
                    }
                }
                Ok(VoteOutcome { voted_count: voted, total_alive: total, finished, eliminated })
            },
        }
    }
    /// Relays `from_user_id`'s chat line to every member's queue,
    /// enforcing the 300 ms minimum interval per sender; a violating
    /// message is dropped, not queued.
    #[verifier::loop_isolation(false)]
    pub fn broadcast(&mut self, room_code: &str, from_user_id: i64, text: &str, now_ms: i64) -> (
        r: Result<Vec<Delivery>, GameError>
    )
        requires
            old(self).wf(),
        ensures
            final(self).wf(),
            broadcast_post(
                old(self).rooms@,
                final(self).rooms@,
                room_code@,
                from_user_id,
                text@,
                now_ms,
                r,
            ),
    {
        let k = match self.find_room(room_code) {
            Some(k) => k,
            None => {
                return Err(GameError::RoomNotFound);
            },
        };
        proof {
            lemma_room_idx(self.rooms@, room_code@);
        }
        let mi = match find_member(&self.rooms[k].members, from_user_id) {
            Some(mi) => mi,
            None => {
                return Err(GameError::NotAMember);
            },
        };
        proof {
            lemma_member_idx(self.rooms@[k as int].members@, from_user_id);
        }
        let last = self.rooms[k].members[mi].last_broadcast_at;
        if (now_ms as i128) - (last as i128) < 300 {
            return Err(GameError::RateLimited);
        }
        let ghost oldr = self.rooms@[k as int];
        let room = &mut self.rooms[k];
        let m = &room.members[mi];
        let m2 = RoomMember {
            user_id: m.user_id,
            nick_name: m.nick_name.clone(),
            avatar: match &m.avatar {
                Some(a) => Some(a.clone()),
                None => None,
            },
            ready: m.ready,
            joined_at: m.joined_at,
            conn: m.conn,
            last_broadcast_at: now_ms,
        };
        room.members.set(mi, m2);
        let n = room.members.len();
        let mut ds: Vec<Delivery> = Vec::new();
        let mut i: usize = 0;
        while i < n
            invariant
                i <= n,
                n == room.members@.len(),
                ds@.len() == i,
                forall|j: int|
                    0 <= j < i ==> {
                        let d = #[trigger] ds@[j];
                        &&& d.user_id == room.members@[j].user_id
                        &&& d.conn == room.members@[j].conn
                        &&& (d.msg matches OutboundMsg::Chat { from_user_id: f, text: t, at } && f
                            == from_user_id && t@ == text@ && at == now_ms)
                    },
            decreases n - i,
        {
            let mb = &room.members[i];
            ds.push(
                Delivery {
                    user_id: mb.user_id,
                    conn: mb.conn,
                    msg: OutboundMsg::Chat { from_user_id, text: text.to_owned(), at: now_ms },
                },
            );
            i = i + 1;
        }
        proof {
            let newr = self.rooms@[k as int];
            assert(member_ids(newr.members@).contains(newr.host_user_id)) by {
                let hi = choose|hi: int|
                    0 <= hi < member_ids(oldr.members@).len() && member_ids(oldr.members@)[hi]
                        == oldr.host_user_id;
                assert(member_ids(newr.members@)[hi] == newr.members@[hi].user_id);
                if member_idx(oldr.members@, from_user_id) != hi {
                    assert(newr.members@[hi].user_id == oldr.members@[hi].user_id);
                }
            }
            assert(newr.wf());
        }
        Ok(ds)
    }

    /// Hands one message to `to_user_id`'s queue, bypassing every other
    /// member.
    pub fn forward_to_user(&self, room_code: &str, to_user_id: i64, msg: OutboundMsg) -> (r:
        Result<Delivery, GameError>)
        ensures
            forward_post(self.rooms@, room_code@, to_user_id, msg, r),
    {
        let k = match self.find_room(room_code) {
            Some(k) => k,
            None => {
                return Err(GameError::RoomNotFound);
            },
        };
        proof {
            lemma_room_idx(self.rooms@, room_code@);
        }
        let mi = match find_member(&self.rooms[k].members, to_user_id) {
            Some(mi) => mi,
            None => {
                return Err(GameError::NotAMember);
            },
        };
        proof {
            lemma_member_idx(self.rooms@[k as int].members@, to_user_id);
        }
        Ok(Delivery { user_id: to_user_id, conn: self.rooms[k].members[mi].conn, msg })
    }

    /// Computes the public snapshot once, together with every member's
    /// delivery handle, so the caller can enqueue it to all of them.
    #[verifier::loop_isolation(false)]
    pub fn snapshot_targets(&self, room_code: &str) -> (r: Result<
        (RoomStateOut, Vec<(i64, u64)>),
        GameError,
    >)
        ensures
            snapshot_targets_post(self.rooms@, room_code@, r),
    {
        let k = match self.find_room(room_code) {
            Some(k) => k,
            None => {
                return Err(GameError::RoomNotFound);
            },
        };
        proof {
            lemma_room_idx(self.rooms@, room_code@);
        }
        let room = &self.rooms[k];
        let out = room.to_out();
        let n = room.members.len();
        let mut targets: Vec<(i64, u64)> = Vec::new();
        let mut i: usize = 0;
        while i < n
            invariant
                i <= n,
                n == room.members@.len(),
                targets@.len() == i,
                forall|j: int|
                    0 <= j < i ==> #[trigger] targets@[j] == (
                        room.members@[j].user_id,
                        room.members@[j].conn,
                    ),
            decreases n - i,
        {
            targets.push((room.members[i].user_id, room.members[i].conn));
            i = i + 1;
        }
        Ok((out, targets))
    }

    /// Mints a fresh room code that no live room uses, trying a bounded
    /// number of candidates.
    pub fn generate_room_code(&self) -> (r: Result<String, GameError>)
        ensures
            match r {
                Ok(c) => is_valid_code(c@) && room_idx(self.rooms@, c@) == -1,
                Err(e) => e == GameError::ResourceExhausted && self.rooms@.len() > 0,
            },
            self.rooms@.len() == 0 ==> r is Ok,
    {
        let mut t: usize = 0;
        while t < 64
            invariant
                t <= 64,
                // a collision needs a room to collide with
                t > 0 ==> self.rooms@.len() > 0,
            decreases 64 - t,
        {
            let code = random_room_code();
            match self.find_room(code.as_str()) {
                None => {
                    return Ok(code);
                },
                Some(k) => {
                    proof {
                        lemma_room_idx(self.rooms@, code@);
                        assert(k < self.rooms@.len());
                    }
                },
            }
            t = t + 1;
        }
        Err(GameError::ResourceExhausted)
    }

    /// Validates and relays a host-built private reveal to its
    /// recipient; used by the alternative transport binding.  Only the
    /// host may relay, and only once the game has started.
    pub fn relay_reveal(&self, input: &RoleRevealIn) -> (r: Result<Delivery, GameError>)
        ensures
            relay_reveal_post(self.rooms@, *input, r),
    {
        let k = match self.find_room(input.room_code.as_str()) {
            Some(k) => k,
            None => {
                return Err(GameError::RoomNotFound);
            },
        };
        proof {
            lemma_room_idx(self.rooms@, input.room_code@);
        }
        if self.rooms[k].host_user_id != input.user_id {
            return Err(GameError::NotHost);
        }
        if !matches!(self.rooms[k].status, RoomStatus::Started) {
            return Err(GameError::NotStarted);
        }
        let mi = match find_member(&self.rooms[k].members, input.to_user_id) {
            Some(mi) => mi,
            None => {
                return Err(GameError::NotAMember);
            },
        };
        proof {
            lemma_member_idx(self.rooms@[k as int].members@, input.to_user_id);
        }
        let out = RoleRevealOut {
            to_user_id: input.to_user_id,
            role: input.role,
            wolf_user_ids: copy_ids(&input.wolf_user_ids),
            wolf_count: input.wolf_count,
            total_players: input.total_players,
        };
        Ok(
            Delivery {
                user_id: input.to_user_id,
                conn: self.rooms[k].members[mi].conn,
                msg: OutboundMsg::RoleReveal(out),
            },
        )
    }
}

/// What `broadcast` does: rejected exactly when the room is missing,
/// the sender not a member, or the sender's last accepted broadcast was
/// under 300 ms ago; otherwise the sender's rate-limit timestamp
/// advances and one chat message is addressed to every member.
pub open spec fn broadcast_post(
    old_rs: Seq<Room>,
    new_rs: Seq<Room>,
    code: Seq<char>,
    from: i64,
    text: Seq<char>,
    now_ms: i64,
    r: Result<Vec<Delivery>, GameError>,
) -> bool {
    let k = room_idx(old_rs, code);
    match r {
        Ok(ds) => {
            &&& k >= 0
            &&& ({
                let oldr = old_rs[k];
                let mi = member_idx(oldr.members@, from);
                &&& mi >= 0
                &&& now_ms - oldr.members@[mi].last_broadcast_at >= 300
                &&& rooms_same_except(old_rs, new_rs, k)
                &&& ({
                    let newr = new_rs[k];
                    let m0 = oldr.members@[mi];
                    &&& newr.room_code@ == oldr.room_code@
                    &&& newr.host_user_id == oldr.host_user_id
                    &&& newr.status == oldr.status
                    &&& newr.game == oldr.game
                    &&& newr.members@.len() == oldr.members@.len()
                    &&& (forall|j: int|
                        0 <= j < oldr.members@.len() && j != mi ==> new_rs[k].members@[j]
                            == old_rs[k].members@[j])
                    &&& member_matches(
                        newr.members@[mi],
                        m0.user_id,
                        m0.nick_name@,
                        spec_avatar_view(m0.avatar),
                        m0.ready,
                        m0.joined_at,
                        m0.conn,
                        now_ms,
                    )
                    &&& ds@.len() == oldr.members@.len()
                    &&& (forall|j: int|
                        0 <= j < ds@.len() ==> {
                            let d = #[trigger] ds@[j];
                            &&& d.user_id == newr.members@[j].user_id
                            &&& d.conn == newr.members@[j].conn
                            &&& (d.msg matches OutboundMsg::Chat { from_user_id: f, text: t, at }
                                && f == from && t@ == text && at == now_ms)
                        })
                })
            })
        },
        Err(e) => {
            &&& new_rs == old_rs
            &&& ((e == GameError::RoomNotFound && k < 0) || (e == GameError::NotAMember && k >= 0
                && member_idx(old_rs[k].members@, from) < 0) || (e == GameError::RateLimited && k
                >= 0 && member_idx(old_rs[k].members@, from) >= 0 && now_ms - old_rs[k].members@[
                member_idx(old_rs[k].members@, from)
            ].last_broadcast_at < 300))
        },
    }
}

/// What `forward_to_user` does: the message lands on the recipient's
/// queue exactly when the room is live and the recipient a member.
pub open spec fn forward_post(
    rs: Seq<Room>,
    code: Seq<char>,
    to_user_id: i64,
    msg: OutboundMsg,
    r: Result<Delivery, GameError>,
) -> bool {
    let k = room_idx(rs, code);
    match r {
        Ok(d) => {
            &&& k >= 0
            &&& ({
                let mi = member_idx(rs[k].members@, to_user_id);
                &&& mi >= 0
                &&& d.user_id == to_user_id
                &&& d.conn == rs[k].members@[mi].conn
                &&& d.msg == msg
            })
        },
        Err(e) => {
            ||| (e == GameError::RoomNotFound && k < 0)
            ||| (e == GameError::NotAMember && k >= 0 && member_idx(rs[k].members@, to_user_id)
                < 0)
        },
    }
}

/// What `snapshot_targets` does: one public snapshot of the live room,
/// addressed to every member's delivery handle.
pub open spec fn snapshot_targets_post(
    rs: Seq<Room>,
    code: Seq<char>,
    r: Result<(RoomStateOut, Vec<(i64, u64)>), GameError>,
) -> bool {
    let k = room_idx(rs, code);
    match r {
        Ok(p) => {
            &&& k >= 0
            &&& is_snapshot_of(rs[k], p.0)
            &&& p.1@.len() == rs[k].members@.len()
            &&& (forall|j: int|
                0 <= j < p.1@.len() ==> #[trigger] p.1@[j] == (
                    rs[k].members@[j].user_id,
                    rs[k].members@[j].conn,
                ))
        },
        Err(e) => e == GameError::RoomNotFound && k < 0,
    }
}

/// What `relay_reveal` does: relayed exactly when the room is live and
/// started, the caller is its host, and the recipient a member; the
/// delivered reveal carries exactly the host's fields.
pub open spec fn relay_reveal_post(
    rs: Seq<Room>,
    input: RoleRevealIn,
    r: Result<Delivery, GameError>,
) -> bool {
    let k = room_idx(rs, input.room_code@);
    match r {
        Ok(d) => {
            &&& k >= 0
            &&& rs[k].host_user_id == input.user_id
            &&& rs[k].status == RoomStatus::Started
            &&& ({
                let mi = member_idx(rs[k].members@, input.to_user_id);
                &&& mi >= 0
                &&& d.user_id == input.to_user_id
                &&& d.conn == rs[k].members@[mi].conn
                &&& (d.msg matches OutboundMsg::RoleReveal(rr) && rr.to_user_id == input.to_user_id
                    && rr.role == input.role && rr.wolf_user_ids@ == input.wolf_user_ids@
                    && rr.wolf_count == input.wolf_count && rr.total_players
                    == input.total_players)
            })
        },
        Err(e) => {
            ||| (e == GameError::RoomNotFound && k < 0)
            ||| (e == GameError::NotHost && k >= 0 && rs[k].host_user_id != input.user_id)
            ||| (e == GameError::NotStarted && k >= 0 && rs[k].host_user_id == input.user_id && rs[
                k
            ].status != RoomStatus::Started)
            ||| (e == GameError::NotAMember && k >= 0 && rs[k].host_user_id == input.user_id && rs[
                k
            ].status == RoomStatus::Started && member_idx(rs[k].members@, input.to_user_id) < 0)
        },
    }
}

/// The outcome of one accepted vote: the round's progress and, once the
/// round finishes, who (if anyone) was eliminated.
pub struct VoteOutcome {
    pub voted_count: usize,
    pub total_alive: usize,
    pub finished: bool,
    pub eliminated: Option<i64>,
}

/// The state transition of a successful `start_game`: the status flips
/// to started, roles are dealt under the counting rules, the alive set
/// is all members, and the votes are cleared.
pub open spec fn start_game_state_post(
    old_rs: Seq<Room>,
    new_rs: Seq<Room>,
    code: Seq<char>,
    user_id: i64,
    game_key: Seq<char>,
    now_ms: i64,
) -> bool {
    let k = room_idx(old_rs, code);
    &&& k >= 0
    &&& old_rs[k].host_user_id == user_id
    &&& old_rs[k].status == RoomStatus::Lobby
    &&& (forall|j: int|
        0 <= j < old_rs[k].members@.len() ==> (#[trigger] old_rs[k].members@[j]).ready)
    &&& rooms_same_except(old_rs, new_rs, k)
    &&& ({
        let oldr = old_rs[k];
        let newr = new_rs[k];
        let n = oldr.members@.len();
        &&& newr.room_code@ == oldr.room_code@
        &&& newr.host_user_id == oldr.host_user_id
        &&& newr.members@ == oldr.members@
        &&& newr.status == RoomStatus::Started
        &&& newr.game matches Some(g) && {
            &&& g.key@ == game_key
            &&& g.started_at == now_ms
            &&& g.phase == GamePhase::Started
            &&& g.votes@.len() == 0
            &&& g.alive@ == member_ids(oldr.members@)
            &&& g.roles@.len() == n
            &&& assigned_ids(g.roles@).to_multiset() == member_ids(oldr.members@).to_multiset()
            &&& (forall|i: int| 0 <= i < n ==> (#[trigger] g.roles@[i]).1 == role_at(n, i))
            &&& role_count(g.roles@, Role::Wolf) == spec_wolf_count(n)
            &&& role_count(g.roles@, Role::Witness) == if spec_has_witness(n) {
                1int
            } else {
                0int
            }
            &&& role_count(g.roles@, Role::Villager) == n - role_count(g.roles@, Role::Wolf)
                - role_count(g.roles@, Role::Witness)
        }
    })
}

/// Every dealt player gets exactly one reveal, scoped by its role.
pub open spec fn reveals_ok(
    roles: Seq<(i64, Role)>,
    reveals: Seq<(i64, RoleRevealOut)>,
) -> bool {
    &&& reveals.len() == roles.len()
    &&& (forall|i: int|
        0 <= i < roles.len() ==> (#[trigger] reveals[i]).0 == roles[i].0 && reveal_matches(
            roles,
            roles[i].0,
            roles[i].1,
            reveals[i].1,
        ))
}

/// What `start_game` does: rejected exactly when the room is missing,
/// the caller not the host, the room not in the lobby, or someone not
/// ready; otherwise the transition above, plus one correctly scoped
/// reveal per member and a fresh snapshot.
pub open spec fn start_game_post(
    old_rs: Seq<Room>,
    new_rs: Seq<Room>,
    code: Seq<char>,
    user_id: i64,
    game_key: Seq<char>,
    now_ms: i64,
    r: Result<(RoomStateOut, Vec<(i64, RoleRevealOut)>), GameError>,
) -> bool {
    let k = room_idx(old_rs, code);
    match r {
        Ok(p) => {
            let out = p.0;
            let reveals = p.1;
            &&& start_game_state_post(old_rs, new_rs, code, user_id, game_key, now_ms)
            &&& (new_rs[k].game matches Some(g) && reveals_ok(g.roles@, reveals@))
            &&& is_snapshot_of(new_rs[k], out)
        },
        Err(e) => {
            &&& new_rs == old_rs
            &&& ((e == GameError::RoomNotFound && k < 0) || (k >= 0 && {
                let oldr = old_rs[k];
                ||| (e == GameError::NotHost && oldr.host_user_id != user_id)
                ||| (e == GameError::NotInLobby && oldr.host_user_id == user_id && oldr.status
                    != RoomStatus::Lobby)
                ||| (e == GameError::NotAllReady && oldr.host_user_id == user_id && oldr.status
                    == RoomStatus::Lobby && !(forall|j: int|
                    0 <= j < oldr.members@.len() ==> (#[trigger] oldr.members@[j]).ready))
                ||| (e == GameError::ResourceExhausted && oldr.host_user_id == user_id
                    && oldr.status == RoomStatus::Lobby && oldr.members@.len() > i64::MAX)
            }))
        },
    }
}

/// What `cast_vote` does: rejected exactly when the room is missing,
/// the game not started, or the voter not alive; otherwise the vote is
/// recorded (overwriting any earlier vote of the same voter), progress
/// is reported, and a full round resolves by eliminating the sole top
/// candidate, clearing the votes, and returning to discussion.
pub open spec fn cast_vote_post(
    old_rs: Seq<Room>,
    new_rs: Seq<Room>,
    code: Seq<char>,
    voter_id: i64,
    target: Option<i64>,
    r: Result<VoteOutcome, GameError>,
) -> bool {
    let k = room_idx(old_rs, code);
    match r {
        Ok(o) => {
            &&& k >= 0
            &&& old_rs[k].game matches Some(g) && {
                let vi = vote_idx(g.votes@, voter_id);
                let votes1 = if vi >= 0 {
                    g.votes@.update(vi, (voter_id, target))
                } else {
                    g.votes@.push((voter_id, target))
                };
                &&& g.alive@.contains(voter_id)
                &&& rooms_same_except(old_rs, new_rs, k)
                &&& new_rs[k].room_code@ == old_rs[k].room_code@
                &&& new_rs[k].host_user_id == old_rs[k].host_user_id
                &&& new_rs[k].status == old_rs[k].status
                &&& new_rs[k].members@ == old_rs[k].members@
                &&& o.voted_count == votes1.len()
                &&& o.total_alive == g.alive@.len()
                &&& o.finished == (votes1.len() >= g.alive@.len())
                &&& new_rs[k].game matches Some(ng) && {
                    &&& ng.key@ == g.key@
                    &&& ng.started_at == g.started_at
                    &&& ng.roles@ == g.roles@
                    &&& if !o.finished {
                        &&& ng.phase == GamePhase::Voting
                        &&& ng.votes@ == votes1
                        &&& ng.alive@ == g.alive@
                        &&& o.eliminated is None
                    } else {
                        &&& ng.phase == GamePhase::Started
                        &&& ng.votes@.len() == 0
                        &&& match o.eliminated {
                            Some(v) => is_sole_top(votes1, g.alive@, v) && ng.alive@
                                == g.alive@.remove(id_idx(g.alive@, v)),
                            None => (forall|c: i64| !is_sole_top(votes1, g.alive@, c))
                                && ng.alive@ == g.alive@,
                        }
                    }
                }
            }
        },
        Err(e) => {
            &&& new_rs == old_rs
            &&& ((e == GameError::RoomNotFound && k < 0) || (e == GameError::NotStarted && k >= 0
                && old_rs[k].game is None) || (e == GameError::NotAlive && k >= 0
                && (old_rs[k].game matches Some(g) && !g.alive@.contains(voter_id))))
        },
    }
}

/// The state transition of a successful `set_ready`: only that
/// member's `ready` flag changes; setting it to its current value
/// changes nothing at all.
pub open spec fn set_ready_state_post(
    old_rs: Seq<Room>,
    new_rs: Seq<Room>,
    code: Seq<char>,
    user_id: i64,
    ready: bool,
) -> bool {
    let k = room_idx(old_rs, code);
    &&& k >= 0
    &&& old_rs[k].status == RoomStatus::Lobby
    &&& member_idx(old_rs[k].members@, user_id) >= 0
    &&& rooms_same_except(old_rs, new_rs, k)
    &&& ({
        let oldr = old_rs[k];
        let newr = new_rs[k];
        let mi = member_idx(oldr.members@, user_id);
        let m0 = oldr.members@[mi];
        &&& newr.room_code@ == oldr.room_code@
        &&& newr.host_user_id == oldr.host_user_id
        &&& newr.status == oldr.status
        &&& newr.game == oldr.game
        &&& newr.members@.len() == oldr.members@.len()
        &&& (forall|j: int|
            0 <= j < oldr.members@.len() && j != mi ==> new_rs[k].members@[j]
                == old_rs[k].members@[j])
        &&& member_matches(
            newr.members@[mi],
            m0.user_id,
            m0.nick_name@,
            spec_avatar_view(m0.avatar),
            ready,
            m0.joined_at,
            m0.conn,
            m0.last_broadcast_at,
        )
        &&& (m0.ready == ready ==> newr.members@ =~= oldr.members@)
    })
}

/// What `set_ready` does: rejected exactly when the room is missing,
/// not in the lobby, or the user not a member; otherwise the transition
/// above, and the returned snapshot reflects the updated room.
pub open spec fn set_ready_post(
    old_rs: Seq<Room>,
    new_rs: Seq<Room>,
    code: Seq<char>,
    user_id: i64,
    ready: bool,
    r: Result<RoomStateOut, GameError>,
) -> bool {
    let k = room_idx(old_rs, code);
    match r {
        Ok(out) => {
            &&& set_ready_state_post(old_rs, new_rs, code, user_id, ready)
            &&& is_snapshot_of(new_rs[k], out)
        },
        Err(e) => {
            &&& new_rs == old_rs
            &&& ((e == GameError::RoomNotFound && k < 0) || (e == GameError::NotInLobby && k >= 0
                && old_rs[k].status != RoomStatus::Lobby) || (e == GameError::NotAMember && k >= 0
                && old_rs[k].status == RoomStatus::Lobby && member_idx(old_rs[k].members@, user_id)
                < 0))
        },
    }
}

/// What `join_room` does: a malformed code or a missing room without
/// `create_if_not_exists` is rejected and nothing changes; otherwise
/// either a fresh one-member room appears (its only member the host), or
/// the room gains the user — an existing membership only has nick name,
/// avatar, and delivery handle replaced.  The member set afterwards is
/// the old one plus the user.
pub open spec fn join_room_post(
    old_rs: Seq<Room>,
    new_rs: Seq<Room>,
    input: JoinRoomIn,
    conn: u64,
    now_ms: i64,
    r: Result<RoomStateOut, GameError>,
) -> bool {
    let code = input.room_code@;
    let k = room_idx(old_rs, code);
    match r {
        Ok(out) => {
            &&& is_valid_code(code)
            &&& if k < 0 {
                &&& input.create_if_not_exists
                &&& new_rs.len() == old_rs.len() + 1
                &&& new_rs.take(old_rs.len() as int) == old_rs
                &&& ({
                    let nr = new_rs.last();
                    &&& nr.room_code@ == code
                    &&& nr.host_user_id == input.user_id
                    &&& nr.status == RoomStatus::Lobby
                    &&& nr.game is None
                    &&& nr.members@.len() == 1
                    &&& member_matches(
                        nr.members@[0],
                        input.user_id,
                        input.nick_name@,
                        spec_avatar_view(input.avatar),
                        false,
                        now_ms,
                        conn,
                        0,
                    )
                    &&& is_snapshot_of(nr, out)
                })
            } else {
                &&& rooms_same_except(old_rs, new_rs, k)
                &&& ({
                    let oldr = old_rs[k];
                    let newr = new_rs[k];
                    let mi = member_idx(oldr.members@, input.user_id);
                    &&& newr.room_code@ == oldr.room_code@
                    &&& newr.host_user_id == oldr.host_user_id
                    &&& newr.status == oldr.status
                    &&& newr.game == oldr.game
                    &&& if mi >= 0 {
                        &&& newr.members@.len() == oldr.members@.len()
                        &&& (forall|j: int|
                            0 <= j < oldr.members@.len() && j != mi ==> newr.members@[j]
                                == oldr.members@[j])
                        &&& member_matches(
                            newr.members@[mi],
                            input.user_id,
                            input.nick_name@,
                            spec_avatar_view(input.avatar),
                            oldr.members@[mi].ready,
                            oldr.members@[mi].joined_at,
                            conn,
                            oldr.members@[mi].last_broadcast_at,
                        )
                    } else {
                        &&& newr.members@.len() == oldr.members@.len() + 1
                        &&& newr.members@.take(oldr.members@.len() as int) == oldr.members@
                        &&& member_matches(
                            newr.members@.last(),
                            input.user_id,
                            input.nick_name@,
                            spec_avatar_view(input.avatar),
                            false,
                            now_ms,
                            conn,
                            0,
                        )
                    }
                    &&& member_ids(newr.members@).to_set() == member_ids(oldr.members@).to_set()
                        .insert(input.user_id)
                    &&& is_snapshot_of(newr, out)
                })
            }
        },
        Err(e) => {
            &&& new_rs == old_rs
            &&& ((e == GameError::InvalidFormat && !is_valid_code(code)) || (e
                == GameError::RoomNotFound && is_valid_code(code) && k < 0
                && !input.create_if_not_exists))
        },
    }
}

/// The host is the member with the earliest `joined_at`, ties broken by
/// the smallest user id.
pub open spec fn host_is_earliest(ms: Seq<RoomMember>, host: i64) -> bool {
    let hi = member_idx(ms, host);
    &&& hi >= 0
    &&& forall|j: int|
        0 <= j < ms.len() && j != hi ==> lt_key(
            ms[hi].joined_at,
            ms[hi].user_id,
            (#[trigger] ms[j]).joined_at,
            ms[j].user_id,
        )
}

/// The state transition of `leave_room`: a missing room or membership
/// changes nothing; the last member's departure deletes the room;
/// otherwise the member disappears from the member set, and a departing
/// host is succeeded deterministically by the earliest remaining
/// member.
pub open spec fn leave_state_post(
    old_rs: Seq<Room>,
    new_rs: Seq<Room>,
    code: Seq<char>,
    user_id: i64,
) -> bool {
    let k = room_idx(old_rs, code);
    if k < 0 {
        new_rs == old_rs
    } else {
        let oldr = old_rs[k];
        let mi = member_idx(oldr.members@, user_id);
        if mi < 0 {
            new_rs == old_rs
        } else if oldr.members@.len() == 1 {
            new_rs == old_rs.remove(k)
        } else {
            &&& rooms_same_except(old_rs, new_rs, k)
            &&& ({
                let newr = new_rs[k];
                &&& newr.room_code@ == oldr.room_code@
                &&& newr.status == oldr.status
                &&& newr.game == oldr.game
                &&& newr.members@ == oldr.members@.remove(mi)
                &&& member_ids(newr.members@).to_set() == member_ids(oldr.members@).to_set()
                    .remove(user_id)
                &&& if oldr.host_user_id != user_id {
                    newr.host_user_id == oldr.host_user_id
                } else {
                    host_is_earliest(newr.members@, newr.host_user_id)
                }
            })
        }
    }
}

/// What `leave_room` does: the transition above; leaving a room one is
/// not in returns the prior snapshot unchanged, deletion returns
/// nothing, and an ordinary departure returns the updated snapshot.
pub open spec fn leave_room_post(
    old_rs: Seq<Room>,
    new_rs: Seq<Room>,
    code: Seq<char>,
    user_id: i64,
    r: Option<RoomStateOut>,
) -> bool {
    let k = room_idx(old_rs, code);
    &&& leave_state_post(old_rs, new_rs, code, user_id)
    &&& if k < 0 {
        r is None
    } else {
        let oldr = old_rs[k];
        let mi = member_idx(oldr.members@, user_id);
        if mi < 0 {
            r matches Some(out) && is_snapshot_of(oldr, out)
        } else if oldr.members@.len() == 1 {
            r is None
        } else {
            r matches Some(out) && is_snapshot_of(new_rs[k], out)
        }
    }
}

/// The character view of an optional string.
pub open spec fn spec_avatar_view(a: Option<String>) -> Option<Seq<char>> {
    match a {
        Some(s) => Some(s@),
        None => None,
    }
}

/// The member record has exactly these field contents.
pub open spec fn member_matches(
    m: RoomMember,
    user_id: i64,
    nick: Seq<char>,
    avatar: Option<Seq<char>>,
    ready: bool,
    joined_at: i64,
    conn: u64,
    last_broadcast_at: i64,
) -> bool {
    &&& m.user_id == user_id
    &&& m.nick_name@ == nick
    &&& spec_avatar_view(m.avatar) == avatar
    &&& m.ready == ready
    &&& m.joined_at == joined_at
    &&& m.conn == conn
    &&& m.last_broadcast_at == last_broadcast_at
}

} // verus!
