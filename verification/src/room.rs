//! The room aggregate: membership, readiness, game phase, alive set,
//! votes, and per-member rate-limit timestamps.
//!
//! A room always has at least one member; its host is always a member.
//! The outbound delivery handle and the rate-limit timestamp live on the
//! member record: a user has at most one active handle, and a new join
//! overwrites the previous one.

use vstd::prelude::*;
use vstd::seq_lib::group_to_multiset_ensures;
use crate::protocol::{GameOut, Role, RoomMemberOut, RoomStatus, RoomStateOut};

verus! {

/// A game alternates between open discussion and a voting round.
#[derive(Debug, Clone, Copy, PartialEq, Eq, Structural)]
pub enum GamePhase {
    /// Discussion; the next vote opens a voting round.
    Started,
    /// A voting round is open.
    Voting,
}

/// One member of a room.
#[derive(Debug, Clone)]
pub struct RoomMember {
    pub user_id: i64,
    pub nick_name: String,
    pub avatar: Option<String>,
    /// Only meaningful in the lobby.
    pub ready: bool,
    /// Monotonic join timestamp; drives host succession and snapshot order.
    pub joined_at: i64,
    /// The outbound delivery handle of the member's live connection.
    pub conn: u64,
    /// When the member's last accepted broadcast happened; 0 = never.
    pub last_broadcast_at: i64,
}

/// The running game of a room, present only once started.
#[derive(Debug, Clone)]
pub struct GameState {
    /// The selected game variant.
    pub key: String,
    pub started_at: i64,
    pub phase: GamePhase,
    /// Shrinks as players are eliminated.
    pub alive: Vec<i64>,
    /// Fixed for the game's duration.
    pub roles: Vec<(i64, Role)>,
    /// Voter to optional target; `None` is an abstention.
    pub votes: Vec<(i64, Option<i64>)>,
}

/// A short-lived room, owned exclusively by the registry.
#[derive(Debug, Clone)]
pub struct Room {
    pub room_code: String,
    pub host_user_id: i64,
    pub status: RoomStatus,
    pub members: Vec<RoomMember>,
    pub game: Option<GameState>,
}

/// The user ids of a member list, in join order.
pub open spec fn member_ids(s: Seq<RoomMember>) -> Seq<i64> {
    s.map_values(|m: RoomMember| m.user_id)
}

/// No two members share a user id.
pub open spec fn members_distinct(s: Seq<RoomMember>) -> bool {
    forall|j: int, k: int| 0 <= j < k < s.len() ==> s[j].user_id != s[k].user_id
}

/// No id occurs twice.
pub open spec fn ids_distinct(s: Seq<i64>) -> bool {
    forall|j: int, k: int| 0 <= j < k < s.len() ==> s[j] != s[k]
}

/// The game-round bookkeeping is consistent: alive players and voters
/// are unique, and every recorded voter is still alive.
pub open spec fn game_wf(g: GameState) -> bool {
    &&& ids_distinct(g.alive@)
    &&& (forall|j: int, k: int| 0 <= j < k < g.votes@.len() ==> g.votes@[j].0 != g.votes@[k].0)
    &&& (forall|j: int| 0 <= j < g.votes@.len() ==> g.alive@.contains(#[trigger] g.votes@[j].0))
}

impl Room {
    /// The room invariant: a room is never empty (an empty room is
    /// deleted, not retained), its host is a member, the game exists
    /// exactly while the status says so, and the round bookkeeping is
    /// consistent.
    pub open spec fn wf(self) -> bool {
        &&& self.members@.len() > 0
        &&& members_distinct(self.members@)
        &&& member_ids(self.members@).contains(self.host_user_id)
        &&& (self.status == RoomStatus::Lobby <==> self.game is None)
        &&& match self.game {
            Some(g) => game_wf(g),
            None => true,
        }
    }
}

/// The first position of `uid` in a member list, or -1 when absent.
pub open spec fn member_idx(s: Seq<RoomMember>, uid: i64) -> int
    decreases s.len(),
{
    if s.len() == 0 {
        -1
    } else if s[0].user_id == uid {
        0
    } else {
        let r = member_idx(s.drop_first(), uid);
        if r < 0 {
            -1
        } else {
            r + 1
        }
    }
}

/// What `member_idx` finds.
pub proof fn lemma_member_idx(s: Seq<RoomMember>, uid: i64)
    ensures
        member_idx(s, uid) >= 0 ==> member_idx(s, uid) < s.len() && s[member_idx(s, uid)].user_id
            == uid,
        member_idx(s, uid) == -1 ==> forall|j: int|
            0 <= j < s.len() ==> (#[trigger] s[j]).user_id != uid,
        member_idx(s, uid) >= -1,
    decreases s.len(),
{
    if s.len() > 0 && s[0].user_id != uid {
        lemma_member_idx(s.drop_first(), uid);
        if member_idx(s.drop_first(), uid) == -1 {
            assert forall|j: int| 0 <= j < s.len() implies s[j].user_id != uid by {
                if j > 0 {
                    assert(s.drop_first()[j - 1] == s[j]);
                }
            }
        }
    }
}

/// `member_idx` finds the first occurrence.
pub proof fn lemma_member_idx_at(s: Seq<RoomMember>, uid: i64, k: int)
    requires
        0 <= k < s.len(),
        s[k].user_id == uid,
        forall|j: int| 0 <= j < k ==> (#[trigger] s[j]).user_id != uid,
    ensures
        member_idx(s, uid) == k,
    decreases s.len(),
{
    if k > 0 {
        assert forall|j: int| 0 <= j < k - 1 implies (s.drop_first()[j]).user_id != uid by {
            assert(s.drop_first()[j] == s[j + 1]);
        }
        assert(s.drop_first()[k - 1] == s[k]);
        lemma_member_idx_at(s.drop_first(), uid, k - 1);
    }
}

/// The position of `uid` in a member list, if present.
pub fn find_member(members: &Vec<RoomMember>, uid: i64) -> (r: Option<usize>)
    ensures
        match r {
            Some(j) => j == member_idx(members@, uid),
            None => member_idx(members@, uid) == -1,
        },
{
    let n = members.len();
    let mut k: usize = 0;
    while k < n
        invariant
            k <= n,
            n == members@.len(),
            forall|j: int| 0 <= j < k ==> (#[trigger] members@[j]).user_id != uid,
        decreases n - k,
    {
        if members[k].user_id == uid {
            proof {
                lemma_member_idx_at(members@, uid, k as int);
            }
            return Some(k);
        }
        k = k + 1;
    }
    proof {
        lemma_member_idx(members@, uid);
        if member_idx(members@, uid) >= 0 {
            assert(members@[member_idx(members@, uid)].user_id == uid);
        }
    }
    None
}

/// Lexicographic member order: earlier `joined_at` first, ties broken by
/// the smaller user id.
pub open spec fn lt_key(aj: i64, au: i64, bj: i64, bu: i64) -> bool {
    aj < bj || (aj == bj && au < bu)
}

/// The member that host succession picks: the earliest `joined_at`,
/// ties broken by the smallest user id — deterministic and reproducible.
pub fn earliest_member(members: &Vec<RoomMember>) -> (r: usize)
    requires
        members@.len() > 0,
        members_distinct(members@),
    ensures
        r < members@.len(),
        forall|k: int|
            0 <= k < members@.len() && k != r ==> lt_key(
                members@[r as int].joined_at,
                members@[r as int].user_id,
                (#[trigger] members@[k]).joined_at,
                members@[k].user_id,
            ),
{
    let n = members.len();
    let mut m: usize = 0;
    let mut t: usize = 1;
    while t < n
        invariant
            n == members@.len(),
            members_distinct(members@),
            m < t <= n,
            forall|k: int|
                0 <= k < t && k != m ==> lt_key(
                    members@[m as int].joined_at,
                    members@[m as int].user_id,
                    (#[trigger] members@[k]).joined_at,
                    members@[k].user_id,
                ),
        decreases n - t,
    {
        let better = members[t].joined_at < members[m].joined_at || (members[t].joined_at
            == members[m].joined_at && members[t].user_id < members[m].user_id);
        if better {
            m = t;
        }
        t = t + 1;
    }
    m
}

/// What the public snapshot of one member looks like.
pub open spec fn out_matches(m: RoomMember, host: i64, o: RoomMemberOut) -> bool {
    &&& o.user_id == m.user_id
    &&& o.nick_name@ == m.nick_name@
    &&& match (m.avatar, o.avatar) {
        (Some(a), Some(b)) => a@ == b@,
        (None, None) => true,
        _ => false,
    }
    &&& o.ready == m.ready
    &&& o.is_host == (m.user_id == host)
    &&& o.joined_at == m.joined_at
}

/// What one line of the public member list says, with strings taken by
/// their character sequences.
pub ghost struct SnapEntry {
    pub user_id: i64,
    pub nick_name: Seq<char>,
    pub avatar: Option<Seq<char>>,
    pub ready: bool,
    pub is_host: bool,
    pub joined_at: i64,
}

/// The content of a snapshot line.
pub open spec fn entry_of_out(o: RoomMemberOut) -> SnapEntry {
    SnapEntry {
        user_id: o.user_id,
        nick_name: o.nick_name@,
        avatar: match o.avatar {
            Some(a) => Some(a@),
            None => None,
        },
        ready: o.ready,
        is_host: o.is_host,
        joined_at: o.joined_at,
    }
}

/// The snapshot line that member `m` must produce under host `host`.
pub open spec fn entry_of_member(m: RoomMember, host: i64) -> SnapEntry {
    SnapEntry {
        user_id: m.user_id,
        nick_name: m.nick_name@,
        avatar: match m.avatar {
            Some(a) => Some(a@),
            None => None,
        },
        ready: m.ready,
        is_host: m.user_id == host,
        joined_at: m.joined_at,
    }
}

/// The snapshot member list `outs` shows exactly the members `ms`: line
/// for line the same content, as a multiset.
pub open spec fn members_snapshot_ok(ms: Seq<RoomMember>, host: i64, outs: Seq<RoomMemberOut>) -> bool {
    outs.map_values(|o: RoomMemberOut| entry_of_out(o)).to_multiset() == ms.map_values(
        |m: RoomMember| entry_of_member(m, host),
    ).to_multiset()
}

/// Snapshot order: ascending `joined_at`, ties broken by user id.
pub open spec fn le_out(a: RoomMemberOut, b: RoomMemberOut) -> bool {
    a.joined_at < b.joined_at || (a.joined_at == b.joined_at && a.user_id <= b.user_id)
}

/// The member list of a snapshot is sorted.
pub open spec fn sorted_out(s: Seq<RoomMemberOut>) -> bool {
    forall|i: int, j: int| 0 <= i < j < s.len() ==> le_out(#[trigger] s[i], #[trigger] s[j])
}

/// The two game states say the same thing, comparing strings and
/// vectors by content.
pub open spec fn game_eq(a: Option<GameState>, b: Option<GameState>) -> bool {
    match (a, b) {
        (None, None) => true,
        (Some(x), Some(y)) => {
            &&& x.key@ == y.key@
            &&& x.started_at == y.started_at
            &&& x.phase == y.phase
            &&& x.alive@ == y.alive@
            &&& x.roles@ == y.roles@
            &&& x.votes@ == y.votes@
        },
        _ => false,
    }
}

/// The two rooms say the same thing, comparing strings and vectors by
/// content.
pub open spec fn room_eq(a: Room, b: Room) -> bool {
    &&& a.room_code@ == b.room_code@
    &&& a.host_user_id == b.host_user_id
    &&& a.status == b.status
    &&& a.members@ == b.members@
    &&& game_eq(a.game, b.game)
}

/// What a public snapshot of `room` must say.
pub open spec fn is_snapshot_of(room: Room, out: RoomStateOut) -> bool {
    &&& out.room_code@ == room.room_code@
    &&& out.host_user_id == room.host_user_id
    &&& out.status == room.status
    &&& out.members@.len() == room.members@.len()
    &&& sorted_out(out.members@)
    &&& members_snapshot_ok(room.members@, room.host_user_id, out.members@)
    &&& match (room.game, out.game) {
        (Some(g), Some(o)) => o.key@ == g.key@ && o.started_at == g.started_at,
        (None, None) => true,
        _ => false,
    }
}

/// Sorts snapshot members by `le_out`, preserving them as a multiset.
fn sort_members_out(v: Vec<RoomMemberOut>) -> (out: Vec<RoomMemberOut>)
    ensures
        out@.len() == v@.len(),
        out@.to_multiset() == v@.to_multiset(),
        sorted_out(out@),
{
    broadcast use group_to_multiset_ensures;

    let mut work = v;
    let mut out: Vec<RoomMemberOut> = Vec::new();
    while work.len() > 0
        invariant
            out@.len() + work@.len() == v@.len(),
            out@.to_multiset().add(work@.to_multiset()) == v@.to_multiset(),
            sorted_out(out@),
            forall|a: int, b: int|
                0 <= a < out@.len() && 0 <= b < work@.len() ==> le_out(
                    #[trigger] out@[a],
                    #[trigger] work@[b],
                ),
        decreases work@.len(),
    {
        let n = work.len();
        let mut m: usize = 0;
        let mut t: usize = 1;
        while t < n
            invariant
                n == work@.len(),
                m < t <= n,
                forall|k: int| 0 <= k < t ==> le_out(work@[m as int], #[trigger] work@[k]),
            decreases n - t,
        {
            let better = work[t].joined_at < work[m].joined_at || (work[t].joined_at
                == work[m].joined_at && work[t].user_id < work[m].user_id);
            if better {
                m = t;
            }
            t = t + 1;
        }
        let ghost work0 = work@;
        let ghost out0 = out@;
        let x = work.remove(m);
        out.push(x);
        proof {
            broadcast use group_to_multiset_ensures;

            assert(work0.contains(x));
            assert(work@ == work0.remove(m as int));
            assert(work@.to_multiset() =~= work0.to_multiset().remove(x));
            assert(out@.to_multiset() =~= out0.to_multiset().insert(x));
            assert(work0.to_multiset().count(x) > 0);
            assert(out@.to_multiset().add(work@.to_multiset()) =~= v@.to_multiset());
            assert forall|a: int, b: int|
                0 <= a < out@.len() && 0 <= b < work@.len() implies le_out(out@[a], work@[b]) by {
                if b < m {
                    assert(work@[b] == work0[b]);
                } else {
                    assert(work@[b] == work0[b + 1]);
                }
                if a < out0.len() {
                    assert(out@[a] == out0[a]);
                } else {
                    assert(out@[a] == x);
                }
            }
            assert forall|i: int, j: int|
                0 <= i < j < out@.len() implies le_out(out@[i], out@[j]) by {
                if j < out0.len() {
                    assert(le_out(out0[i], out0[j]));
                } else {
                    assert(out@[j] == x);
                }
            }
        }
    }
    out
}

impl Room {
    /// The public view of the room: code, host, status, the member list
    /// sorted by join time (hidden roles and raw votes excluded), and
    /// the game summary once started.
    pub fn to_out(&self) -> (r: RoomStateOut)
        ensures
            is_snapshot_of(*self, r),
    {
        broadcast use group_to_multiset_ensures;

        let n = self.members.len();
        let mut mapped: Vec<RoomMemberOut> = Vec::new();
        let mut i: usize = 0;
        while i < n
            invariant
                n == self.members@.len(),
                i <= n,
                mapped@.len() == i,
                forall|j: int|
                    0 <= j < i ==> out_matches(
                        self.members@[j],
                        self.host_user_id,
                        #[trigger] mapped@[j],
                    ),
            decreases n - i,
        {
            let m = &self.members[i];
            let avatar = match &m.avatar {
                Some(a) => Some(a.clone()),
                None => None,
            };
            mapped.push(
                RoomMemberOut {
                    user_id: m.user_id,
                    nick_name: m.nick_name.clone(),
                    avatar,
                    ready: m.ready,
                    is_host: m.user_id == self.host_user_id,
                    joined_at: m.joined_at,
                },
            );
            i = i + 1;
        }
        let ghost mapped0 = mapped@;
        let sorted = sort_members_out(mapped);
        let game = match &self.game {
            Some(g) => Some(GameOut { key: g.key.clone(), started_at: g.started_at }),
            None => None,
        };
        let r = RoomStateOut {
            room_code: self.room_code.clone(),
            host_user_id: self.host_user_id,
            status: self.status,
            members: sorted,
            game,
        };
        proof {
            let ms = self.members@;
            let host = self.host_user_id;
            let outs = r.members@;
            let f_out = |o: RoomMemberOut| entry_of_out(o);
            let f_mem = |m: RoomMember| entry_of_member(m, host);
            assert(mapped0.map_values(f_out) =~= ms.map_values(f_mem));
            crate::seqs::lemma_map_values_multiset(outs, mapped0, f_out);
            assert(members_snapshot_ok(ms, host, outs));
            assert(is_snapshot_of(*self, r));
        }
        r
    }
}

} // verus!
