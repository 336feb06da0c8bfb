//! Laws of the coordinator, stated and proved over the same spec
//! functions that the operations' contracts use.

use vstd::prelude::*;
use crate::hub::{
    lemma_room_idx_stable, room_idx, rooms_wf, set_ready_state_post,
};
use crate::room::{game_eq, lemma_member_idx_at, member_idx, room_eq, Room};

verus! {

/// The member set that a sequence of join/leave steps produces,
/// starting from an empty room: each `(true, u)` step inserts `u`, each
/// `(false, u)` step removes `u` — exactly what `join_room` and
/// `leave_room` ensure of the room's member-id set.
pub open spec fn trace_members(t: Seq<(bool, i64)>) -> Set<i64>
    decreases t.len(),
{
    if t.len() == 0 {
        Set::empty()
    } else {
        let s = trace_members(t.drop_last());
        if t.last().0 {
            s.insert(t.last().1)
        } else {
            s.remove(t.last().1)
        }
    }
}

/// For every sequence of join/leave steps, the member set holds exactly
/// the users whose most recent step was a join: `u` is a member iff
/// some join of `u` happened and no leave of `u` followed it.
pub proof fn lemma_membership_characterization(t: Seq<(bool, i64)>, u: i64)
    ensures
        trace_members(t).contains(u) <==> (exists|k: int|
            0 <= k < t.len() && #[trigger] t[k] == (true, u) && (forall|m: int|
                k < m < t.len() ==> #[trigger] t[m] != (false, u))),
    decreases t.len(),
{
    if t.len() == 0 {
    } else {
        let tp = t.drop_last();
        let last = t.last();
        lemma_membership_characterization(tp, u);
        if last == (true, u) {
            assert(trace_members(t).contains(u));
            let k = t.len() - 1;
            assert(t[k] == (true, u));
            assert(forall|m: int| k < m < t.len() ==> #[trigger] t[m] != (false, u));
        } else if last == (false, u) {
            assert(!trace_members(t).contains(u));
            assert forall|k: int|
                0 <= k < t.len() implies !(#[trigger] t[k] == (true, u) && (forall|m: int|
                k < m < t.len() ==> #[trigger] t[m] != (false, u))) by {
                if t[k] == (true, u) {
                    assert(k < t.len() - 1 < t.len());
                    assert(t[t.len() - 1] == (false, u));
                }
            }
        } else {
            assert(trace_members(t).contains(u) == trace_members(tp).contains(u));
            if trace_members(tp).contains(u) {
                let k = choose|k: int|
                    0 <= k < tp.len() && #[trigger] tp[k] == (true, u) && (forall|m: int|
                        k < m < tp.len() ==> #[trigger] tp[m] != (false, u));
                assert(t[k] == (true, u));
                assert forall|m: int| k < m < t.len() implies #[trigger] t[m] != (false, u) by {
                    if m < t.len() - 1 {
                        assert(tp[m] != (false, u));
                    }
                }
            }
            if exists|k: int|
                0 <= k < t.len() && #[trigger] t[k] == (true, u) && (forall|m: int|
                    k < m < t.len() ==> #[trigger] t[m] != (false, u)) {
                let k = choose|k: int|
                    0 <= k < t.len() && #[trigger] t[k] == (true, u) && (forall|m: int|
                        k < m < t.len() ==> #[trigger] t[m] != (false, u));
                assert(t[k] != last || last == (true, u));
                assert(k < t.len() - 1);
                assert(tp[k] == t[k]);
                assert forall|m: int| k < m < tp.len() implies #[trigger] tp[m] != (false, u) by {
                    assert(t[m] != (false, u));
                }
                assert(trace_members(tp).contains(u));
            }
        }
    }
}

/// Setting the same readiness twice is a state-wise no-op: applying the
/// `set_ready` transition again with the same value leaves every room
/// saying exactly what it already said.
pub proof fn lemma_set_ready_idempotent(
    rs0: Seq<Room>,
    rs1: Seq<Room>,
    rs2: Seq<Room>,
    code: Seq<char>,
    uid: i64,
    v: bool,
)
    requires
        rooms_wf(rs0),
        set_ready_state_post(rs0, rs1, code, uid, v),
        set_ready_state_post(rs1, rs2, code, uid, v),
    ensures
        rs2.len() == rs1.len(),
        forall|j: int| 0 <= j < rs1.len() ==> room_eq(#[trigger] rs2[j], rs1[j]),
{
    let k = room_idx(rs0, code);
    crate::hub::lemma_room_idx(rs0, code);
    lemma_room_idx_stable(rs0, rs1, code, k);
    let oldr = rs0[k];
    let mi = member_idx(oldr.members@, uid);
    crate::room::lemma_member_idx(oldr.members@, uid);
    assert(rs1[k].members@[mi].user_id == uid);
    assert forall|j: int| 0 <= j < mi implies (#[trigger] rs1[k].members@[j]).user_id != uid by {
        assert(rs1[k].members@[j] == oldr.members@[j]);
        assert(oldr.members@[mi].user_id == uid);
        assert(crate::room::members_distinct(oldr.members@));
    }
    lemma_member_idx_at(rs1[k].members@, uid, mi);
    assert(member_idx(rs1[k].members@, uid) == mi);
    assert(rs1[k].members@[mi].ready == v);
    assert(rs2[k].members@ =~= rs1[k].members@);
    assert forall|j: int| 0 <= j < rs1.len() implies room_eq(#[trigger] rs2[j], rs1[j]) by {
        if j != k {
            assert(rs2[j] == rs1[j]);
        } else {
            assert(game_eq(rs2[k].game, rs1[k].game)) by {
                assert(rs2[k].game == rs1[k].game);
            }
        }
    }
}

} // verus!
