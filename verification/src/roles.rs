//! The role dealer: a pure assignment of hidden roles to a player set.
//!
//! The wolf count scales with the population by a fixed step function; a
//! witness is dealt exactly when there are at least five players; everyone
//! else is a villager.  Which player gets which role is uniformly random,
//! but every counting property holds for every permutation.

use vstd::prelude::*;
use crate::protocol::{Role, RoleRevealOut};
use crate::rng::shuffle_ids;

verus! {

/// The wolf count for a player set of size `n`.
pub open spec fn spec_wolf_count(n: nat) -> nat {
    if n == 0 {
        0
    } else if n <= 5 {
        1
    } else if n <= 8 {
        2
    } else if n <= 11 {
        3
    } else if n <= 15 {
        4
    } else {
        n / 3
    }
}

/// A witness is dealt exactly when at least five players are present.
pub open spec fn spec_has_witness(n: nat) -> bool {
    n >= 5
}

/// The role dealt at position `i` of the shuffled player order, for a
/// game of `n` players: wolves first, then the witness if any, then
/// villagers.
pub open spec fn role_at(n: nat, i: int) -> Role {
    if i < spec_wolf_count(n) {
        Role::Wolf
    } else if spec_has_witness(n) && i == spec_wolf_count(n) {
        Role::Witness
    } else {
        Role::Villager
    }
}

/// How often role `r` occurs in an assignment.
pub open spec fn role_count(s: Seq<(i64, Role)>, r: Role) -> nat
    decreases s.len(),
{
    if s.len() == 0 {
        0
    } else {
        role_count(s.drop_last(), r) + (if s.last().1 == r {
            1nat
        } else {
            0nat
        })
    }
}

/// The player ids of an assignment, in assignment order.
pub open spec fn assigned_ids(s: Seq<(i64, Role)>) -> Seq<i64> {
    s.map_values(|p: (i64, Role)| p.0)
}

/// The wolves of an assignment, in assignment order.
pub open spec fn wolf_ids(s: Seq<(i64, Role)>) -> Seq<i64>
    decreases s.len(),
{
    if s.len() == 0 {
        Seq::<i64>::empty()
    } else if s.last().1 == Role::Wolf {
        wolf_ids(s.drop_last()).push(s.last().0)
    } else {
        wolf_ids(s.drop_last())
    }
}

/// `s` with every occurrence of `v` removed, order preserved.
pub open spec fn seq_without(s: Seq<i64>, v: i64) -> Seq<i64>
    decreases s.len(),
{
    if s.len() == 0 {
        Seq::<i64>::empty()
    } else if s.last() == v {
        seq_without(s.drop_last(), v)
    } else {
        seq_without(s.drop_last(), v).push(s.last())
    }
}

/// The wolf count step function: 1 wolf up to five players, 2 up to
/// eight, 3 up to eleven, 4 up to fifteen, a third of the table beyond.
pub fn wolf_count(total: usize) -> (r: usize)
    ensures
        r == spec_wolf_count(total as nat),
{
    if total == 0 {
        0
    } else if total <= 5 {
        1
    } else if total <= 8 {
        2
    } else if total <= 11 {
        3
    } else if total <= 15 {
        4
    } else if total / 3 > 1 {
        total / 3
    } else {
        1
    }
}

/// There are never more wolves than players.
pub proof fn lemma_wolf_count_le(n: nat)
    ensures
        spec_wolf_count(n) <= n,
        spec_has_witness(n) ==> spec_wolf_count(n) < n,
{
}

/// Wolves listed by `wolf_ids` are never more than the whole assignment.
pub proof fn lemma_wolf_ids_len(s: Seq<(i64, Role)>)
    ensures
        wolf_ids(s).len() <= s.len(),
    decreases s.len(),
{
    if s.len() > 0 {
        lemma_wolf_ids_len(s.drop_last());
    }
}

/// Counts each role in the first `k` positions of a positionally dealt
/// assignment.
proof fn lemma_role_count_take(s: Seq<(i64, Role)>, n: nat, k: int)
    requires
        s.len() == n,
        forall|i: int| 0 <= i < s.len() ==> (#[trigger] s[i]).1 == role_at(n, i),
        0 <= k <= n,
    ensures
        role_count(s.take(k), Role::Wolf) == if k <= spec_wolf_count(n) {
            k
        } else {
            spec_wolf_count(n) as int
        },
        role_count(s.take(k), Role::Witness) == if spec_has_witness(n) && k
            > spec_wolf_count(n) {
            1int
        } else {
            0int
        },
        role_count(s.take(k), Role::Villager) == k - role_count(s.take(k), Role::Wolf)
            - role_count(s.take(k), Role::Witness),
    decreases k,
{
    if k == 0 {
        assert(s.take(0).len() == 0);
    } else {
        lemma_role_count_take(s, n, k - 1);
        assert(s.take(k).drop_last() =~= s.take(k - 1));
        assert(s.take(k).last() == s[k - 1]);
        assert(s[k - 1].1 == role_at(n, k - 1));
    }
}

/// The role counts of a complete positional assignment.
pub proof fn lemma_role_counts(s: Seq<(i64, Role)>, n: nat)
    requires
        s.len() == n,
        forall|i: int| 0 <= i < s.len() ==> (#[trigger] s[i]).1 == role_at(n, i),
    ensures
        role_count(s, Role::Wolf) == spec_wolf_count(n),
        role_count(s, Role::Witness) == if spec_has_witness(n) {
            1int
        } else {
            0int
        },
        role_count(s, Role::Villager) == n - role_count(s, Role::Wolf) - role_count(
            s,
            Role::Witness,
        ),
{
    lemma_wolf_count_le(n);
    lemma_role_count_take(s, n, n as int);
    assert(s.take(n as int) =~= s);
}

/// What a correct private reveal for `uid` holding `role` looks like,
/// given the full assignment `s`: a villager learns no wolf identities, a
/// wolf learns every wolf but itself, and a witness learns the full wolf
/// set.
pub open spec fn reveal_matches(s: Seq<(i64, Role)>, uid: i64, role: Role, rr: RoleRevealOut) -> bool {
    &&& rr.to_user_id == uid
    &&& rr.role == role
    &&& rr.wolf_count == wolf_ids(s).len()
    &&& rr.total_players == s.len()
    &&& (role == Role::Villager ==> rr.wolf_user_ids@ == Seq::<i64>::empty())
    &&& (role == Role::Witness ==> rr.wolf_user_ids@ == wolf_ids(s))
    &&& (role == Role::Wolf ==> rr.wolf_user_ids@ == seq_without(wolf_ids(s), uid))
}

/// A copy of an id list.
fn copy_ids(v: &Vec<i64>) -> (out: Vec<i64>)
    ensures
        out@ == v@,
{
    let mut out: Vec<i64> = Vec::new();
    for k in 0..v.len()
        invariant
            out@ == v@.take(k as int),
    {
        out.push(v[k]);
        proof {
            assert(out@ =~= v@.take(k + 1));
        }
    }
    proof {
        assert(out@ =~= v@);
    }
    out
}

/// The given wolves with `uid` itself left out.
fn wolves_except(wolves: &Vec<i64>, uid: i64) -> (out: Vec<i64>)
    ensures
        out@ == seq_without(wolves@, uid),
{
    let mut out: Vec<i64> = Vec::new();
    for j in 0..wolves.len()
        invariant
            out@ == seq_without(wolves@.take(j as int), uid),
    {
        if wolves[j] != uid {
            out.push(wolves[j]);
        }
        proof {
            assert(wolves@.take(j + 1).drop_last() =~= wolves@.take(j as int));
            assert(wolves@.take(j + 1).last() == wolves@[j as int]);
        }
    }
    proof {
        assert(wolves@.take(wolves@.len() as int) =~= wolves@);
    }
    out
}

/// Builds the private reveal for every dealt player.  The asymmetric
/// disclosure is the game's core secrecy invariant: a villager's wolf
/// list is empty, a wolf's excludes itself, a witness's is the full wolf
/// set.
pub fn build_reveals(assignments: &Vec<(i64, Role)>) -> (out: Vec<(i64, RoleRevealOut)>)
    requires
        assignments@.len() <= i64::MAX,
    ensures
        out@.len() == assignments@.len(),
        forall|i: int|
            0 <= i < out@.len() ==> (#[trigger] out@[i]).0 == assignments@[i].0 && reveal_matches(
                assignments@,
                assignments@[i].0,
                assignments@[i].1,
                out@[i].1,
            ),
{
    let total = assignments.len();

    let mut wolves: Vec<i64> = Vec::new();
    for i in 0..total
        invariant
            total == assignments@.len(),
            wolves@ == wolf_ids(assignments@.take(i as int)),
    {
        let p = assignments[i];
        if p.1 == Role::Wolf {
            wolves.push(p.0);
        }
        proof {
            assert(assignments@.take(i + 1).drop_last() =~= assignments@.take(i as int));
            assert(assignments@.take(i + 1).last() == assignments@[i as int]);
        }
    }
    proof {
        assert(assignments@.take(assignments@.len() as int) =~= assignments@);
        lemma_wolf_ids_len(assignments@);
    }

    let wolf_n: i64 = wolves.len() as i64;
    let total_i: i64 = total as i64;
    let mut out: Vec<(i64, RoleRevealOut)> = Vec::new();
    for i in 0..total
        invariant
            total == assignments@.len(),
            total_i == total,
            wolves@ == wolf_ids(assignments@),
            wolf_n == wolf_ids(assignments@).len(),
            out@.len() == i,
            forall|j: int|
                0 <= j < i ==> (#[trigger] out@[j]).0 == assignments@[j].0 && reveal_matches(
                    assignments@,
                    assignments@[j].0,
                    assignments@[j].1,
                    out@[j].1,
                ),
    {
        let p = assignments[i];
        let uid = p.0;
        let role = p.1;
        let wolf_list: Vec<i64> = if role == Role::Wolf {
            wolves_except(&wolves, uid)
        } else if role == Role::Witness {
            copy_ids(&wolves)
        } else {
            Vec::new()
        };
        out.push(
            (
                uid,
                RoleRevealOut {
                    to_user_id: uid,
                    role,
                    wolf_user_ids: wolf_list,
                    wolf_count: wolf_n,
                    total_players: total_i,
                },
            ),
        );
    }
    out
}

/// Deals roles to `user_ids`: the wolf count follows the step function,
/// exactly one witness appears iff there are at least five players, every
/// player receives exactly one role, and the dealt players are exactly
/// the given ones.
pub fn deal_witness_werewolf_roles(user_ids: &Vec<i64>) -> (out: Vec<(i64, Role)>)
    ensures
        out@.len() == user_ids@.len(),
        assigned_ids(out@).to_multiset() == user_ids@.to_multiset(),
        forall|i: int|
            0 <= i < out@.len() ==> (#[trigger] out@[i]).1 == role_at(user_ids@.len(), i),
        role_count(out@, Role::Wolf) == spec_wolf_count(user_ids@.len()),
        role_count(out@, Role::Witness) == if spec_has_witness(user_ids@.len()) {
            1int
        } else {
            0int
        },
        role_count(out@, Role::Villager) == user_ids@.len() - role_count(out@, Role::Wolf)
            - role_count(out@, Role::Witness),
{
    let total = user_ids.len();
    let wolves = wolf_count(total);
    let has_witness = total >= 5;

    let mut ids: Vec<i64> = Vec::new();
    for k in 0..total
        invariant
            total == user_ids@.len(),
            ids@ == user_ids@.take(k as int),
    {
        ids.push(user_ids[k]);
        proof {
            assert(ids@ =~= user_ids@.take(k + 1));
        }
    }
    proof {
        assert(ids@ =~= user_ids@);
    }
    shuffle_ids(&mut ids);

    let ghost n = user_ids@.len();
    let mut out: Vec<(i64, Role)> = Vec::new();
    for idx in 0..total
        invariant
            total == n,
            ids@.len() == n,
            wolves == spec_wolf_count(n),
            has_witness == spec_has_witness(n),
            out@.len() == idx,
            forall|i: int|
                0 <= i < idx ==> (#[trigger] out@[i]).0 == ids@[i] && out@[i].1 == role_at(n, i),
            ids@.to_multiset() == user_ids@.to_multiset(),
    {
        let role = if idx < wolves {
            Role::Wolf
        } else if has_witness && idx == wolves {
            Role::Witness
        } else {
            Role::Villager
        };
        out.push((ids[idx], role));
    }
    proof {
        assert(assigned_ids(out@) =~= ids@);
        lemma_role_counts(out@, n);
    }
    out
}

} // verus!
