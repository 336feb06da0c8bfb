//! The vote tally: a pure resolution of one voting round.
//!
//! Only non-abstaining votes for currently alive targets count.  The
//! round eliminates the single highest-count candidate; an empty tally or
//! a tie on top eliminates nobody.

use vstd::prelude::*;
use vstd::pervasive::VecAdditionalExecFns;
use crate::ids::{contains_id, find_id};

verus! {

/// How many of `votes` name `c` as their target.
pub open spec fn count_target(votes: Seq<(i64, Option<i64>)>, c: i64) -> nat
    decreases votes.len(),
{
    if votes.len() == 0 {
        0
    } else {
        count_target(votes.drop_last(), c) + (if votes.last().1 == Some(c) {
            1nat
        } else {
            0nat
        })
    }
}

/// The votes credited to `c`: votes naming `c`, counted only while `c`
/// is alive.
pub open spec fn vote_count(votes: Seq<(i64, Option<i64>)>, alive: Seq<i64>, c: i64) -> nat {
    if alive.contains(c) {
        count_target(votes, c)
    } else {
        0
    }
}

/// Whether `c` alone has the highest credited vote count: at least one
/// vote, and strictly more than every other candidate.
pub open spec fn is_sole_top(votes: Seq<(i64, Option<i64>)>, alive: Seq<i64>, c: i64) -> bool {
    &&& vote_count(votes, alive, c) >= 1
    &&& forall|d: i64|
        d != c ==> vote_count(votes, alive, d) < vote_count(votes, alive, c)
}

/// The first position of voter `v` in the recorded votes, or -1.
pub open spec fn vote_idx(s: Seq<(i64, Option<i64>)>, v: i64) -> int
    decreases s.len(),
{
    if s.len() == 0 {
        -1
    } else if s[0].0 == v {
        0
    } else {
        let r = vote_idx(s.drop_first(), v);
        if r < 0 {
            -1
        } else {
            r + 1
        }
    }
}

/// What `vote_idx` finds.
pub proof fn lemma_vote_idx(s: Seq<(i64, Option<i64>)>, v: i64)
    ensures
        vote_idx(s, v) >= 0 ==> vote_idx(s, v) < s.len() && s[vote_idx(s, v)].0 == v,
        vote_idx(s, v) == -1 ==> forall|j: int| 0 <= j < s.len() ==> (#[trigger] s[j]).0 != v,
        vote_idx(s, v) >= -1,
    decreases s.len(),
{
    if s.len() > 0 && s[0].0 != v {
        lemma_vote_idx(s.drop_first(), v);
        if vote_idx(s.drop_first(), v) == -1 {
            assert forall|j: int| 0 <= j < s.len() implies s[j].0 != v by {
                if j > 0 {
                    assert(s.drop_first()[j - 1] == s[j]);
                }
            }
        }
    }
}

/// `vote_idx` finds the first occurrence.
pub proof fn lemma_vote_idx_at(s: Seq<(i64, Option<i64>)>, v: i64, k: int)
    requires
        0 <= k < s.len(),
        s[k].0 == v,
        forall|j: int| 0 <= j < k ==> (#[trigger] s[j]).0 != v,
    ensures
        vote_idx(s, v) == k,
    decreases s.len(),
{
    if k > 0 {
        assert forall|j: int| 0 <= j < k - 1 implies (s.drop_first()[j]).0 != v by {
            assert(s.drop_first()[j] == s[j + 1]);
        }
        assert(s.drop_first()[k - 1] == s[k]);
        lemma_vote_idx_at(s.drop_first(), v, k - 1);
    }
}

/// The position of voter `v`'s recorded vote, if any.
pub fn find_voter(votes: &Vec<(i64, Option<i64>)>, v: i64) -> (r: Option<usize>)
    ensures
        match r {
            Some(j) => j == vote_idx(votes@, v),
            None => vote_idx(votes@, v) == -1,
        },
{
    let n = votes.len();
    let mut k: usize = 0;
    while k < n
        invariant
            k <= n,
            n == votes@.len(),
            forall|j: int| 0 <= j < k ==> (#[trigger] votes@[j]).0 != v,
        decreases n - k,
    {
        if votes[k].0 == v {
            proof {
                lemma_vote_idx_at(votes@, v, k as int);
            }
            return Some(k);
        }
        k = k + 1;
    }
    proof {
        lemma_vote_idx(votes@, v);
        if vote_idx(votes@, v) >= 0 {
            assert(votes@[vote_idx(votes@, v)].0 == v);
        }
    }
    None
}

/// A target can collect at most one credit per vote.
proof fn lemma_count_target_le(votes: Seq<(i64, Option<i64>)>, c: i64)
    ensures
        count_target(votes, c) <= votes.len(),
    decreases votes.len(),
{
    if votes.len() > 0 {
        lemma_count_target_le(votes.drop_last(), c);
    }
}

/// Resolves a round: returns the eliminated candidate, or `None` when
/// the tally is empty or the top two candidates are tied.
pub fn tally_votes(votes: &Vec<(i64, Option<i64>)>, alive: &Vec<i64>) -> (r: Option<i64>)
    ensures
        match r {
            Some(c) => is_sole_top(votes@, alive@, c),
            None => forall|c: i64| !is_sole_top(votes@, alive@, c),
        },
{
    let n = votes.len();
    let mut cands: Vec<i64> = Vec::new();
    let mut counts: Vec<usize> = Vec::new();

    let mut i: usize = 0;
    while i < n
        invariant
            i <= n,
            n == votes@.len(),
            cands@.len() == counts@.len(),
            forall|j: int, k: int| 0 <= j < k < cands@.len() ==> cands@[j] != cands@[k],
            forall|j: int|
                0 <= j < cands@.len() ==> alive@.contains(#[trigger] cands@[j]) && counts@[j]
                    == vote_count(votes@.take(i as int), alive@, cands@[j]) && counts@[j] >= 1,
            forall|c: i64|
                #[trigger] vote_count(votes@.take(i as int), alive@, c) >= 1 ==> cands@.contains(
                    c,
                ),
        decreases n - i,
    {
        let ghost cands0 = cands@;
        proof {
            let s1 = votes@.take(i + 1);
            assert(s1.drop_last() =~= votes@.take(i as int));
            assert(s1.last() == votes@[i as int]);
            assert forall|c: i64|
                count_target(s1, c) == count_target(votes@.take(i as int), c) + (
                if votes@[i as int].1 == Some(c) {
                    1int
                } else {
                    0int
                }) by {
                assert(s1.len() > 0);
            }
        }
        if let Some(t) = votes[i].1 {
            if contains_id(alive, t) {
                proof {
                    lemma_count_target_le(votes@.take(i as int), t);
                    assert(votes@.take(i as int).len() == i as int);
                    crate::ids::lemma_id_idx(cands@, t);
                }
                match find_id(&cands, t) {
                    Some(j) => {
                        let c0 = counts[j];
                        counts.set(j, c0 + 1);
                        proof {
                            assert forall|c: i64|
                                vote_count(votes@.take(i + 1), alive@, c) >= 1 implies cands@
                                .contains(c) by {
                                if c != t {
                                    assert(alive@.contains(c));
                                    assert(count_target(votes@.take(i + 1), c) >= 1);
                                    assert(votes@[i as int].1 == Some(t));
                                    assert(count_target(votes@.take(i as int), c) == count_target(
                                        votes@.take(i + 1),
                                        c,
                                    ));
                                    assert(vote_count(votes@.take(i as int), alive@, c) >= 1);
                                    assert(cands@.contains(c));
                                } else {
                                    assert(j < cands@.len());
                                    assert(cands@[j as int] == t);
                                    assert(cands@.contains(c));
                                }
                            }
                        }
                    },
                    None => {
                        cands.push(t);
                        counts.push(1);
                        proof {
                            assert(cands@ == cands0.push(t));
                            assert forall|c: i64|
                                vote_count(votes@.take(i + 1), alive@, c) >= 1 implies cands@
                                .contains(c) by {
                                if c == t {
                                    assert(cands@[cands@.len() - 1] == t);
                                } else {
                                    assert(vote_count(votes@.take(i as int), alive@, c) >= 1);
                                    let jx = choose|jx: int|
                                        0 <= jx < cands0.len() && cands0[jx] == c;
                                    assert(cands@[jx] == c);
                                }
                            }
                        }
                    },
                }
            } else {
                proof {
                    assert forall|c: i64|
                        vote_count(votes@.take(i + 1), alive@, c) >= 1 implies cands@.contains(
                        c,
                    ) by {
                        if c == t {
                            assert(!alive@.contains(c));
                        } else {
                            assert(vote_count(votes@.take(i as int), alive@, c) >= 1);
                        }
                    }
                }
            }
        } else {
            proof {
                assert forall|c: i64|
                    vote_count(votes@.take(i + 1), alive@, c) >= 1 implies cands@.contains(c) by {
                    assert(vote_count(votes@.take(i as int), alive@, c) >= 1);
                }
            }
        }
        i = i + 1;
    }
    proof {
        assert(votes@.take(n as int) =~= votes@);
    }

    if cands.len() == 0 {
        proof {
            assert forall|c: i64| !is_sole_top(votes@, alive@, c) by {
                if vote_count(votes@, alive@, c) >= 1 {
                    assert(cands@.contains(c));
                }
            }
        }
        return None;
    }

    let mut best_j: usize = 0;
    let mut tie: bool = false;
    let mut j: usize = 1;
    while j < cands.len()
        invariant
            cands@.len() == counts@.len(),
            cands@.len() > 0,
            best_j < j <= cands@.len(),
            forall|k: int| 0 <= k < j ==> counts@[k] <= counts@[best_j as int],
            tie <==> exists|k: int|
                0 <= k < j && k != best_j && #[trigger] counts@[k] == counts@[best_j as int],
        decreases cands@.len() - j,
    {
        if counts[j] > counts[best_j] {
            best_j = j;
            tie = false;
        } else if counts[j] == counts[best_j] {
            tie = true;
        }
        j = j + 1;
    }

    if tie {
        proof {
            let top = counts@[best_j as int];
            let kk = choose|k: int|
                0 <= k < cands@.len() && k != best_j && #[trigger] counts@[k] == top;
            assert forall|c: i64| !is_sole_top(votes@, alive@, c) by {
                if is_sole_top(votes@, alive@, c) {
                    // two distinct candidates share the top count, so one of
                    // them differs from c and still reaches c's count
                    let d1 = cands@[kk];
                    let d2 = cands@[best_j as int];
                    assert(d1 != d2);
                    if d1 != c {
                        assert(vote_count(votes@, alive@, d1) < vote_count(votes@, alive@, c));
                        assert(cands@.contains(c));
                        let jc = choose|jc: int| 0 <= jc < cands@.len() && cands@[jc] == c;
                        assert(counts@[jc] <= counts@[best_j as int]);
                    } else {
                        assert(vote_count(votes@, alive@, d2) < vote_count(votes@, alive@, c));
                    }
                }
            }
        }
        None
    } else {
        let winner = cands[best_j];
        proof {
            assert(vote_count(votes@, alive@, winner) >= 1);
            assert forall|d: i64|
                d != winner ==> vote_count(votes@, alive@, d) < vote_count(
                    votes@,
                    alive@,
                    winner,
                ) by {
                if d != winner && vote_count(votes@, alive@, d) >= 1 {
                    assert(cands@.contains(d));
                    let jd = choose|jd: int| 0 <= jd < cands@.len() && cands@[jd] == d;
                    assert(counts@[jd] <= counts@[best_j as int]);
                    assert(jd != best_j);
                    assert(counts@[jd] != counts@[best_j as int]);
                }
            }
        }
        Some(winner)
    }
}

} // verus!
