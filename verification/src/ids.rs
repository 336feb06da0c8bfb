//! Small verified helpers over vectors of user ids.

use vstd::prelude::*;

verus! {

/// The first position of `x` in `s`, or -1 when absent.
pub open spec fn id_idx(s: Seq<i64>, x: i64) -> int
    decreases s.len(),
{
    if s.len() == 0 {
        -1
    } else if s[0] == x {
        0
    } else {
        let r = id_idx(s.drop_first(), x);
        if r < 0 {
            -1
        } else {
            r + 1
        }
    }
}

/// What `id_idx` finds: a position holding `x` when one exists, -1 when
/// none does.
pub proof fn lemma_id_idx(s: Seq<i64>, x: i64)
    ensures
        id_idx(s, x) >= 0 ==> id_idx(s, x) < s.len() && s[id_idx(s, x)] == x,
        id_idx(s, x) == -1 ==> !s.contains(x),
        id_idx(s, x) >= -1,
    decreases s.len(),
{
    if s.len() > 0 && s[0] != x {
        lemma_id_idx(s.drop_first(), x);
        if id_idx(s.drop_first(), x) == -1 {
            assert forall|j: int| 0 <= j < s.len() implies s[j] != x by {
                if j > 0 {
                    assert(s.drop_first()[j - 1] == s[j]);
                    assert(!s.drop_first().contains(x));
                }
            }
        }
    }
}

/// `id_idx` finds the first occurrence.
pub proof fn lemma_id_idx_at(s: Seq<i64>, x: i64, k: int)
    requires
        0 <= k < s.len(),
        s[k] == x,
        forall|j: int| 0 <= j < k ==> s[j] != x,
    ensures
        id_idx(s, x) == k,
    decreases s.len(),
{
    if k > 0 {
        assert forall|j: int| 0 <= j < k - 1 implies s.drop_first()[j] != x by {
            assert(s.drop_first()[j] == s[j + 1]);
        }
        assert(s.drop_first()[k - 1] == s[k]);
        lemma_id_idx_at(s.drop_first(), x, k - 1);
    }
}

/// Whether `v` holds `x`.
pub fn contains_id(v: &Vec<i64>, x: i64) -> (r: bool)
    ensures
        r == v@.contains(x),
{
    for k in 0..v.len()
        invariant
            forall|j: int| 0 <= j < k ==> v@[j] != x,
    {
        if v[k] == x {
            return true;
        }
    }
    false
}

/// The first position of `x` in `v`, if any.
pub fn find_id(v: &Vec<i64>, x: i64) -> (r: Option<usize>)
    ensures
        match r {
            Some(j) => j == id_idx(v@, x),
            None => id_idx(v@, x) == -1,
        },
{
    let n = v.len();
    let mut k: usize = 0;
    while k < n
        invariant
            k <= n,
            n == v@.len(),
            forall|j: int| 0 <= j < k ==> v@[j] != x,
        decreases n - k,
    {
        if v[k] == x {
            proof {
                lemma_id_idx_at(v@, x, k as int);
            }
            return Some(k);
        }
        k = k + 1;
    }
    proof {
        lemma_id_idx(v@, x);
        if id_idx(v@, x) >= 0 {
            assert(v@[id_idx(v@, x)] == x);
        }
    }
    None
}

/// A copy of an id list.
pub fn copy_ids(v: &Vec<i64>) -> (out: Vec<i64>)
    ensures
        out@ == v@,
{
    let mut out: Vec<i64> = Vec::new();
    for k in 0..v.len()
        invariant
            out@ == v@.take(k as int),
    {
        out.push(v[k]);
        proof {
            assert(out@ =~= v@.take(k + 1));
        }
    }
    proof {
        assert(out@ =~= v@);
    }
    out
}

} // verus!
