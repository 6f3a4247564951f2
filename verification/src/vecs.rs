//! Verified helpers over `Vec<u64>`: scan, copy, and a lemma about removing
//! an element from a duplicate-free sequence.

use vstd::prelude::*;

verus! {

/// Whether no value appears twice.
pub open spec fn distinct(s: Seq<u64>) -> bool {
    forall|i: int, j: int| 0 <= i < j < s.len() ==> s[i] != s[j]
}

/// First index holding `x`, if any.
pub fn position_u64(v: &Vec<u64>, x: u64) -> (r: Option<usize>)
    ensures
        match r {
            Some(k) => k < v@.len() && v@[k as int] == x,
            None => !v@.contains(x),
        },
{
    let mut k: usize = 0;
    while k < v.len()
        invariant
            k <= v@.len(),
            forall|m: int| 0 <= m < k ==> v@[m] != x,
        decreases v@.len() - k,
    {
        if v[k] == x {
            return Some(k);
        }
        k += 1;
    }
    None
}

/// A fresh vector with the same contents.
pub fn copy_vec_u64(v: &Vec<u64>) -> (r: Vec<u64>)
    ensures
        r@ == v@,
{
    let mut r: Vec<u64> = Vec::new();
    let mut k: usize = 0;
    while k < v.len()
        invariant
            k <= v@.len(),
            r@ == v@.take(k as int),
        decreases v@.len() - k,
    {
        r.push(v[k]);
        proof {
            assert(r@ =~= v@.take(k as int + 1));
        }
        k += 1;
    }
    proof {
        assert(v@.take(v@.len() as int) =~= v@);
    }
    r
}

/// Removing position `idx` from a duplicate-free sequence removes exactly
/// the value there, and keeps the rest duplicate-free.
pub proof fn lemma_remove_distinct(s: Seq<u64>, idx: int)
    requires
        distinct(s),
        0 <= idx < s.len(),
    ensures
        distinct(s.remove(idx)),
        forall|x: u64| s.remove(idx).contains(x) <==> s.contains(x) && x != s[idx],
{
    let t = s.remove(idx);
    assert forall|x: u64| t.contains(x) implies s.contains(x) && x != s[idx] by {
        let m = choose|m: int| 0 <= m < t.len() && t[m] == x;
        if m < idx {
            assert(s[m] == x);
        } else {
            assert(s[m + 1] == x);
        }
    }
    assert forall|x: u64| s.contains(x) && x != s[idx] implies t.contains(x) by {
        let m = choose|m: int| 0 <= m < s.len() && s[m] == x;
        if m < idx {
            assert(t[m] == x);
        } else {
            assert(m != idx);
            assert(t[m - 1] == x);
        }
    }
}

} // verus!
