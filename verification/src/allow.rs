//! The allowlist of asset identifiers permitted as swap legs.

use vstd::prelude::*;

use crate::TokenSwap;

verus! {

/// Whether `x` occurs in `v`.
fn vec_contains(v: &Vec<u64>, x: u64) -> (r: bool)
    ensures
        r == v@.contains(x),
{
    let n = v.len();
    let mut i: usize = 0;
    while i < n
        invariant
            n == v@.len(),
            0 <= i <= n,
            forall|j: int| 0 <= j < i ==> v@[j] != x,
        decreases n - i,
    {
        if v[i] == x {
            return true;
        }
        i += 1;
    }
    false
}

/// Index of the first occurrence of `x` in `v`, if any.
fn vec_index_of(v: &Vec<u64>, x: u64) -> (r: Option<usize>)
    ensures
        match r {
            Some(i) => i < v@.len() && v@[i as int] == x,
            None => !v@.contains(x),
        },
{
    let n = v.len();
    let mut i: usize = 0;
    while i < n
        invariant
            n == v@.len(),
            0 <= i <= n,
            forall|j: int| 0 <= j < i ==> v@[j] != x,
        decreases n - i,
    {
        if v[i] == x {
            return Some(i);
        }
        i += 1;
    }
    None
}

proof fn lemma_remove_keeps_others(s: Seq<u64>, i: int, x: u64)
    requires
        0 <= i < s.len(),
        s[i] != x,
    ensures
        s.remove(i).contains(x) == s.contains(x),
{
    let s2 = s.remove(i);
    if s.contains(x) {
        let k = choose|k: int| 0 <= k < s.len() && s[k] == x;
        if k < i {
            assert(s2[k] == x);
        } else {
            assert(s2[k - 1] == x);
        }
        assert(s2.contains(x));
    }
    if s2.contains(x) {
        let k = choose|k: int| 0 <= k < s2.len() && s2[k] == x;
        if k < i {
            assert(s[k] == x);
        } else {
            assert(s[k + 1] == x);
        }
        assert(s.contains(x));
    }
}

/// Insert `token` into the allowlist; inserting a present token changes
/// nothing.
pub fn allow_set(s: &mut TokenSwap, token: u64)
    requires
        old(s).allowed_nodup(),
    ensures
        final(s).allowed@.contains(token),
        forall|t2: u64| t2 != token ==> final(s).allowed@.contains(t2) == old(
            s,
        ).allowed@.contains(t2),
        final(s).allowed_nodup(),
        final(s).fee == old(s).fee,
        final(s).offer_ids == old(s).offer_ids,
        final(s).offer_infos == old(s).offer_infos,
        final(s).ledger == old(s).ledger,
        final(s).last_error == old(s).last_error,
        final(s).contract == old(s).contract,
{
    let present = vec_contains(&s.allowed, token);
    if !present {
        let ghost a0 = s.allowed@;
        s.allowed.push(token);
        proof {
            assert(s.allowed@ == a0.push(token));
            assert(s.allowed@[a0.len() as int] == token);
            assert forall|t2: u64| t2 != token implies s.allowed@.contains(t2) == a0.contains(
                t2,
            ) by {
                if a0.contains(t2) {
                    let k = choose|k: int| 0 <= k < a0.len() && a0[k] == t2;
                    assert(s.allowed@[k] == t2);
                }
                if s.allowed@.contains(t2) {
                    let k = choose|k: int| 0 <= k < s.allowed@.len() && s.allowed@[k] == t2;
                    assert(k < a0.len());
                    assert(a0[k] == t2);
                }
            }
        }
    }
}

/// Remove `token` from the allowlist; removing an absent token changes
/// nothing. Existing offers are not retroactively invalidated.
pub fn allow_reset(s: &mut TokenSwap, token: u64)
    requires
        old(s).allowed_nodup(),
    ensures
        !final(s).allowed@.contains(token),
        forall|t2: u64| t2 != token ==> final(s).allowed@.contains(t2) == old(
            s,
        ).allowed@.contains(t2),
        final(s).allowed_nodup(),
        final(s).fee == old(s).fee,
        final(s).offer_ids == old(s).offer_ids,
        final(s).offer_infos == old(s).offer_infos,
        final(s).ledger == old(s).ledger,
        final(s).last_error == old(s).last_error,
        final(s).contract == old(s).contract,
{
    let found = vec_index_of(&s.allowed, token);
    match found {
        Some(i) => {
            let ghost a0 = s.allowed@;
            s.allowed.remove(i);
            proof {
                assert(s.allowed@ == a0.remove(i as int));
                assert forall|t2: u64| t2 != token implies s.allowed@.contains(t2) == a0.contains(
                    t2,
                ) by {
                    lemma_remove_keeps_others(a0, i as int, t2);
                }
                assert(!s.allowed@.contains(token)) by {
                    if s.allowed@.contains(token) {
                        let k = choose|k: int|
                            0 <= k < s.allowed@.len() && s.allowed@[k] == token;
                        if k < i {
                            assert(a0[k] == token);
                            assert(a0[i as int] == token);
                        } else {
                            assert(a0[k + 1] == token);
                            assert(a0[i as int] == token);
                        }
                    }
                }
                assert(s.allowed_nodup()) by {
                    assert forall|p: int, q: int|
                        0 <= p < q < s.allowed@.len() implies s.allowed@[p] != s.allowed@[q] by {
                        let pp = if p < i as int {
                            p
                        } else {
                            p + 1
                        };
                        let qq = if q < i as int {
                            q
                        } else {
                            q + 1
                        };
                        assert(a0[pp] == s.allowed@[p]);
                        assert(a0[qq] == s.allowed@[q]);
                    }
                }
            }
        },
        None => {
        },
    }
}

/// Whether `token` is currently allowlisted.
pub fn allow_get(s: &TokenSwap, token: u64) -> (r: bool)
    ensures
        r == s.allowed@.contains(token),
{
    vec_contains(&s.allowed, token)
}

} // verus!
