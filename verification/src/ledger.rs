//! In-memory model of the asset ledger consumed by the swap engine: balances
//! per (account, asset) pair and allowances granted to the engine's holding
//! account, with exact transfer semantics.
//!
//! The engine only ever checks an allowance that an owner granted to the
//! engine itself, so allowances are keyed by (owner, asset) alone.

use vstd::prelude::*;

use crate::storage_types::SwapError;

verus! {

/// Amount stored under (account, asset) in an association list; absent pairs
/// hold zero. The first matching entry decides.
pub open spec fn find_amt(s: Seq<(u64, u64, u128)>, a: u64, t: u64) -> u128
    decreases s.len(),
{
    if s.len() == 0 {
        0
    } else if s[0].0 == a && s[0].1 == t {
        s[0].2
    } else {
        find_amt(s.skip(1), a, t)
    }
}

/// Total map described by an association list.
pub open spec fn map_of(s: Seq<(u64, u64, u128)>) -> Map<(u64, u64), u128> {
    Map::new(|k: (u64, u64)| true, |k: (u64, u64)| find_amt(s, k.0, k.1))
}

/// A transfer of `x` units of asset `t` from `from` to `to` is possible:
/// the source balance suffices and the credited balance stays representable.
pub open spec fn can_xfer_m(m: Map<(u64, u64), u128>, from: u64, to: u64, t: u64, x: u128) -> bool {
    &&& m[(from, t)] >= x
    &&& from == to || m[(to, t)] + x <= u128::MAX
}

/// Balance map after such a transfer; a self-transfer changes nothing.
pub open spec fn xfer_m(
    m: Map<(u64, u64), u128>,
    from: u64,
    to: u64,
    t: u64,
    x: u128,
) -> Map<(u64, u64), u128> {
    if from == to {
        m
    } else {
        m.insert((from, t), (m[(from, t)] - x) as u128).insert((to, t), (m[(to, t)] + x) as u128)
    }
}

/// A transfer on a total balance map leaves it total.
pub proof fn lemma_xfer_total(m: Map<(u64, u64), u128>, from: u64, to: u64, t: u64, x: u128)
    requires
        forall|k: (u64, u64)| m.dom().contains(k),
    ensures
        forall|k: (u64, u64)| #[trigger] xfer_m(m, from, to, t, x).dom().contains(k),
{
}

/// A possible transfer can always be compensated: the reverse transfer is
/// possible afterwards and restores the original balances exactly.
pub proof fn lemma_xfer_roundtrip(m: Map<(u64, u64), u128>, from: u64, to: u64, t: u64, x: u128)
    requires
        forall|k: (u64, u64)| m.dom().contains(k),
        can_xfer_m(m, from, to, t, x),
    ensures
        can_xfer_m(xfer_m(m, from, to, t, x), to, from, t, x),
        xfer_m(xfer_m(m, from, to, t, x), to, from, t, x) == m,
{
    if from != to {
        let m1 = xfer_m(m, from, to, t, x);
        assert(m1[(to, t)] == (m[(to, t)] + x) as u128);
        assert(m1[(from, t)] == (m[(from, t)] - x) as u128);
        assert(xfer_m(m1, to, from, t, x) =~= m);
    }
}

proof fn lemma_find_skip(s: Seq<(u64, u64, u128)>, a: u64, t: u64, i: int)
    requires
        0 <= i <= s.len(),
        forall|j: int| 0 <= j < i ==> !(#[trigger] s[j].0 == a && s[j].1 == t),
    ensures
        find_amt(s, a, t) == find_amt(s.skip(i), a, t),
    decreases i,
{
    if i > 0 {
        assert(!(s[0].0 == a && s[0].1 == t));
        lemma_find_skip(s.skip(1), a, t, i - 1);
        assert(s.skip(1).skip(i - 1) =~= s.skip(i));
    } else {
        assert(s.skip(0) =~= s);
    }
}

proof fn lemma_find_update_other(s: Seq<(u64, u64, u128)>, i: int, v: u128, a2: u64, t2: u64)
    requires
        0 <= i < s.len(),
        !(s[i].0 == a2 && s[i].1 == t2),
    ensures
        find_amt(s.update(i, (s[i].0, s[i].1, v)), a2, t2) == find_amt(s, a2, t2),
    decreases s.len(),
{
    let s2 = s.update(i, (s[i].0, s[i].1, v));
    if i == 0 {
        assert(s2.skip(1) =~= s.skip(1));
    } else {
        assert(s2[0] == s[0]);
        if !(s[0].0 == a2 && s[0].1 == t2) {
            lemma_find_update_other(s.skip(1), i - 1, v, a2, t2);
            assert(s.skip(1).update(i - 1, (s[i].0, s[i].1, v)) =~= s2.skip(1));
        }
    }
}

proof fn lemma_find_push_other(s: Seq<(u64, u64, u128)>, e: (u64, u64, u128), a2: u64, t2: u64)
    requires
        !(e.0 == a2 && e.1 == t2),
    ensures
        find_amt(s.push(e), a2, t2) == find_amt(s, a2, t2),
    decreases s.len(),
{
    let sp = s.push(e);
    assert(sp.len() == s.len() + 1);
    if s.len() == 0 {
        assert(sp[0] == e);
        assert(sp.skip(1) =~= Seq::<(u64, u64, u128)>::empty());
        assert(find_amt(sp, a2, t2) == find_amt(sp.skip(1), a2, t2));
    } else {
        assert(sp[0] == s[0]);
        lemma_find_push_other(s.skip(1), e, a2, t2);
        assert(sp.skip(1) =~= s.skip(1).push(e));
    }
}

proof fn lemma_assoc_update(s: Seq<(u64, u64, u128)>, i: int, a: u64, t: u64, v: u128)
    requires
        0 <= i < s.len(),
        s[i].0 == a,
        s[i].1 == t,
        forall|j: int| 0 <= j < i ==> !(#[trigger] s[j].0 == a && s[j].1 == t),
    ensures
        find_amt(s.update(i, (a, t, v)), a, t) == v,
        forall|a2: u64, t2: u64|
            !(a2 == a && t2 == t) ==> #[trigger] find_amt(s.update(i, (a, t, v)), a2, t2)
                == find_amt(s, a2, t2),
{
    let s2 = s.update(i, (a, t, v));
    lemma_find_skip(s2, a, t, i);
    assert(s2.skip(i)[0] == (a, t, v));
    assert(find_amt(s2.skip(i), a, t) == v);
    assert forall|a2: u64, t2: u64| !(a2 == a && t2 == t) implies #[trigger] find_amt(
        s2,
        a2,
        t2,
    ) == find_amt(s, a2, t2) by {
        lemma_find_update_other(s, i, v, a2, t2);
        assert(s.update(i, (s[i].0, s[i].1, v)) =~= s2);
    }
}

proof fn lemma_assoc_push(s: Seq<(u64, u64, u128)>, a: u64, t: u64, v: u128)
    requires
        forall|j: int| 0 <= j < s.len() ==> !(#[trigger] s[j].0 == a && s[j].1 == t),
    ensures
        find_amt(s.push((a, t, v)), a, t) == v,
        forall|a2: u64, t2: u64|
            !(a2 == a && t2 == t) ==> #[trigger] find_amt(s.push((a, t, v)), a2, t2) == find_amt(
                s,
                a2,
                t2,
            ),
{
    let s2 = s.push((a, t, v));
    assert(forall|j: int| 0 <= j < s.len() ==> s2[j] == s[j]);
    lemma_find_skip(s2, a, t, s.len() as int);
    assert(s2.skip(s.len() as int)[0] == (a, t, v));
    assert(find_amt(s2.skip(s.len() as int), a, t) == v);
    assert forall|a2: u64, t2: u64| !(a2 == a && t2 == t) implies #[trigger] find_amt(
        s2,
        a2,
        t2,
    ) == find_amt(s, a2, t2) by {
        lemma_find_push_other(s, (a, t, v), a2, t2);
    }
}

/// Look up the amount stored under (a, t), zero when absent.
fn assoc_get(s: &Vec<(u64, u64, u128)>, a: u64, t: u64) -> (r: u128)
    ensures
        r == find_amt(s@, a, t),
{
    let n = s.len();
    let mut i: usize = 0;
    while i < n
        invariant
            n == s@.len(),
            0 <= i <= n,
            forall|j: int| 0 <= j < i ==> !(#[trigger] s@[j].0 == a && s@[j].1 == t),
        decreases n - i,
    {
        let e = s[i];
        if e.0 == a && e.1 == t {
            proof {
                lemma_find_skip(s@, a, t, i as int);
            }
            return e.2;
        }
        i += 1;
    }
    proof {
        lemma_find_skip(s@, a, t, n as int);
    }
    0
}

/// Index of the first entry under (a, t), if any is present.
fn assoc_find(s: &Vec<(u64, u64, u128)>, a: u64, t: u64) -> (r: Option<usize>)
    ensures
        match r {
            Some(i) => i < s@.len() && s@[i as int].0 == a && s@[i as int].1 == t && forall|j: int|
                0 <= j < i ==> !(#[trigger] s@[j].0 == a && s@[j].1 == t),
            None => forall|j: int|
                0 <= j < s@.len() ==> !(#[trigger] s@[j].0 == a && s@[j].1 == t),
        },
{
    let n = s.len();
    let mut i: usize = 0;
    while i < n
        invariant
            n == s@.len(),
            0 <= i <= n,
            forall|j: int| 0 <= j < i ==> !(#[trigger] s@[j].0 == a && s@[j].1 == t),
        decreases n - i,
    {
        let e = s[i];
        if e.0 == a && e.1 == t {
            return Some(i);
        }
        i += 1;
    }
    None
}

/// Store `v` under (a, t), replacing the previous amount.
fn assoc_set(s: &mut Vec<(u64, u64, u128)>, a: u64, t: u64, v: u128)
    ensures
        find_amt(final(s)@, a, t) == v,
        forall|a2: u64, t2: u64|
            !(a2 == a && t2 == t) ==> #[trigger] find_amt(final(s)@, a2, t2) == find_amt(
                old(s)@,
                a2,
                t2,
            ),
{
    let ghost s0 = s@;
    match assoc_find(s, a, t) {
        Some(i) => {
            s.set(i, (a, t, v));
            proof {
                lemma_assoc_update(s0, i as int, a, t, v);
                assert(s@ == s0.update(i as int, (a, t, v)));
            }
        },
        None => {
            s.push((a, t, v));
            proof {
                lemma_assoc_push(s0, a, t, v);
                assert(s@ == s0.push((a, t, v)));
            }
        },
    }
}

/// The asset ledger: balances per (account, asset) and allowances granted to
/// the engine's holding account per (owner, asset).
pub struct Ledger {
    balances: Vec<(u64, u64, u128)>,
    allowances: Vec<(u64, u64, u128)>,
}

impl Ledger {
    /// All balances, as a total map from (account, asset) to amount.
    pub closed spec fn bals(self) -> Map<(u64, u64), u128> {
        map_of(self.balances@)
    }

    /// All allowances granted to the engine, as a total map from
    /// (owner, asset) to amount.
    pub closed spec fn alws(self) -> Map<(u64, u64), u128> {
        map_of(self.allowances@)
    }

    /// Balance of `account` in asset `t`.
    pub open spec fn bal(self, account: u64, t: u64) -> u128 {
        self.bals()[(account, t)]
    }

    /// Allowance `owner` granted to the engine for asset `t`.
    pub open spec fn alw(self, owner: u64, t: u64) -> u128 {
        self.alws()[(owner, t)]
    }

    /// Both ledger maps are total: every (account, asset) pair has an entry.
    pub proof fn lemma_maps_total(self)
        ensures
            forall|k: (u64, u64)| self.bals().dom().contains(k),
            forall|k: (u64, u64)| self.alws().dom().contains(k),
    {
    }

    /// An empty ledger: every balance and allowance is zero.
    pub fn new() -> (r: Ledger)
        ensures
            forall|a: u64, t: u64| #[trigger] r.bal(a, t) == 0,
            forall|a: u64, t: u64| #[trigger] r.alw(a, t) == 0,
    {
        Ledger { balances: Vec::new(), allowances: Vec::new() }
    }

    /// Balance of `account` in asset `t`.
    pub fn balance(&self, account: u64, t: u64) -> (r: u128)
        ensures
            r == self.bal(account, t),
    {
        assoc_get(&self.balances, account, t)
    }

    /// Allowance `owner` granted to the engine for asset `t`.
    pub fn allowance(&self, owner: u64, t: u64) -> (r: u128)
        ensures
            r == self.alw(owner, t),
    {
        assoc_get(&self.allowances, owner, t)
    }

    /// Whether `x` units of `t` can move from `from` to `to` right now.
    pub fn can_transfer(&self, from: u64, to: u64, t: u64, x: u128) -> (r: bool)
        ensures
            r == can_xfer_m(self.bals(), from, to, t, x),
    {
        let bf = self.balance(from, t);
        if bf < x {
            return false;
        }
        if from == to {
            return true;
        }
        let bt = self.balance(to, t);
        bt <= u128::MAX - x
    }

    /// Move `x` units of asset `t` from `from` to `to`.
    pub fn transfer(&mut self, from: u64, to: u64, t: u64, x: u128)
        requires
            can_xfer_m(old(self).bals(), from, to, t, x),
        ensures
            final(self).bals() == xfer_m(old(self).bals(), from, to, t, x),
            final(self).alws() == old(self).alws(),
    {
        if from != to {
            let bf = assoc_get(&self.balances, from, t);
            let bt = assoc_get(&self.balances, to, t);
            assoc_set(&mut self.balances, from, t, bf - x);
            assoc_set(&mut self.balances, to, t, bt + x);
            proof {
                assert(self.bals() =~= xfer_m(old(self).bals(), from, to, t, x));
            }
        } else {
            proof {
                assert(self.bals() =~= xfer_m(old(self).bals(), from, to, t, x));
            }
        }
    }

    /// Create `x` new units of asset `t` on `account`; fails only when the
    /// credited balance would leave the representable range.
    pub fn mint(&mut self, account: u64, t: u64, x: u128) -> (r: Result<(), SwapError>)
        ensures
            r is Ok <==> old(self).bal(account, t) + x <= u128::MAX,
            r is Ok ==> final(self).bals() == old(self).bals().insert(
                (account, t),
                (old(self).bal(account, t) + x) as u128,
            ),
            r is Err ==> *final(self) == *old(self) && r == Err::<(), SwapError>(
                SwapError::ArithmeticOverflow,
            ),
            final(self).alws() == old(self).alws(),
    {
        let b = assoc_get(&self.balances, account, t);
        if x > u128::MAX - b {
            return Err(SwapError::ArithmeticOverflow);
        }
        assoc_set(&mut self.balances, account, t, b + x);
        proof {
            assert(self.bals() =~= old(self).bals().insert((account, t), (b + x) as u128));
        }
        Ok(())
    }

    /// Set the allowance `owner` grants to the engine for asset `t`.
    pub fn approve(&mut self, owner: u64, t: u64, x: u128)
        ensures
            final(self).alws() == old(self).alws().insert((owner, t), x),
            final(self).bals() == old(self).bals(),
    {
        assoc_set(&mut self.allowances, owner, t, x);
        proof {
            assert(self.alws() =~= old(self).alws().insert((owner, t), x));
        }
    }
}

} // verus!
