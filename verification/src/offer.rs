//! The offer lifecycle engine: validation and execution of `create`,
//! `accept`, `update` and `close`, the proportional partial-fill algorithm,
//! and the laws that hold across sequences of fills.
//!
//! Every operation either succeeds with the exact effect stated in its
//! contract or returns one error, decided by the first failing precondition,
//! and leaves the observable state unchanged (all-or-nothing: a transfer
//! already performed when a later step fails is compensated before the
//! error returns).

use vstd::arithmetic::div_mod::lemma_div_is_ordered;
use vstd::arithmetic::div_mod::lemma_div_multiples_vanish;
use vstd::arithmetic::div_mod::lemma_div_pos_is_pos;
use vstd::arithmetic::mul::lemma_mul_inequality;
use vstd::prelude::*;

use crate::TokenSwap;
use crate::allow::allow_get;
use crate::fee;
use crate::fee::fee_fits;
use crate::fee::fee_of;
use crate::ledger::can_xfer_m;
use crate::ledger::xfer_m;
use crate::offer_id::derive_offer_id;
use crate::offer_id::offer_id_of;
use crate::storage_types::OfferInfo;
use crate::storage_types::OfferStatus;
use crate::storage_types::SwapError;
use crate::storage_types::offer_wf;

verus! {

/// Observable equality of two system states: every caller-visible part —
/// fee policy, allowlist, offer store, ledger balances and allowances, and
/// the last-result slot — is the same.
pub open spec fn same_state(a: TokenSwap, b: TokenSwap) -> bool {
    &&& a.contract == b.contract
    &&& a.fee == b.fee
    &&& a.allowed == b.allowed
    &&& a.offer_ids == b.offer_ids
    &&& a.offer_infos == b.offer_infos
    &&& a.ledger.bals() == b.ledger.bals()
    &&& a.ledger.alws() == b.ledger.alws()
    &&& a.last_error == b.last_error
}

/// Observable equality of everything but the last-result slot.
pub open spec fn same_core(a: TokenSwap, b: TokenSwap) -> bool {
    &&& a.contract == b.contract
    &&& a.fee == b.fee
    &&& a.allowed == b.allowed
    &&& a.offer_ids == b.offer_ids
    &&& a.offer_infos == b.offer_infos
    &&& a.ledger.bals() == b.ledger.bals()
    &&& a.ledger.alws() == b.ledger.alws()
}

/// Two states with the same offer store agree on every store view.
pub proof fn lemma_same_store_views(a: TokenSwap, b: TokenSwap)
    requires
        a.wf(),
        a.offer_ids == b.offer_ids,
        a.offer_infos == b.offer_infos,
    ensures
        forall|id2: Seq<u8>| a.has_offer(id2) == b.has_offer(id2),
        forall|id2: Seq<u8>| a.has_offer(id2) ==> a.offer_at(id2) == b.offer_at(id2),
        a.offer_count() == b.offer_count(),
{
    assert forall|id2: Seq<u8>| a.has_offer(id2) == b.has_offer(id2) by {
        if a.has_offer(id2) {
            let j = choose|j: int| 0 <= j < a.offer_ids@.len() && a.offer_ids@[j]@ == id2;
            assert(b.offer_ids@[j]@ == id2);
        }
        if b.has_offer(id2) {
            let j = choose|j: int| 0 <= j < b.offer_ids@.len() && b.offer_ids@[j]@ == id2;
            assert(a.offer_ids@[j]@ == id2);
        }
    }
    assert forall|id2: Seq<u8>| a.has_offer(id2) implies a.offer_at(id2) == b.offer_at(id2) by {
        let j0 = a.offer_index(id2);
        assert(0 <= j0 < a.offer_ids@.len() && a.offer_ids@[j0]@ == id2);
        let j1 = b.offer_index(id2);
        assert(0 <= j1 < b.offer_ids@.len() && b.offer_ids@[j1]@ == id2);
        assert(a.offer_ids@[j1]@ == id2);
        if j0 != j1 {
            if j0 < j1 {
                assert(a.offer_ids@[j0]@ != a.offer_ids@[j1]@);
            } else {
                assert(a.offer_ids@[j1]@ != a.offer_ids@[j0]@);
            }
            assert(false);
        }
    }
}

/// A copy of a byte vector, holding the same bytes.
fn clone_id(v: &Vec<u8>) -> (r: Vec<u8>)
    ensures
        r@ == v@,
{
    let r = v.clone();
    proof {
        assert(r@ =~= v@);
    }
    r
}

/// Whether two byte vectors hold the same bytes.
fn bytes_eq(a: &Vec<u8>, b: &Vec<u8>) -> (r: bool)
    ensures
        r == (a@ == b@),
{
    if a.len() != b.len() {
        proof {
            assert(a@ != b@);
        }
        return false;
    }
    let n = a.len();
    let mut i: usize = 0;
    while i < n
        invariant
            n == a@.len(),
            n == b@.len(),
            0 <= i <= n,
            forall|j: int| 0 <= j < i ==> a@[j] == b@[j],
        decreases n - i,
    {
        if a[i] != b[i] {
            proof {
                assert(a@[i as int] != b@[i as int]);
            }
            return false;
        }
        i += 1;
    }
    proof {
        assert(a@ =~= b@);
    }
    true
}

/// Index of the offer with the given identifier, if it exists.
fn find_offer(s: &TokenSwap, offer_id: &Vec<u8>) -> (r: Option<usize>)
    requires
        s.wf(),
    ensures
        match r {
            Some(i) => i < s.offer_ids@.len() && s.offer_ids@[i as int]@ == offer_id@
                && s.has_offer(offer_id@) && s.offer_index(offer_id@) == i,
            None => !s.has_offer(offer_id@),
        },
{
    let n = s.offer_ids.len();
    let mut i: usize = 0;
    while i < n
        invariant
            s.wf(),
            n == s.offer_ids@.len(),
            0 <= i <= n,
            forall|j: int| 0 <= j < i ==> s.offer_ids@[j]@ != offer_id@,
        decreases n - i,
    {
        if bytes_eq(&s.offer_ids[i], offer_id) {
            proof {
                assert(s.has_offer(offer_id@));
                let j = s.offer_index(offer_id@);
                if j != i as int {
                    if j < i as int {
                        assert(s.offer_ids@[j]@ != s.offer_ids@[i as int]@);
                    } else {
                        assert(s.offer_ids@[i as int]@ != s.offer_ids@[j]@);
                    }
                }
            }
            return Some(i);
        }
        i += 1;
    }
    None
}

/// The record stored under the given identifier, if any.
pub fn offer_load(s: &TokenSwap, offer_id: &Vec<u8>) -> (r: Option<OfferInfo>)
    requires
        s.wf(),
    ensures
        match r {
            Some(o) => s.has_offer(offer_id@) && o == s.offer_at(offer_id@),
            None => !s.has_offer(offer_id@),
        },
{
    match find_offer(s, offer_id) {
        Some(i) => Some(s.offer_infos[i]),
        None => None,
    }
}

/// Re-establishes the store views after one record is overwritten in place:
/// the same offers exist, the overwritten identifier now maps to `rec`, and
/// every other identifier maps to its old record.
proof fn lemma_store_update(s0: TokenSwap, s1: TokenSwap, i: int, rec: OfferInfo)
    requires
        s0.wf(),
        0 <= i < s0.offer_ids@.len(),
        s1.offer_ids == s0.offer_ids,
        s1.offer_infos@ == s0.offer_infos@.update(i, rec),
        s1.allowed == s0.allowed,
        offer_wf(rec),
    ensures
        s1.wf(),
        forall|id2: Seq<u8>| s1.has_offer(id2) == s0.has_offer(id2),
        s1.offer_at(s0.offer_ids@[i]@) == rec,
        forall|id2: Seq<u8>|
            id2 != s0.offer_ids@[i]@ && s0.has_offer(id2) ==> s1.offer_at(id2) == s0.offer_at(id2),
        s1.offer_count() == s0.offer_count(),
{
    assert forall|id2: Seq<u8>| s1.has_offer(id2) == s0.has_offer(id2) by {
        if s0.has_offer(id2) {
            let j = choose|j: int| 0 <= j < s0.offer_ids@.len() && s0.offer_ids@[j]@ == id2;
            assert(s1.offer_ids@[j]@ == id2);
        }
        if s1.has_offer(id2) {
            let j = choose|j: int| 0 <= j < s1.offer_ids@.len() && s1.offer_ids@[j]@ == id2;
            assert(s0.offer_ids@[j]@ == id2);
        }
    }
    let id = s0.offer_ids@[i]@;
    assert(s1.has_offer(id)) by {
        assert(s1.offer_ids@[i]@ == id);
    }
    let j = s1.offer_index(id);
    assert(0 <= j < s1.offer_ids@.len() && s1.offer_ids@[j]@ == id);
    if j != i {
        if j < i {
            assert(s0.offer_ids@[j]@ != s0.offer_ids@[i]@);
        } else {
            assert(s0.offer_ids@[i]@ != s0.offer_ids@[j]@);
        }
        assert(false);
    }
    assert(s1.offer_at(id) == rec);
    assert forall|id2: Seq<u8>|
        id2 != id && s0.has_offer(id2) implies s1.offer_at(id2) == s0.offer_at(id2) by {
        let j0 = s0.offer_index(id2);
        assert(0 <= j0 < s0.offer_ids@.len() && s0.offer_ids@[j0]@ == id2);
        let j1 = s1.offer_index(id2);
        assert(0 <= j1 < s1.offer_ids@.len() && s1.offer_ids@[j1]@ == id2);
        if j0 != j1 {
            if j0 < j1 {
                assert(s0.offer_ids@[j0]@ != s0.offer_ids@[j1]@);
            } else {
                assert(s0.offer_ids@[j1]@ != s0.offer_ids@[j0]@);
            }
            assert(false);
        }
        if j1 == i {
            assert(false);
        }
    }
}

/// Re-establishes the store views after a fresh record is appended: the new
/// identifier exists and maps to `rec`; every old identifier is untouched.
proof fn lemma_store_push(s0: TokenSwap, s1: TokenSwap, idv: Seq<u8>, rec: OfferInfo)
    requires
        s0.wf(),
        !s0.has_offer(idv),
        idv.len() == 32,
        offer_wf(rec),
        s0.offer_ids@.len() < u32::MAX,
        s1.offer_ids@.len() == s0.offer_ids@.len() + 1,
        forall|j: int| 0 <= j < s0.offer_ids@.len() ==> s1.offer_ids@[j] == s0.offer_ids@[j],
        s1.offer_ids@[s0.offer_ids@.len() as int]@ == idv,
        s1.offer_infos@ == s0.offer_infos@.push(rec),
        s1.allowed == s0.allowed,
    ensures
        s1.wf(),
        s1.has_offer(idv),
        s1.offer_at(idv) == rec,
        s1.offer_count() == s0.offer_count() + 1,
        forall|id2: Seq<u8>| id2 != idv ==> s1.has_offer(id2) == s0.has_offer(id2),
        forall|id2: Seq<u8>|
            id2 != idv && s0.has_offer(id2) ==> s1.offer_at(id2) == s0.offer_at(id2),
{
    let n = s0.offer_ids@.len() as int;
    assert(forall|j: int| 0 <= j < n ==> s1.offer_ids@[j]@ == s0.offer_ids@[j]@);
    assert(forall|j: int| 0 <= j < n ==> s1.offer_ids@[j]@ != idv);
    assert(s1.wf()) by {
        assert forall|p: int, q: int|
            0 <= p < q < s1.offer_ids@.len() implies s1.offer_ids@[p]@ != s1.offer_ids@[q]@ by {
            if q < n {
                assert(s0.offer_ids@[p]@ != s0.offer_ids@[q]@);
            }
        }
        assert(forall|j: int|
            0 <= j < s1.offer_infos@.len() ==> offer_wf(#[trigger] s1.offer_infos@[j]));
    }
    assert(s1.has_offer(idv)) by {
        assert(s1.offer_ids@[n]@ == idv);
    }
    let j = s1.offer_index(idv);
    if j != n {
        assert(s1.offer_ids@[j]@ == idv);
        assert(false);
    }
    assert(s1.offer_at(idv) == rec);
    assert forall|id2: Seq<u8>| id2 != idv implies s1.has_offer(id2) == s0.has_offer(id2) by {
        if s0.has_offer(id2) {
            let k = choose|k: int| 0 <= k < s0.offer_ids@.len() && s0.offer_ids@[k]@ == id2;
            assert(s1.offer_ids@[k]@ == id2);
        }
        if s1.has_offer(id2) {
            let k = choose|k: int| 0 <= k < s1.offer_ids@.len() && s1.offer_ids@[k]@ == id2;
            assert(k != n);
            assert(s0.offer_ids@[k]@ == id2);
        }
    }
    assert forall|id2: Seq<u8>|
        id2 != idv && s0.has_offer(id2) implies s1.offer_at(id2) == s0.offer_at(id2) by {
        let j0 = s0.offer_index(id2);
        assert(0 <= j0 < n && s0.offer_ids@[j0]@ == id2);
        let j1 = s1.offer_index(id2);
        assert(0 <= j1 < s1.offer_ids@.len() && s1.offer_ids@[j1]@ == id2);
        assert(j1 != n);
        if j0 != j1 {
            if j0 < j1 {
                assert(s0.offer_ids@[j0]@ != s0.offer_ids@[j1]@);
            } else {
                assert(s0.offer_ids@[j1]@ != s0.offer_ids@[j0]@);
            }
            assert(false);
        }
    }
}

// ------------------------------------------------------------------
// Offer creation
// ------------------------------------------------------------------

/// Fee owed up front on the whole escrowed amount; meaningful when the fee
/// policy is set.
pub open spec fn create_fee(s: TokenSwap, send_amount: u128) -> int {
    fee_of(s.fee->Some_0.fee_rate, send_amount)
}

/// Balances after the escrow transfer of `create`.
pub open spec fn create_m1(s: TokenSwap, offeror: u64, send_token: u64, send_amount: u128) -> Map<
    (u64, u64),
    u128,
> {
    xfer_m(s.ledger.bals(), offeror, s.contract, send_token, send_amount)
}

/// Balances after both transfers of `create` (escrow, then fee).
pub open spec fn create_m2(s: TokenSwap, offeror: u64, send_token: u64, send_amount: u128) -> Map<
    (u64, u64),
    u128,
> {
    xfer_m(
        create_m1(s, offeror, send_token, send_amount),
        offeror,
        s.fee->Some_0.fee_wallet,
        send_token,
        create_fee(s, send_amount) as u128,
    )
}

/// The record a successful `create` writes.
pub open spec fn create_record(
    offeror: u64,
    send_token: u64,
    recv_token: u64,
    send_amount: u128,
    recv_amount: u128,
    min_recv_amount: u128,
) -> OfferInfo {
    OfferInfo {
        offeror,
        send_token,
        recv_token,
        send_amount,
        recv_amount,
        min_recv_amount,
        status: OfferStatus::ACTIVE,
    }
}

/// Exactly when `create` succeeds: fee policy set, both legs allowlisted, the
/// derived identifier fresh, both amounts positive, the minimum within range,
/// the fee and total representable, balance and allowance sufficient, and
/// both transfers possible in order.
pub open spec fn create_ok(
    s: TokenSwap,
    offeror: u64,
    send_token: u64,
    recv_token: u64,
    timestamp: u64,
    send_amount: u128,
    recv_amount: u128,
    min_recv_amount: u128,
) -> bool {
    &&& s.fee is Some
    &&& s.allowed@.contains(send_token)
    &&& s.allowed@.contains(recv_token)
    &&& !s.has_offer(offer_id_of(offeror, send_token, recv_token, timestamp))
    &&& send_amount > 0
    &&& recv_amount > 0
    &&& min_recv_amount <= recv_amount
    &&& fee_fits(s.fee->Some_0.fee_rate, send_amount)
    &&& send_amount as int + create_fee(s, send_amount) <= u128::MAX as int
    &&& s.ledger.bal(offeror, send_token) as int >= send_amount as int + create_fee(s, send_amount)
    &&& s.ledger.alw(offeror, send_token) as int >= send_amount as int + create_fee(s, send_amount)
    &&& can_xfer_m(s.ledger.bals(), offeror, s.contract, send_token, send_amount)
    &&& can_xfer_m(
        create_m1(s, offeror, send_token, send_amount),
        offeror,
        s.fee->Some_0.fee_wallet,
        send_token,
        create_fee(s, send_amount) as u128,
    )
}

/// The error `create` returns when it fails: the first failing precondition
/// wins.
pub open spec fn create_err(
    s: TokenSwap,
    offeror: u64,
    send_token: u64,
    recv_token: u64,
    timestamp: u64,
    send_amount: u128,
    recv_amount: u128,
    min_recv_amount: u128,
) -> SwapError {
    if s.fee is None {
        SwapError::FeeNotSet
    } else if !(s.allowed@.contains(send_token) && s.allowed@.contains(recv_token)) {
        SwapError::TokenNotAllowed
    } else if s.has_offer(offer_id_of(offeror, send_token, recv_token, timestamp)) {
        SwapError::OfferExists
    } else if send_amount == 0 || recv_amount == 0 {
        SwapError::ZeroAmount
    } else if min_recv_amount > recv_amount {
        SwapError::MinExceedsRecv
    } else if !fee_fits(s.fee->Some_0.fee_rate, send_amount) {
        SwapError::ArithmeticOverflow
    } else if send_amount as int + create_fee(s, send_amount) > u128::MAX as int {
        SwapError::ArithmeticOverflow
    } else if (s.ledger.bal(offeror, send_token) as int) < send_amount as int + create_fee(
        s,
        send_amount,
    ) {
        SwapError::InsufficientBalance
    } else if (s.ledger.alw(offeror, send_token) as int) < send_amount as int + create_fee(
        s,
        send_amount,
    ) {
        SwapError::InsufficientAllowance
    } else {
        SwapError::ArithmeticOverflow
    }
}

/// Create an offer: validate, derive the identifier, escrow `send_amount`
/// with the engine, pay the up-front fee on it, and write the `ACTIVE`
/// record. The caller is the offeror; the entry surface has authenticated it.
pub fn offer_create(
    s: &mut TokenSwap,
    offeror: u64,
    send_token: u64,
    recv_token: u64,
    timestamp: u64,
    send_amount: u128,
    recv_amount: u128,
    min_recv_amount: u128,
) -> (r: Result<Vec<u8>, SwapError>)
    requires
        old(s).wf(),
        old(s).offer_count() < u32::MAX,
    ensures
        final(s).wf(),
        r is Ok <==> create_ok(
            *old(s),
            offeror,
            send_token,
            recv_token,
            timestamp,
            send_amount,
            recv_amount,
            min_recv_amount,
        ),
        r matches Err(e) ==> same_state(*final(s), *old(s)) && e == create_err(
            *old(s),
            offeror,
            send_token,
            recv_token,
            timestamp,
            send_amount,
            recv_amount,
            min_recv_amount,
        ),
        r matches Ok(id) ==> {
            &&& id@ == offer_id_of(offeror, send_token, recv_token, timestamp)
            &&& final(s).has_offer(id@)
            &&& final(s).offer_at(id@) == create_record(
                offeror,
                send_token,
                recv_token,
                send_amount,
                recv_amount,
                min_recv_amount,
            )
            &&& final(s).offer_count() == old(s).offer_count() + 1
            &&& forall|id2: Seq<u8>|
                id2 != id@ ==> final(s).has_offer(id2) == old(s).has_offer(id2)
            &&& forall|id2: Seq<u8>|
                id2 != id@ && old(s).has_offer(id2) ==> final(s).offer_at(id2) == old(s).offer_at(
                    id2,
                )
            &&& final(s).ledger.bals() == create_m2(*old(s), offeror, send_token, send_amount)
            &&& final(s).ledger.alws() == old(s).ledger.alws()
            &&& final(s).fee == old(s).fee
            &&& final(s).allowed == old(s).allowed
            &&& final(s).contract == old(s).contract
            &&& final(s).last_error == old(s).last_error
        },
{
    let fee_info = match fee::fee_get(s) {
        None => {
            return Err(SwapError::FeeNotSet);
        },
        Some(f) => f,
    };
    if !allow_get(s, send_token) || !allow_get(s, recv_token) {
        return Err(SwapError::TokenNotAllowed);
    }
    let id = derive_offer_id(offeror, send_token, recv_token, timestamp);
    if find_offer(s, &id).is_some() {
        return Err(SwapError::OfferExists);
    }
    if send_amount == 0 || recv_amount == 0 {
        return Err(SwapError::ZeroAmount);
    }
    if min_recv_amount > recv_amount {
        return Err(SwapError::MinExceedsRecv);
    }
    let fee_amount = match fee::calculate_fee(&fee_info, send_amount) {
        None => {
            return Err(SwapError::ArithmeticOverflow);
        },
        Some(f) => f,
    };
    let transfer_amount = match send_amount.checked_add(fee_amount) {
        None => {
            return Err(SwapError::ArithmeticOverflow);
        },
        Some(t) => t,
    };
    if s.ledger.balance(offeror, send_token) < transfer_amount {
        return Err(SwapError::InsufficientBalance);
    }
    if s.ledger.allowance(offeror, send_token) < transfer_amount {
        return Err(SwapError::InsufficientAllowance);
    }
    let contract = s.contract;
    if !s.ledger.can_transfer(offeror, contract, send_token, send_amount) {
        return Err(SwapError::ArithmeticOverflow);
    }
    s.ledger.transfer(offeror, contract, send_token, send_amount);
    if !s.ledger.can_transfer(offeror, fee_info.fee_wallet, send_token, fee_amount) {
        proof {
            old(s).ledger.lemma_maps_total();
            crate::ledger::lemma_xfer_roundtrip(
                old(s).ledger.bals(),
                offeror,
                contract,
                send_token,
                send_amount,
            );
        }
        s.ledger.transfer(contract, offeror, send_token, send_amount);
        return Err(SwapError::ArithmeticOverflow);
    }
    s.ledger.transfer(offeror, fee_info.fee_wallet, send_token, fee_amount);
    let ghost s_mid = *s;
    let rec = OfferInfo {
        offeror,
        send_token,
        recv_token,
        send_amount,
        recv_amount,
        min_recv_amount,
        status: OfferStatus::ACTIVE,
    };
    s.offer_ids.push(clone_id(&id));
    s.offer_infos.push(rec);
    proof {
        lemma_store_push(
            s_mid,
            *s,
            offer_id_of(offeror, send_token, recv_token, timestamp),
            rec,
        );
        assert(forall|id2: Seq<u8>| s_mid.has_offer(id2) == old(s).has_offer(id2));
        assert(forall|id2: Seq<u8>|
            s_mid.has_offer(id2) ==> s_mid.offer_at(id2) == old(s).offer_at(id2));
    }
    Ok(id)
}

// ------------------------------------------------------------------
// Offer acceptance (proportional partial fill)
// ------------------------------------------------------------------

/// Proportional amount of send-asset released for supplying `amount` of
/// recv-asset against record `o`: floor(amount × send / recv), computed on
/// the record's pre-update amounts. Meaningful while `o` is `ACTIVE`.
pub open spec fn accept_prop(o: OfferInfo, amount: u128) -> int {
    (amount as int * o.send_amount as int) / (o.recv_amount as int)
}

/// The record after a fill of `amount`: both remaining amounts shrink by
/// exactly the traded quantities; a fill to zero completes the offer; a
/// remainder below the minimum increment clamps the minimum down to it.
pub open spec fn accept_apply(o: OfferInfo, amount: u128) -> OfferInfo {
    let prop = accept_prop(o, amount);
    let send2 = (o.send_amount as int - prop) as u128;
    let recv2 = (o.recv_amount - amount) as u128;
    OfferInfo {
        send_amount: send2,
        recv_amount: recv2,
        min_recv_amount: if recv2 == 0 {
            o.min_recv_amount
        } else if recv2 < o.min_recv_amount {
            recv2
        } else {
            o.min_recv_amount
        },
        status: if recv2 == 0 {
            OfferStatus::COMPLETE
        } else {
            o.status
        },
        ..o
    }
}

/// Fee owed on a fill of `amount`; meaningful when the fee policy is set.
pub open spec fn accept_fee(s: TokenSwap, amount: u128) -> int {
    fee_of(s.fee->Some_0.fee_rate, amount)
}

/// Balances after the fee transfer of `accept`.
pub open spec fn accept_m1(s: TokenSwap, id: Seq<u8>, acceptor: u64, amount: u128) -> Map<
    (u64, u64),
    u128,
> {
    xfer_m(
        s.ledger.bals(),
        acceptor,
        s.fee->Some_0.fee_wallet,
        s.offer_at(id).recv_token,
        accept_fee(s, amount) as u128,
    )
}

/// Balances after the fee and principal transfers of `accept`.
pub open spec fn accept_m2(s: TokenSwap, id: Seq<u8>, acceptor: u64, amount: u128) -> Map<
    (u64, u64),
    u128,
> {
    xfer_m(
        accept_m1(s, id, acceptor, amount),
        acceptor,
        s.offer_at(id).offeror,
        s.offer_at(id).recv_token,
        amount,
    )
}

/// Balances after all three transfers of `accept` (fee, principal,
/// proportional release from escrow).
pub open spec fn accept_m3(s: TokenSwap, id: Seq<u8>, acceptor: u64, amount: u128) -> Map<
    (u64, u64),
    u128,
> {
    xfer_m(
        accept_m2(s, id, acceptor, amount),
        s.contract,
        acceptor,
        s.offer_at(id).send_token,
        accept_prop(s.offer_at(id), amount) as u128,
    )
}

/// Exactly when `accept` succeeds: the offer exists and is `ACTIVE`, the fee
/// policy is set, `amount` lies in [min_recv_amount, recv_amount], every
/// computation stays representable, the acceptor's balance and allowance
/// cover principal plus fee, and the three transfers are possible in order.
pub open spec fn accept_ok(s: TokenSwap, id: Seq<u8>, acceptor: u64, amount: u128) -> bool {
    &&& s.has_offer(id)
    &&& s.fee is Some
    &&& s.offer_at(id).status is ACTIVE
    &&& amount <= s.offer_at(id).recv_amount
    &&& amount >= s.offer_at(id).min_recv_amount
    &&& fee_fits(s.fee->Some_0.fee_rate, amount)
    &&& amount as int + accept_fee(s, amount) <= u128::MAX as int
    &&& s.ledger.bal(acceptor, s.offer_at(id).recv_token) as int >= amount as int + accept_fee(
        s,
        amount,
    )
    &&& s.ledger.alw(acceptor, s.offer_at(id).recv_token) as int >= amount as int + accept_fee(
        s,
        amount,
    )
    &&& amount as int * s.offer_at(id).send_amount as int <= u128::MAX as int
    &&& can_xfer_m(
        s.ledger.bals(),
        acceptor,
        s.fee->Some_0.fee_wallet,
        s.offer_at(id).recv_token,
        accept_fee(s, amount) as u128,
    )
    &&& can_xfer_m(
        accept_m1(s, id, acceptor, amount),
        acceptor,
        s.offer_at(id).offeror,
        s.offer_at(id).recv_token,
        amount,
    )
    &&& can_xfer_m(
        accept_m2(s, id, acceptor, amount),
        s.contract,
        acceptor,
        s.offer_at(id).send_token,
        accept_prop(s.offer_at(id), amount) as u128,
    )
}

/// The error `accept` returns when it fails: the first failing precondition
/// wins; an impossible escrow release is an insufficient balance, any other
/// impossible step an arithmetic overflow.
pub open spec fn accept_err(s: TokenSwap, id: Seq<u8>, acceptor: u64, amount: u128) -> SwapError {
    if !s.has_offer(id) {
        SwapError::OfferNotFound
    } else if s.fee is None {
        SwapError::FeeNotSet
    } else if !(s.offer_at(id).status is ACTIVE) {
        SwapError::OfferNotAvailable
    } else if amount > s.offer_at(id).recv_amount {
        SwapError::AmountOverRecv
    } else if amount < s.offer_at(id).min_recv_amount {
        SwapError::AmountUnderMin
    } else if !fee_fits(s.fee->Some_0.fee_rate, amount) {
        SwapError::ArithmeticOverflow
    } else if amount as int + accept_fee(s, amount) > u128::MAX as int {
        SwapError::ArithmeticOverflow
    } else if (s.ledger.bal(acceptor, s.offer_at(id).recv_token) as int) < amount as int
        + accept_fee(s, amount) {
        SwapError::InsufficientBalance
    } else if (s.ledger.alw(acceptor, s.offer_at(id).recv_token) as int) < amount as int
        + accept_fee(s, amount) {
        SwapError::InsufficientAllowance
    } else if (amount as int * s.offer_at(id).send_amount as int) > u128::MAX as int {
        SwapError::ArithmeticOverflow
    } else if !can_xfer_m(
        s.ledger.bals(),
        acceptor,
        s.fee->Some_0.fee_wallet,
        s.offer_at(id).recv_token,
        accept_fee(s, amount) as u128,
    ) {
        SwapError::ArithmeticOverflow
    } else if !can_xfer_m(
        accept_m1(s, id, acceptor, amount),
        acceptor,
        s.offer_at(id).offeror,
        s.offer_at(id).recv_token,
        amount,
    ) {
        SwapError::ArithmeticOverflow
    } else if (accept_m2(s, id, acceptor, amount)[(s.contract, s.offer_at(id).send_token)] as int)
        < accept_prop(s.offer_at(id), amount) {
        SwapError::InsufficientBalance
    } else {
        SwapError::ArithmeticOverflow
    }
}

/// The proportional fill is bounded: it never releases more than the record
/// still escrows.
pub proof fn lemma_prop_bounds(o: OfferInfo, amount: u128)
    requires
        0 < o.recv_amount,
        amount <= o.recv_amount,
    ensures
        0 <= accept_prop(o, amount) <= o.send_amount as int,
{
    let a = amount as int;
    let sa = o.send_amount as int;
    let ra = o.recv_amount as int;
    lemma_div_pos_is_pos(a * sa, ra);
    lemma_mul_inequality(a, ra, sa);
    lemma_div_is_ordered(a * sa, ra * sa, ra);
    lemma_div_multiples_vanish(sa, ra);
    assert(ra * sa == sa * ra) by (nonlinear_arith);
    assert((ra * sa) / ra == sa);
}

/// Accept a partial fill: the acceptor supplies `amount` of the recv-asset
/// (plus the fee) and immediately receives the proportional amount of the
/// escrowed send-asset; the record's remaining amounts shrink exactly
/// accordingly. The caller is the acceptor; the entry surface has
/// authenticated it.
pub fn offer_accept(s: &mut TokenSwap, offer_id: &Vec<u8>, acceptor: u64, amount: u128) -> (r:
    Result<(), SwapError>)
    requires
        old(s).wf(),
    ensures
        final(s).wf(),
        r is Ok <==> accept_ok(*old(s), offer_id@, acceptor, amount),
        r matches Err(e) ==> same_state(*final(s), *old(s)) && e == accept_err(
            *old(s),
            offer_id@,
            acceptor,
            amount,
        ),
        r is Ok ==> {
            &&& final(s).offer_at(offer_id@) == accept_apply(old(s).offer_at(offer_id@), amount)
            &&& forall|id2: Seq<u8>| final(s).has_offer(id2) == old(s).has_offer(id2)
            &&& forall|id2: Seq<u8>|
                id2 != offer_id@ && old(s).has_offer(id2) ==> final(s).offer_at(id2) == old(
                    s,
                ).offer_at(id2)
            &&& final(s).offer_count() == old(s).offer_count()
            &&& final(s).ledger.bals() == accept_m3(*old(s), offer_id@, acceptor, amount)
            &&& final(s).ledger.alws() == old(s).ledger.alws()
            &&& final(s).fee == old(s).fee
            &&& final(s).allowed == old(s).allowed
            &&& final(s).contract == old(s).contract
            &&& final(s).last_error == old(s).last_error
        },
{
    let i = match find_offer(s, offer_id) {
        None => {
            return Err(SwapError::OfferNotFound);
        },
        Some(i) => i,
    };
    let fee_info = match fee::fee_get(s) {
        None => {
            return Err(SwapError::FeeNotSet);
        },
        Some(f) => f,
    };
    let o = s.offer_infos[i];
    match o.status {
        OfferStatus::ACTIVE => {},
        _ => {
            return Err(SwapError::OfferNotAvailable);
        },
    }
    if amount > o.recv_amount {
        return Err(SwapError::AmountOverRecv);
    }
    if amount < o.min_recv_amount {
        return Err(SwapError::AmountUnderMin);
    }
    let fee_amount = match fee::calculate_fee(&fee_info, amount) {
        None => {
            return Err(SwapError::ArithmeticOverflow);
        },
        Some(f) => f,
    };
    let total = match amount.checked_add(fee_amount) {
        None => {
            return Err(SwapError::ArithmeticOverflow);
        },
        Some(t) => t,
    };
    if s.ledger.balance(acceptor, o.recv_token) < total {
        return Err(SwapError::InsufficientBalance);
    }
    if s.ledger.allowance(acceptor, o.recv_token) < total {
        return Err(SwapError::InsufficientAllowance);
    }
    let product = match amount.checked_mul(o.send_amount) {
        None => {
            return Err(SwapError::ArithmeticOverflow);
        },
        Some(p) => p,
    };
    proof {
        lemma_prop_bounds(o, amount);
    }
    let prop = product / o.recv_amount;
    let contract = s.contract;
    let wallet = fee_info.fee_wallet;
    if !s.ledger.can_transfer(acceptor, wallet, o.recv_token, fee_amount) {
        return Err(SwapError::ArithmeticOverflow);
    }
    s.ledger.transfer(acceptor, wallet, o.recv_token, fee_amount);
    if !s.ledger.can_transfer(acceptor, o.offeror, o.recv_token, amount) {
        proof {
            old(s).ledger.lemma_maps_total();
            crate::ledger::lemma_xfer_roundtrip(
                old(s).ledger.bals(),
                acceptor,
                wallet,
                o.recv_token,
                fee_amount,
            );
        }
        s.ledger.transfer(wallet, acceptor, o.recv_token, fee_amount);
        return Err(SwapError::ArithmeticOverflow);
    }
    s.ledger.transfer(acceptor, o.offeror, o.recv_token, amount);
    let escrow_short = s.ledger.balance(contract, o.send_token) < prop;
    if !s.ledger.can_transfer(contract, acceptor, o.send_token, prop) {
        proof {
            old(s).ledger.lemma_maps_total();
            crate::ledger::lemma_xfer_roundtrip(
                old(s).ledger.bals(),
                acceptor,
                wallet,
                o.recv_token,
                fee_amount,
            );
            crate::ledger::lemma_xfer_total(
                old(s).ledger.bals(),
                acceptor,
                wallet,
                o.recv_token,
                fee_amount,
            );
            crate::ledger::lemma_xfer_roundtrip(
                accept_m1(*old(s), offer_id@, acceptor, amount),
                acceptor,
                o.offeror,
                o.recv_token,
                amount,
            );
        }
        s.ledger.transfer(o.offeror, acceptor, o.recv_token, amount);
        s.ledger.transfer(wallet, acceptor, o.recv_token, fee_amount);
        if escrow_short {
            return Err(SwapError::InsufficientBalance);
        } else {
            return Err(SwapError::ArithmeticOverflow);
        }
    }
    s.ledger.transfer(contract, acceptor, o.send_token, prop);
    let ghost s_mid = *s;
    let mut o2 = o;
    o2.send_amount = o.send_amount - prop;
    o2.recv_amount = o.recv_amount - amount;
    if o2.recv_amount == 0 {
        o2.status = OfferStatus::COMPLETE;
    } else if o2.recv_amount < o2.min_recv_amount {
        o2.min_recv_amount = o2.recv_amount;
    }
    s.offer_infos.set(i, o2);
    proof {
        assert(o2 == accept_apply(o, amount));
        lemma_store_update(s_mid, *s, i as int, o2);
        assert(forall|id2: Seq<u8>| s_mid.has_offer(id2) == old(s).has_offer(id2));
        assert(forall|id2: Seq<u8>|
            s_mid.has_offer(id2) ==> s_mid.offer_at(id2) == old(s).offer_at(id2));
    }
    Ok(())
}

// ------------------------------------------------------------------
// Offer update
// ------------------------------------------------------------------

/// Exactly when `update` succeeds: positive new amount, minimum within
/// range, the offer exists and is `ACTIVE`, and the caller is its offeror.
pub open spec fn update_ok(
    s: TokenSwap,
    offeror: u64,
    id: Seq<u8>,
    recv_amount: u128,
    min_recv_amount: u128,
) -> bool {
    &&& recv_amount > 0
    &&& min_recv_amount <= recv_amount
    &&& s.has_offer(id)
    &&& s.offer_at(id).status is ACTIVE
    &&& offeror == s.offer_at(id).offeror
}

/// The error `update` returns when it fails: the first failing precondition
/// wins.
pub open spec fn update_err(
    s: TokenSwap,
    offeror: u64,
    id: Seq<u8>,
    recv_amount: u128,
    min_recv_amount: u128,
) -> SwapError {
    if recv_amount == 0 {
        SwapError::ZeroAmount
    } else if min_recv_amount > recv_amount {
        SwapError::MinExceedsRecv
    } else if !s.has_offer(id) {
        SwapError::OfferNotFound
    } else if !(s.offer_at(id).status is ACTIVE) {
        SwapError::OfferNotAvailable
    } else {
        SwapError::Unauthorized
    }
}

/// Re-price the remaining capacity of an `ACTIVE` offer: overwrite
/// `recv_amount` and `min_recv_amount`; the escrowed `send_amount` and the
/// status stay untouched and no asset moves. Only the offer's offeror may do
/// this.
pub fn offer_update(
    s: &mut TokenSwap,
    offeror: u64,
    offer_id: &Vec<u8>,
    recv_amount: u128,
    min_recv_amount: u128,
) -> (r: Result<(), SwapError>)
    requires
        old(s).wf(),
    ensures
        final(s).wf(),
        r is Ok <==> update_ok(*old(s), offeror, offer_id@, recv_amount, min_recv_amount),
        r matches Err(e) ==> same_state(*final(s), *old(s)) && e == update_err(
            *old(s),
            offeror,
            offer_id@,
            recv_amount,
            min_recv_amount,
        ),
        r is Ok ==> {
            &&& final(s).offer_at(offer_id@) == OfferInfo {
                recv_amount,
                min_recv_amount,
                ..old(s).offer_at(offer_id@)
            }
            &&& forall|id2: Seq<u8>| final(s).has_offer(id2) == old(s).has_offer(id2)
            &&& forall|id2: Seq<u8>|
                id2 != offer_id@ && old(s).has_offer(id2) ==> final(s).offer_at(id2) == old(
                    s,
                ).offer_at(id2)
            &&& final(s).offer_count() == old(s).offer_count()
            &&& final(s).ledger == old(s).ledger
            &&& final(s).fee == old(s).fee
            &&& final(s).allowed == old(s).allowed
            &&& final(s).contract == old(s).contract
            &&& final(s).last_error == old(s).last_error
        },
{
    if recv_amount == 0 {
        return Err(SwapError::ZeroAmount);
    }
    if min_recv_amount > recv_amount {
        return Err(SwapError::MinExceedsRecv);
    }
    let i = match find_offer(s, offer_id) {
        None => {
            return Err(SwapError::OfferNotFound);
        },
        Some(i) => i,
    };
    let o = s.offer_infos[i];
    match o.status {
        OfferStatus::ACTIVE => {},
        _ => {
            return Err(SwapError::OfferNotAvailable);
        },
    }
    if offeror != o.offeror {
        return Err(SwapError::Unauthorized);
    }
    let ghost s_mid = *s;
    let mut o2 = o;
    o2.recv_amount = recv_amount;
    o2.min_recv_amount = min_recv_amount;
    s.offer_infos.set(i, o2);
    proof {
        lemma_store_update(s_mid, *s, i as int, o2);
    }
    Ok(())
}

// ------------------------------------------------------------------
// Offer close
// ------------------------------------------------------------------

/// Exactly when `close` succeeds: the offer exists and is `ACTIVE`, the
/// caller is its offeror, and returning the whole escrow is possible.
pub open spec fn close_ok(s: TokenSwap, offeror: u64, id: Seq<u8>) -> bool {
    &&& s.has_offer(id)
    &&& s.offer_at(id).status is ACTIVE
    &&& offeror == s.offer_at(id).offeror
    &&& can_xfer_m(
        s.ledger.bals(),
        s.contract,
        s.offer_at(id).offeror,
        s.offer_at(id).send_token,
        s.offer_at(id).send_amount,
    )
}

/// The error `close` returns when it fails: the first failing precondition
/// wins; a short escrow balance beats a credit overflow.
pub open spec fn close_err(s: TokenSwap, offeror: u64, id: Seq<u8>) -> SwapError {
    if !s.has_offer(id) {
        SwapError::OfferNotFound
    } else if !(s.offer_at(id).status is ACTIVE) {
        SwapError::OfferNotAvailable
    } else if offeror != s.offer_at(id).offeror {
        SwapError::Unauthorized
    } else if s.ledger.bal(s.contract, s.offer_at(id).send_token) < s.offer_at(id).send_amount {
        SwapError::InsufficientBalance
    } else {
        SwapError::ArithmeticOverflow
    }
}

/// Close an `ACTIVE` offer: return the entire remaining escrowed
/// `send_amount` to the offeror, charge no further fee, and make the record
/// terminal (`CANCEL`). Only the offer's offeror may do this.
pub fn offer_close(s: &mut TokenSwap, offeror: u64, offer_id: &Vec<u8>) -> (r: Result<
    (),
    SwapError,
>)
    requires
        old(s).wf(),
    ensures
        final(s).wf(),
        r is Ok <==> close_ok(*old(s), offeror, offer_id@),
        r matches Err(e) ==> same_state(*final(s), *old(s)) && e == close_err(
            *old(s),
            offeror,
            offer_id@,
        ),
        r is Ok ==> {
            &&& final(s).offer_at(offer_id@) == OfferInfo {
                status: OfferStatus::CANCEL,
                ..old(s).offer_at(offer_id@)
            }
            &&& forall|id2: Seq<u8>| final(s).has_offer(id2) == old(s).has_offer(id2)
            &&& forall|id2: Seq<u8>|
                id2 != offer_id@ && old(s).has_offer(id2) ==> final(s).offer_at(id2) == old(
                    s,
                ).offer_at(id2)
            &&& final(s).offer_count() == old(s).offer_count()
            &&& final(s).ledger.bals() == xfer_m(
                old(s).ledger.bals(),
                old(s).contract,
                old(s).offer_at(offer_id@).offeror,
                old(s).offer_at(offer_id@).send_token,
                old(s).offer_at(offer_id@).send_amount,
            )
            &&& final(s).ledger.alws() == old(s).ledger.alws()
            &&& final(s).fee == old(s).fee
            &&& final(s).allowed == old(s).allowed
            &&& final(s).contract == old(s).contract
            &&& final(s).last_error == old(s).last_error
        },
{
    let i = match find_offer(s, offer_id) {
        None => {
            return Err(SwapError::OfferNotFound);
        },
        Some(i) => i,
    };
    let o = s.offer_infos[i];
    match o.status {
        OfferStatus::ACTIVE => {},
        _ => {
            return Err(SwapError::OfferNotAvailable);
        },
    }
    if offeror != o.offeror {
        return Err(SwapError::Unauthorized);
    }
    let contract = s.contract;
    if s.ledger.balance(contract, o.send_token) < o.send_amount {
        return Err(SwapError::InsufficientBalance);
    }
    if !s.ledger.can_transfer(contract, o.offeror, o.send_token, o.send_amount) {
        return Err(SwapError::ArithmeticOverflow);
    }
    s.ledger.transfer(contract, o.offeror, o.send_token, o.send_amount);
    let ghost s_mid = *s;
    let mut o2 = o;
    o2.status = OfferStatus::CANCEL;
    s.offer_infos.set(i, o2);
    proof {
        lemma_store_update(s_mid, *s, i as int, o2);
    }
    Ok(())
}

} // verus!
