//! Laws that hold across whole sequences of operations, stated over the same
//! spec functions the operation contracts use.

use vstd::prelude::*;

use crate::TokenSwap;
use crate::offer::accept_apply;
use crate::offer::accept_err;
use crate::offer::accept_ok;
use crate::offer::accept_prop;
use crate::offer::close_err;
use crate::offer::close_ok;
use crate::offer::create_err;
use crate::offer::create_ok;
use crate::offer::lemma_prop_bounds;
use crate::offer::update_err;
use crate::offer::update_ok;
use crate::offer_id::offer_id_of;
use crate::storage_types::OfferInfo;
use crate::storage_types::SwapError;
use crate::storage_types::offer_wf;

verus! {

/// The record-level validity of one fill of `amount`: the record is still
/// `ACTIVE` and well-formed, the amount lies within
/// [min_recv_amount, recv_amount], and the proportional product is
/// representable. These are exactly the conditions `accept` checks against
/// the record itself.
pub open spec fn accept_step_ok(o: OfferInfo, amount: u128) -> bool {
    &&& o.status is ACTIVE
    &&& 0 < o.recv_amount
    &&& o.min_recv_amount <= amount
    &&& amount <= o.recv_amount
    &&& amount as int * o.send_amount as int <= u128::MAX as int
}

/// A whole sequence of fills is valid step by step, each against the record
/// the previous fill left behind.
pub open spec fn accept_seq_ok(o: OfferInfo, amounts: Seq<u128>) -> bool
    decreases amounts.len(),
{
    amounts.len() == 0 || (accept_step_ok(o, amounts[0]) && accept_seq_ok(
        accept_apply(o, amounts[0]),
        amounts.drop_first(),
    ))
}

/// The record after a whole sequence of fills.
pub open spec fn accept_seq_apply(o: OfferInfo, amounts: Seq<u128>) -> OfferInfo
    decreases amounts.len(),
{
    if amounts.len() == 0 {
        o
    } else {
        accept_seq_apply(accept_apply(o, amounts[0]), amounts.drop_first())
    }
}

/// Sum of the recv-asset amounts supplied over a sequence of fills.
pub open spec fn sum_amounts(amounts: Seq<u128>) -> int
    decreases amounts.len(),
{
    if amounts.len() == 0 {
        0
    } else {
        amounts[0] + sum_amounts(amounts.drop_first())
    }
}

/// Sum of the send-asset amounts released over a sequence of fills, each
/// proportional to the record it was computed against.
pub open spec fn sum_props(o: OfferInfo, amounts: Seq<u128>) -> int
    decreases amounts.len(),
{
    if amounts.len() == 0 {
        0
    } else {
        accept_prop(o, amounts[0]) + sum_props(accept_apply(o, amounts[0]), amounts.drop_first())
    }
}

/// Law (exact conservation, no drift): over any sequence of valid fills on
/// one offer, the released send-asset amounts sum to exactly the record's
/// drop in `send_amount`, and the supplied recv-asset amounts sum to exactly
/// the record's drop in `recv_amount`; both amounts are non-increasing.
pub proof fn lemma_accept_conservation(o: OfferInfo, amounts: Seq<u128>)
    requires
        accept_seq_ok(o, amounts),
    ensures
        sum_props(o, amounts) == o.send_amount - accept_seq_apply(o, amounts).send_amount,
        sum_amounts(amounts) == o.recv_amount - accept_seq_apply(o, amounts).recv_amount,
        sum_props(o, amounts) >= 0,
        sum_amounts(amounts) >= 0,
    decreases amounts.len(),
{
    if amounts.len() > 0 {
        let a0 = amounts[0];
        let o1 = accept_apply(o, a0);
        lemma_prop_bounds(o, a0);
        assert(o1.send_amount == o.send_amount - accept_prop(o, a0));
        assert(o1.recv_amount == o.recv_amount - a0);
        lemma_accept_conservation(o1, amounts.drop_first());
    }
}

/// Every fill the engine admits is a valid step of the sequence law: the
/// conditions `accept` checks against the record imply `accept_step_ok`, so
/// [`lemma_accept_conservation`] applies to any chain of successful accepts.
pub proof fn lemma_accept_ok_is_step_ok(s: TokenSwap, id: Seq<u8>, acceptor: u64, amount: u128)
    requires
        s.wf(),
        accept_ok(s, id, acceptor, amount),
    ensures
        accept_step_ok(s.offer_at(id), amount),
        accept_seq_ok(s.offer_at(id), seq![amount]),
{
    lemma_active_min_within_capacity(s, id);
    assert(seq![amount][0] == amount);
    assert(seq![amount].drop_first() =~= Seq::<u128>::empty());
    assert(accept_seq_ok(accept_apply(s.offer_at(id), amount), Seq::<u128>::empty()));
}

/// Law (store invariant): while an offer is `ACTIVE`, it still wants a
/// positive amount and its minimum increment never exceeds what it wants.
/// Every operation's contract preserves `wf`, so this holds after every
/// successful create, update and accept.
pub proof fn lemma_active_min_within_capacity(s: TokenSwap, id: Seq<u8>)
    requires
        s.wf(),
        s.has_offer(id),
        s.offer_at(id).status is ACTIVE,
    ensures
        s.offer_at(id).min_recv_amount <= s.offer_at(id).recv_amount,
        0 < s.offer_at(id).recv_amount,
{
    let j = s.offer_index(id);
    assert(0 <= j < s.offer_ids@.len() && s.offer_ids@[j]@ == id);
    assert(offer_wf(s.offer_infos@[j]));
}

/// Law (deterministic identifiers): an offer identifier already in the store
/// makes any create with the same key fields fail, and — once the fee and
/// allowlist gates pass — fail precisely with "offer already exists".
pub proof fn lemma_duplicate_create_rejected(
    s: TokenSwap,
    offeror: u64,
    send_token: u64,
    recv_token: u64,
    timestamp: u64,
    send_amount: u128,
    recv_amount: u128,
    min_recv_amount: u128,
)
    requires
        s.has_offer(offer_id_of(offeror, send_token, recv_token, timestamp)),
    ensures
        !create_ok(
            s,
            offeror,
            send_token,
            recv_token,
            timestamp,
            send_amount,
            recv_amount,
            min_recv_amount,
        ),
        s.fee is Some && s.allowed@.contains(send_token) && s.allowed@.contains(recv_token)
            ==> create_err(
            s,
            offeror,
            send_token,
            recv_token,
            timestamp,
            send_amount,
            recv_amount,
            min_recv_amount,
        ) == SwapError::OfferExists,
{
}

/// Law (terminal states are absorbing): on an offer that is no longer
/// `ACTIVE`, accept, update and close all fail — with "offer not available"
/// once the checks that precede the status check pass — and their contracts
/// leave the state unchanged on failure.
pub proof fn lemma_terminal_is_absorbing(
    s: TokenSwap,
    id: Seq<u8>,
    acceptor: u64,
    amount: u128,
    offeror: u64,
    recv_amount: u128,
    min_recv_amount: u128,
)
    requires
        s.has_offer(id),
        !(s.offer_at(id).status is ACTIVE),
    ensures
        !accept_ok(s, id, acceptor, amount),
        s.fee is Some ==> accept_err(s, id, acceptor, amount) == SwapError::OfferNotAvailable,
        !update_ok(s, offeror, id, recv_amount, min_recv_amount),
        recv_amount > 0 && min_recv_amount <= recv_amount ==> update_err(
            s,
            offeror,
            id,
            recv_amount,
            min_recv_amount,
        ) == SwapError::OfferNotAvailable,
        !close_ok(s, offeror, id),
        close_err(s, offeror, id) == SwapError::OfferNotAvailable,
{
}

} // verus!
