//! An escrow-based, partial-fill token-swap engine.
//!
//! One party (the offeror) locks a quantity of a send-asset and declares a
//! willingness to exchange it for a recv-asset; any number of acceptors may
//! later supply partial amounts of the recv-asset and immediately receive a
//! proportional amount of the send-asset, until the offer is exhausted or
//! cancelled.
//!
//! All amounts are `u128` (one consistent wide non-negative representation);
//! accounts and asset identifiers are plain `u64` values; offer identifiers
//! are the 32-byte digests of the canonically encoded offer key. The
//! persistent store, the asset ledger and the last-result slot of the hosting
//! platform are modelled as in-memory state owned by [`TokenSwap`];
//! authentication of the invoking account is the entry surface's business and
//! is taken as given where an operation names the invoker itself.

use vstd::prelude::*;

mod allow;
mod fee;
mod laws;
mod ledger;
mod offer;
mod offer_id;
mod storage_types;

pub use allow::allow_get;
pub use allow::allow_reset;
pub use allow::allow_set;
pub use fee::calculate_fee;
pub use fee::fee_check;
pub use fee::fee_get;
pub use fee::fee_of;
pub use fee::fee_fits;
pub use fee::fee_set;
pub use laws::accept_seq_apply;
pub use laws::accept_seq_ok;
pub use laws::accept_step_ok;
pub use laws::lemma_accept_conservation;
pub use laws::lemma_accept_ok_is_step_ok;
pub use laws::lemma_active_min_within_capacity;
pub use laws::lemma_duplicate_create_rejected;
pub use laws::lemma_terminal_is_absorbing;
pub use laws::sum_amounts;
pub use laws::sum_props;
pub use ledger::Ledger;
pub use ledger::lemma_xfer_roundtrip;
pub use ledger::lemma_xfer_total;
pub use offer::accept_apply;
pub use offer::accept_err;
pub use offer::accept_fee;
pub use offer::accept_m1;
pub use offer::accept_m2;
pub use offer::accept_m3;
pub use offer::accept_ok;
pub use offer::accept_prop;
pub use offer::close_err;
pub use offer::close_ok;
pub use offer::create_err;
pub use offer::create_fee;
pub use offer::create_m1;
pub use offer::create_m2;
pub use offer::create_ok;
pub use offer::create_record;
pub use offer::lemma_prop_bounds;
pub use offer::offer_accept;
pub use offer::offer_close;
pub use offer::offer_create;
pub use offer::offer_load;
pub use offer::offer_update;
pub use offer::same_core;
pub use offer::same_state;
pub use offer::update_err;
pub use offer::update_ok;
pub use offer_id::derive_offer_id;
pub use offer_id::encode_key_spec;
pub use offer_id::lemma_offer_id_deterministic;
pub use offer_id::offer_id_of;
pub use offer_id::sha256_of;
pub use offer_id::u64_be_bytes;
pub use ledger::can_xfer_m;
pub use ledger::xfer_m;
pub use storage_types::FeeInfo;
pub use storage_types::OfferInfo;
pub use storage_types::OfferStatus;
pub use storage_types::SwapError;
pub use storage_types::offer_wf;

verus! {

/// Number of implied decimal places in a fee rate: a rate of 10^4 means 100%.
pub const FEE_DECIMALS: u32 = 4;

/// 10^FEE_DECIMALS, the denominator of the fixed-point fee rate.
pub const FEE_DENOM: u128 = 10000;

/// The whole persisted state of the swap system: the fee policy, the
/// allowlist, every offer record keyed by its identifier, the asset ledger,
/// and the last-result code slot.
pub struct TokenSwap {
    /// The engine's own holding account, where escrowed send-assets sit.
    pub contract: u64,
    /// The single fee policy; absent until explicitly set.
    pub fee: Option<FeeInfo>,
    /// Asset identifiers permitted as swap legs.
    pub allowed: Vec<u64>,
    /// Identifiers of all offers ever created, in creation order.
    pub offer_ids: Vec<Vec<u8>>,
    /// The record of each offer, parallel to `offer_ids`.
    pub offer_infos: Vec<OfferInfo>,
    /// Balances and allowances of the asset ledger.
    pub ledger: Ledger,
    /// Result code of the last mutating offer operation; 0 means success.
    pub last_error: u32,
}

impl TokenSwap {
    /// The allowlist holds no duplicates.
    pub open spec fn allowed_nodup(self) -> bool {
        forall|p: int, q: int|
            0 <= p < q < self.allowed@.len() ==> self.allowed@[p] != self.allowed@[q]
    }

    /// An offer with identifier `id` exists.
    pub open spec fn has_offer(self, id: Seq<u8>) -> bool {
        exists|i: int| 0 <= i < self.offer_ids@.len() && self.offer_ids@[i]@ == id
    }

    /// Index of the offer with identifier `id`; meaningful when it exists.
    pub open spec fn offer_index(self, id: Seq<u8>) -> int {
        choose|i: int| 0 <= i < self.offer_ids@.len() && self.offer_ids@[i]@ == id
    }

    /// The record of the offer with identifier `id`; meaningful when it
    /// exists.
    pub open spec fn offer_at(self, id: Seq<u8>) -> OfferInfo {
        self.offer_infos@[self.offer_index(id)]
    }

    /// Number of offers in the store.
    pub open spec fn offer_count(self) -> int {
        self.offer_ids@.len() as int
    }

    /// Well-formedness of the whole state: records parallel to identifiers,
    /// identifiers unique and of digest width, every record obeying the
    /// record invariant, the allowlist free of duplicates, and the store
    /// countable in 32 bits.
    pub open spec fn wf(self) -> bool {
        &&& self.offer_ids@.len() == self.offer_infos@.len()
        &&& forall|p: int, q: int|
            0 <= p < q < self.offer_ids@.len() ==> self.offer_ids@[p]@ != self.offer_ids@[q]@
        &&& forall|i: int| 0 <= i < self.offer_ids@.len() ==> self.offer_ids@[i]@.len() == 32
        &&& forall|i: int| 0 <= i < self.offer_infos@.len() ==> offer_wf(#[trigger] self.offer_infos@[i])
        &&& self.allowed_nodup()
        &&& self.offer_ids@.len() <= u32::MAX
    }

    /// A fresh system: no fee policy, nothing allowlisted, no offers, an
    /// empty ledger, and a clear last-result slot. `contract` names the
    /// engine's own holding account.
    pub fn new(contract: u64) -> (r: TokenSwap)
        ensures
            r.wf(),
            r.contract == contract,
            r.fee is None,
            forall|t: u64| !r.allowed@.contains(t),
            forall|id: Seq<u8>| !r.has_offer(id),
            r.offer_count() == 0,
            forall|a: u64, t: u64| #[trigger] r.ledger.bal(a, t) == 0,
            forall|a: u64, t: u64| #[trigger] r.ledger.alw(a, t) == 0,
            r.last_error == 0,
    {
        TokenSwap {
            contract,
            fee: None,
            allowed: Vec::new(),
            offer_ids: Vec::new(),
            offer_infos: Vec::new(),
            ledger: Ledger::new(),
            last_error: 0,
        }
    }

    /// Overwrite the single fee policy with the given rate and fee wallet.
    pub fn set_fee(&mut self, fee_rate: u32, fee_wallet: u64)
        requires
            old(self).wf(),
        ensures
            final(self).wf(),
            final(self).fee == Some(FeeInfo { fee_rate, fee_wallet }),
            final(self).allowed == old(self).allowed,
            final(self).offer_ids == old(self).offer_ids,
            final(self).offer_infos == old(self).offer_infos,
            final(self).ledger == old(self).ledger,
            final(self).last_error == old(self).last_error,
            final(self).contract == old(self).contract,
    {
        let fee_info = FeeInfo { fee_rate, fee_wallet };
        fee::fee_set(self, &fee_info);
        proof {
            assert(self.fee == Some(FeeInfo { fee_rate, fee_wallet }));
        }
    }

    /// Permit `token` as a swap leg.
    pub fn allow_token(&mut self, token: u64)
        requires
            old(self).wf(),
        ensures
            final(self).wf(),
            final(self).allowed@.contains(token),
            forall|t2: u64| t2 != token ==> final(self).allowed@.contains(t2) == old(
                self,
            ).allowed@.contains(t2),
            final(self).fee == old(self).fee,
            final(self).offer_ids == old(self).offer_ids,
            final(self).offer_infos == old(self).offer_infos,
            final(self).ledger == old(self).ledger,
            final(self).last_error == old(self).last_error,
            final(self).contract == old(self).contract,
    {
        allow::allow_set(self, token);
    }

    /// Withdraw `token` from the allowlist; existing offers stay valid.
    pub fn disallow_token(&mut self, token: u64)
        requires
            old(self).wf(),
        ensures
            final(self).wf(),
            !final(self).allowed@.contains(token),
            forall|t2: u64| t2 != token ==> final(self).allowed@.contains(t2) == old(
                self,
            ).allowed@.contains(t2),
            final(self).fee == old(self).fee,
            final(self).offer_ids == old(self).offer_ids,
            final(self).offer_infos == old(self).offer_infos,
            final(self).ledger == old(self).ledger,
            final(self).last_error == old(self).last_error,
            final(self).contract == old(self).contract,
    {
        allow::allow_reset(self, token);
    }

    /// Whether `token` is currently permitted as a swap leg.
    pub fn is_allowed(&self, token: u64) -> (r: bool)
        ensures
            r == self.allowed@.contains(token),
    {
        allow::allow_get(self, token)
    }

    /// The result code recorded by the last mutating offer operation;
    /// 0 means success.
    pub fn get_error(&self) -> (r: u32)
        ensures
            r == self.last_error,
    {
        self.last_error
    }

    /// How many offers have ever been created (terminal ones included).
    pub fn count_offers(&self) -> (r: u32)
        requires
            self.wf(),
        ensures
            r == self.offer_count(),
    {
        self.offer_ids.len() as u32
    }

    /// The record stored under the given offer identifier, if any.
    pub fn get_offer(&self, offer_id: &Vec<u8>) -> (r: Option<OfferInfo>)
        requires
            self.wf(),
        ensures
            match r {
                Some(o) => self.has_offer(offer_id@) && o == self.offer_at(offer_id@),
                None => !self.has_offer(offer_id@),
            },
    {
        offer::offer_load(self, offer_id)
    }

    /// Balances of `account` in the two named assets; a pure read for
    /// client-side pre-flight checks.
    pub fn check_balances(&self, account: u64, send_token: u64, recv_token: u64) -> (r: (
        u128,
        u128,
    ))
        ensures
            r.0 == self.ledger.bal(account, send_token),
            r.1 == self.ledger.bal(account, recv_token),
    {
        (self.ledger.balance(account, send_token), self.ledger.balance(account, recv_token))
    }

    /// Create an offer (see [`offer_create`]) and record the result code in
    /// the last-result slot: 0 on success, the error's code otherwise.
    pub fn create_offer(
        &mut self,
        offeror: u64,
        send_token: u64,
        recv_token: u64,
        timestamp: u64,
        send_amount: u128,
        recv_amount: u128,
        min_recv_amount: u128,
    ) -> (r: Result<Vec<u8>, SwapError>)
        requires
            old(self).wf(),
            old(self).offer_count() < u32::MAX,
        ensures
            final(self).wf(),
            r is Ok <==> offer::create_ok(
                *old(self),
                offeror,
                send_token,
                recv_token,
                timestamp,
                send_amount,
                recv_amount,
                min_recv_amount,
            ),
            r matches Err(e) ==> e == offer::create_err(
                *old(self),
                offeror,
                send_token,
                recv_token,
                timestamp,
                send_amount,
                recv_amount,
                min_recv_amount,
            ) && offer::same_core(*final(self), *old(self)) && final(self).last_error
                == e.code_spec(),
            r matches Ok(id) ==> {
                &&& id@ == offer_id_of(offeror, send_token, recv_token, timestamp)
                &&& final(self).has_offer(id@)
                &&& final(self).offer_at(id@) == offer::create_record(
                    offeror,
                    send_token,
                    recv_token,
                    send_amount,
                    recv_amount,
                    min_recv_amount,
                )
                &&& final(self).offer_count() == old(self).offer_count() + 1
                &&& forall|id2: Seq<u8>|
                    id2 != id@ ==> final(self).has_offer(id2) == old(self).has_offer(id2)
                &&& forall|id2: Seq<u8>|
                    id2 != id@ && old(self).has_offer(id2) ==> final(self).offer_at(id2) == old(
                        self,
                    ).offer_at(id2)
                &&& final(self).ledger.bals() == offer::create_m2(
                    *old(self),
                    offeror,
                    send_token,
                    send_amount,
                )
                &&& final(self).ledger.alws() == old(self).ledger.alws()
                &&& final(self).fee == old(self).fee
                &&& final(self).allowed == old(self).allowed
                &&& final(self).contract == old(self).contract
                &&& final(self).last_error == 0
            },
    {
        let r = offer::offer_create(
            self,
            offeror,
            send_token,
            recv_token,
            timestamp,
            send_amount,
            recv_amount,
            min_recv_amount,
        );
        let ghost s_mid = *self;
        match &r {
            Ok(_) => {
                self.last_error = 0;
            },
            Err(e) => {
                self.last_error = e.code();
            },
        }
        proof {
            offer::lemma_same_store_views(s_mid, *self);
        }
        r
    }

    /// Accept a partial fill (see [`offer_accept`]) and record the result
    /// code in the last-result slot; the code is also returned: 0 on
    /// success, the error's code otherwise.
    pub fn accept_offer(&mut self, acceptor: u64, offer_id: &Vec<u8>, amount: u128) -> (r: u32)
        requires
            old(self).wf(),
        ensures
            final(self).wf(),
            final(self).last_error == r,
            r == 0 <==> offer::accept_ok(*old(self), offer_id@, acceptor, amount),
            r != 0 ==> r == offer::accept_err(*old(self), offer_id@, acceptor, amount).code_spec()
                && offer::same_core(*final(self), *old(self)),
            r == 0 ==> {
                &&& final(self).offer_at(offer_id@) == offer::accept_apply(
                    old(self).offer_at(offer_id@),
                    amount,
                )
                &&& forall|id2: Seq<u8>| final(self).has_offer(id2) == old(self).has_offer(id2)
                &&& forall|id2: Seq<u8>|
                    id2 != offer_id@ && old(self).has_offer(id2) ==> final(self).offer_at(id2)
                        == old(self).offer_at(id2)
                &&& final(self).offer_count() == old(self).offer_count()
                &&& final(self).ledger.bals() == offer::accept_m3(
                    *old(self),
                    offer_id@,
                    acceptor,
                    amount,
                )
                &&& final(self).ledger.alws() == old(self).ledger.alws()
                &&& final(self).fee == old(self).fee
                &&& final(self).allowed == old(self).allowed
                &&& final(self).contract == old(self).contract
            },
    {
        let r = offer::offer_accept(self, offer_id, acceptor, amount);
        let ghost s_mid = *self;
        let code: u32 = match &r {
            Ok(_) => 0,
            Err(e) => e.code(),
        };
        self.last_error = code;
        proof {
            offer::lemma_same_store_views(s_mid, *self);
        }
        code
    }

    /// Re-price an offer (see [`offer_update`]) and record the result code
    /// in the last-result slot; the code is also returned: 0 on success, the
    /// error's code otherwise.
    pub fn update_offer(
        &mut self,
        offeror: u64,
        offer_id: &Vec<u8>,
        recv_amount: u128,
        min_recv_amount: u128,
    ) -> (r: u32)
        requires
            old(self).wf(),
        ensures
            final(self).wf(),
            final(self).last_error == r,
            r == 0 <==> offer::update_ok(
                *old(self),
                offeror,
                offer_id@,
                recv_amount,
                min_recv_amount,
            ),
            r != 0 ==> r == offer::update_err(
                *old(self),
                offeror,
                offer_id@,
                recv_amount,
                min_recv_amount,
            ).code_spec() && offer::same_core(*final(self), *old(self)),
            r == 0 ==> {
                &&& final(self).offer_at(offer_id@) == OfferInfo {
                    recv_amount,
                    min_recv_amount,
                    ..old(self).offer_at(offer_id@)
                }
                &&& forall|id2: Seq<u8>| final(self).has_offer(id2) == old(self).has_offer(id2)
                &&& forall|id2: Seq<u8>|
                    id2 != offer_id@ && old(self).has_offer(id2) ==> final(self).offer_at(id2)
                        == old(self).offer_at(id2)
                &&& final(self).offer_count() == old(self).offer_count()
                &&& final(self).ledger == old(self).ledger
                &&& final(self).fee == old(self).fee
                &&& final(self).allowed == old(self).allowed
                &&& final(self).contract == old(self).contract
            },
    {
        let r = offer::offer_update(self, offeror, offer_id, recv_amount, min_recv_amount);
        let ghost s_mid = *self;
        let code: u32 = match &r {
            Ok(_) => 0,
            Err(e) => e.code(),
        };
        self.last_error = code;
        proof {
            offer::lemma_same_store_views(s_mid, *self);
        }
        code
    }

    /// Close an offer (see [`offer_close`]) and record the result code in
    /// the last-result slot; the code is also returned: 0 on success, the
    /// error's code otherwise.
    pub fn close_offer(&mut self, offeror: u64, offer_id: &Vec<u8>) -> (r: u32)
        requires
            old(self).wf(),
        ensures
            final(self).wf(),
            final(self).last_error == r,
            r == 0 <==> offer::close_ok(*old(self), offeror, offer_id@),
            r != 0 ==> r == offer::close_err(*old(self), offeror, offer_id@).code_spec()
                && offer::same_core(*final(self), *old(self)),
            r == 0 ==> {
                &&& final(self).offer_at(offer_id@) == OfferInfo {
                    status: OfferStatus::CANCEL,
                    ..old(self).offer_at(offer_id@)
                }
                &&& forall|id2: Seq<u8>| final(self).has_offer(id2) == old(self).has_offer(id2)
                &&& forall|id2: Seq<u8>|
                    id2 != offer_id@ && old(self).has_offer(id2) ==> final(self).offer_at(id2)
                        == old(self).offer_at(id2)
                &&& final(self).offer_count() == old(self).offer_count()
                &&& final(self).ledger.bals() == xfer_m(
                    old(self).ledger.bals(),
                    old(self).contract,
                    old(self).offer_at(offer_id@).offeror,
                    old(self).offer_at(offer_id@).send_token,
                    old(self).offer_at(offer_id@).send_amount,
                )
                &&& final(self).ledger.alws() == old(self).ledger.alws()
                &&& final(self).fee == old(self).fee
                &&& final(self).allowed == old(self).allowed
                &&& final(self).contract == old(self).contract
            },
    {
        let r = offer::offer_close(self, offeror, offer_id);
        let ghost s_mid = *self;
        let code: u32 = match &r {
            Ok(_) => 0,
            Err(e) => e.code(),
        };
        self.last_error = code;
        proof {
            offer::lemma_same_store_views(s_mid, *self);
        }
        code
    }

    /// Create `amount` new units of `token` on `account` (test and set-up
    /// glue standing in for the asset ledger's own issuance).
    pub fn mint(&mut self, account: u64, token: u64, amount: u128) -> (r: Result<(), SwapError>)
        requires
            old(self).wf(),
        ensures
            final(self).wf(),
            r is Ok <==> old(self).ledger.bal(account, token) + amount <= u128::MAX,
            r is Ok ==> final(self).ledger.bal(account, token) == old(self).ledger.bal(
                account,
                token,
            ) + amount,
            r is Err ==> final(self).ledger == old(self).ledger,
            forall|a2: u64, t2: u64|
                !(a2 == account && t2 == token) ==> #[trigger] final(self).ledger.bal(a2, t2)
                    == old(self).ledger.bal(a2, t2),
            forall|o: u64, t2: u64| #[trigger] final(self).ledger.alw(o, t2) == old(
                self,
            ).ledger.alw(o, t2),
            final(self).fee == old(self).fee,
            final(self).allowed == old(self).allowed,
            final(self).offer_ids == old(self).offer_ids,
            final(self).offer_infos == old(self).offer_infos,
            final(self).last_error == old(self).last_error,
            final(self).contract == old(self).contract,
    {
        self.ledger.mint(account, token, amount)
    }

    /// Set the allowance `owner` grants to the engine's holding account for
    /// `token` (set-up glue standing in for the asset ledger's `approve`).
    pub fn approve(&mut self, owner: u64, token: u64, amount: u128)
        requires
            old(self).wf(),
        ensures
            final(self).wf(),
            final(self).ledger.alw(owner, token) == amount,
            forall|o: u64, t2: u64|
                !(o == owner && t2 == token) ==> #[trigger] final(self).ledger.alw(o, t2) == old(
                    self,
                ).ledger.alw(o, t2),
            forall|a2: u64, t2: u64| #[trigger] final(self).ledger.bal(a2, t2) == old(
                self,
            ).ledger.bal(a2, t2),
            final(self).fee == old(self).fee,
            final(self).allowed == old(self).allowed,
            final(self).offer_ids == old(self).offer_ids,
            final(self).offer_infos == old(self).offer_infos,
            final(self).last_error == old(self).last_error,
            final(self).contract == old(self).contract,
    {
        self.ledger.approve(owner, token, amount)
    }
}

} // verus!
