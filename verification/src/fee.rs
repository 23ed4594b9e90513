//! The fee registry and the fee computation applied to every value-moving
//! operation.

use vstd::prelude::*;

use crate::FEE_DENOM;
use crate::TokenSwap;
use crate::storage_types::FeeInfo;

verus! {

/// Exact fee owed on `amount` under `fee_rate`:
/// floor(amount × fee_rate / 10^FEE_DECIMALS).
pub open spec fn fee_of(fee_rate: u32, amount: u128) -> int {
    (amount as int * fee_rate as int) / (FEE_DENOM as int)
}

/// The fee computation stays inside the representable range.
pub open spec fn fee_fits(fee_rate: u32, amount: u128) -> bool {
    amount as int * fee_rate as int <= u128::MAX as int
}

/// Fee owed on `amount` under the given policy, or `None` when the
/// fixed-point product would leave the representable range.
pub fn calculate_fee(fee_info: &FeeInfo, amount: u128) -> (r: Option<u128>)
    ensures
        r is Some <==> fee_fits(fee_info.fee_rate, amount),
        r matches Some(f) ==> f == fee_of(fee_info.fee_rate, amount),
{
    match amount.checked_mul(fee_info.fee_rate as u128) {
        Some(p) => Some(p / FEE_DENOM),
        None => None,
    }
}

/// Overwrite the single process-wide fee policy.
pub fn fee_set(s: &mut TokenSwap, fee_info: &FeeInfo)
    ensures
        final(s).fee matches Some(f) && f.fee_rate == fee_info.fee_rate && f.fee_wallet
            == fee_info.fee_wallet,
        final(s).allowed == old(s).allowed,
        final(s).offer_ids == old(s).offer_ids,
        final(s).offer_infos == old(s).offer_infos,
        final(s).ledger == old(s).ledger,
        final(s).last_error == old(s).last_error,
        final(s).contract == old(s).contract,
{
    s.fee = Some(*fee_info);
}

/// Whether a fee policy has been configured.
pub fn fee_check(s: &TokenSwap) -> (r: bool)
    ensures
        r == (s.fee is Some),
{
    s.fee.is_some()
}

/// The configured fee policy; `None` means not configured.
pub fn fee_get(s: &TokenSwap) -> (r: Option<FeeInfo>)
    ensures
        r == s.fee,
{
    s.fee
}

} // verus!
