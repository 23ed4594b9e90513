//! Core data types of the swap engine: the fee policy, the offer record with
//! its status, and the error taxonomy shared by every operation.

use vstd::prelude::*;

verus! {

/// The single process-wide fee policy: a fixed-point rate (with
/// [`crate::FEE_DECIMALS`] implied decimal places) and the account that
/// collects every fee.
#[derive(Clone, Copy)]
pub struct FeeInfo {
    /// Fixed-point fee rate; 100 means 1% when four decimal places are implied.
    pub fee_rate: u32,
    /// Account credited with every fee charged.
    pub fee_wallet: u64,
}

/// Lifecycle status of an offer. `ACTIVE` offers can be accepted, updated and
/// closed; `COMPLETE` and `CANCEL` are terminal.
#[derive(Clone, Copy, PartialEq, Eq, Structural, Debug)]
pub enum OfferStatus {
    ACTIVE,
    COMPLETE,
    CANCEL,
}

/// One offer record: the offeror, the two asset legs, the remaining escrowed
/// send-asset, the remaining wanted recv-asset, the smallest acceptable
/// recv-asset increment, and the lifecycle status.
#[derive(Clone, Copy)]
pub struct OfferInfo {
    pub offeror: u64,
    pub send_token: u64,
    pub recv_token: u64,
    pub send_amount: u128,
    pub recv_amount: u128,
    pub min_recv_amount: u128,
    pub status: OfferStatus,
}

/// Record-level invariant, held after every successful mutation: an `ACTIVE`
/// offer still wants a positive amount and its minimum increment never
/// exceeds what is still wanted; a `COMPLETE` offer wants exactly nothing.
pub open spec fn offer_wf(o: OfferInfo) -> bool {
    &&& o.status is ACTIVE ==> 0 < o.recv_amount && o.min_recv_amount <= o.recv_amount
    &&& o.status is COMPLETE ==> o.recv_amount == 0
}

/// Why an operation was refused. Every engine operation either succeeds or
/// returns exactly one of these and leaves the whole state unchanged.
#[derive(Clone, Copy, PartialEq, Eq, Structural, Debug)]
pub enum SwapError {
    /// No fee policy has been configured yet.
    FeeNotSet,
    /// One of the two asset legs is not in the allowlist.
    TokenNotAllowed,
    /// An offer with the same derived identifier already exists.
    OfferExists,
    /// A zero amount where a positive one is required.
    ZeroAmount,
    /// `min_recv_amount` exceeds `recv_amount`.
    MinExceedsRecv,
    /// No offer with the given identifier exists.
    OfferNotFound,
    /// The offer exists but is no longer `ACTIVE`.
    OfferNotAvailable,
    /// An accept supplies more than the offer still wants.
    AmountOverRecv,
    /// An accept supplies less than the current minimum increment.
    AmountUnderMin,
    /// A balance is below the required transfer amount.
    InsufficientBalance,
    /// An allowance is below the required transfer amount.
    InsufficientAllowance,
    /// A fee, total, proportional-fill or credit computation would overflow.
    ArithmeticOverflow,
    /// The caller does not control the offer's offeror account.
    Unauthorized,
}

impl SwapError {
    /// The numeric code recorded in the last-result slot for this error.
    pub open spec fn code_spec(self) -> u32 {
        match self {
            SwapError::FeeNotSet => 1,
            SwapError::TokenNotAllowed => 2,
            SwapError::OfferExists => 3,
            SwapError::ZeroAmount => 4,
            SwapError::MinExceedsRecv => 5,
            SwapError::OfferNotFound => 6,
            SwapError::OfferNotAvailable => 7,
            SwapError::AmountOverRecv => 8,
            SwapError::AmountUnderMin => 9,
            SwapError::InsufficientBalance => 10,
            SwapError::InsufficientAllowance => 11,
            SwapError::ArithmeticOverflow => 12,
            SwapError::Unauthorized => 13,
        }
    }

    /// Numeric code of this error; distinct from 0, the code of success.
    pub fn code(self) -> (r: u32)
        ensures
            r == self.code_spec(),
            r != 0,
    {
        match self {
            SwapError::FeeNotSet => 1,
            SwapError::TokenNotAllowed => 2,
            SwapError::OfferExists => 3,
            SwapError::ZeroAmount => 4,
            SwapError::MinExceedsRecv => 5,
            SwapError::OfferNotFound => 6,
            SwapError::OfferNotAvailable => 7,
            SwapError::AmountOverRecv => 8,
            SwapError::AmountUnderMin => 9,
            SwapError::InsufficientBalance => 10,
            SwapError::InsufficientAllowance => 11,
            SwapError::ArithmeticOverflow => 12,
            SwapError::Unauthorized => 13,
        }
    }
}

} // verus!
