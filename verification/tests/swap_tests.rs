use token_swap::OfferInfo;
use token_swap::OfferStatus;
use token_swap::SwapError;
use token_swap::TokenSwap;

const CONTRACT: u64 = 99;
const OFFEROR: u64 = 10;
const ACCEPTOR: u64 = 20;
const WALLET: u64 = 50;
const SEND_TOK: u64 = 1;
const RECV_TOK: u64 = 2;

/// One percent, under four implied decimal places.
const ONE_PERCENT: u32 = 100;

fn setup() -> TokenSwap {
    let mut s = TokenSwap::new(CONTRACT);
    s.set_fee(ONE_PERCENT, WALLET);
    s.allow_token(SEND_TOK);
    s.allow_token(RECV_TOK);
    s
}

/// Scenario A setup: offeror funded with 2000, offer of 1000 send for 500
/// recv with minimum fill 100.
fn setup_with_offer() -> (TokenSwap, Vec<u8>) {
    let mut s = setup();
    s.mint(OFFEROR, SEND_TOK, 2000).unwrap();
    s.approve(OFFEROR, SEND_TOK, 2000);
    let id = s
        .create_offer(OFFEROR, SEND_TOK, RECV_TOK, 1000, 1000, 500, 100)
        .unwrap();
    (s, id)
}

#[test]
fn scenario_a_create_debits_principal_plus_fee() {
    let (s, id) = setup_with_offer();
    // 1000 escrowed + 10 fee (1% of 1000)
    assert_eq!(s.check_balances(OFFEROR, SEND_TOK, RECV_TOK), (990, 0));
    assert_eq!(s.check_balances(CONTRACT, SEND_TOK, RECV_TOK), (1000, 0));
    assert_eq!(s.check_balances(WALLET, SEND_TOK, RECV_TOK), (10, 0));
    let o = s.get_offer(&id).unwrap();
    assert_eq!(o.status, OfferStatus::ACTIVE);
    assert_eq!(o.send_amount, 1000);
    assert_eq!(o.recv_amount, 500);
    assert_eq!(o.min_recv_amount, 100);
    assert_eq!(o.offeror, OFFEROR);
    assert_eq!(o.send_token, SEND_TOK);
    assert_eq!(o.recv_token, RECV_TOK);
    assert_eq!(s.get_error(), 0);
    assert_eq!(s.count_offers(), 1);
}

#[test]
fn scenario_b_partial_accept_proportional_fill() {
    let (mut s, id) = setup_with_offer();
    s.mint(ACCEPTOR, RECV_TOK, 1000).unwrap();
    s.approve(ACCEPTOR, RECV_TOK, 1000);
    let code = s.accept_offer(ACCEPTOR, &id, 200);
    assert_eq!(code, 0);
    // prop = floor(200 * 1000 / 500) = 400; fee = 1% of 200 = 2
    assert_eq!(s.check_balances(ACCEPTOR, RECV_TOK, SEND_TOK), (798, 400));
    assert_eq!(s.check_balances(OFFEROR, RECV_TOK, SEND_TOK), (200, 990));
    assert_eq!(s.check_balances(WALLET, RECV_TOK, SEND_TOK), (2, 10));
    assert_eq!(s.check_balances(CONTRACT, SEND_TOK, RECV_TOK), (600, 0));
    let o = s.get_offer(&id).unwrap();
    assert_eq!(o.status, OfferStatus::ACTIVE);
    assert_eq!(o.send_amount, 600);
    assert_eq!(o.recv_amount, 300);
    assert_eq!(o.min_recv_amount, 100);
}

#[test]
fn scenario_c_accept_remaining_completes_offer() {
    let (mut s, id) = setup_with_offer();
    s.mint(ACCEPTOR, RECV_TOK, 1000).unwrap();
    s.approve(ACCEPTOR, RECV_TOK, 1000);
    assert_eq!(s.accept_offer(ACCEPTOR, &id, 200), 0);
    assert_eq!(s.accept_offer(ACCEPTOR, &id, 300), 0);
    // second prop = floor(300 * 600 / 300) = 600
    let o = s.get_offer(&id).unwrap();
    assert_eq!(o.status, OfferStatus::COMPLETE);
    assert_eq!(o.send_amount, 0);
    assert_eq!(o.recv_amount, 0);
    assert_eq!(s.check_balances(ACCEPTOR, SEND_TOK, RECV_TOK), (1000, 495));
    assert_eq!(s.check_balances(CONTRACT, SEND_TOK, RECV_TOK), (0, 0));
    // conservation: released props sum to the initial escrow, supplied
    // amounts to the initial wanted quantity
    assert_eq!(400 + 600, 1000 - o.send_amount);
    assert_eq!(200 + 300, 500 - o.recv_amount);
}

#[test]
fn scenario_d_close_returns_escrow_and_cancels() {
    let (mut s, id) = setup_with_offer();
    let code = s.close_offer(OFFEROR, &id);
    assert_eq!(code, 0);
    // whole 1000 returned; the 10 fee stays paid
    assert_eq!(s.check_balances(OFFEROR, SEND_TOK, RECV_TOK), (1990, 0));
    assert_eq!(s.check_balances(CONTRACT, SEND_TOK, RECV_TOK), (0, 0));
    let o = s.get_offer(&id).unwrap();
    assert_eq!(o.status, OfferStatus::CANCEL);
    assert_eq!(o.send_amount, 1000);
    // a subsequent accept fails: the offer is no longer available
    let mut s2 = s;
    s2.mint(ACCEPTOR, RECV_TOK, 500).unwrap();
    s2.approve(ACCEPTOR, RECV_TOK, 500);
    assert_eq!(s2.accept_offer(ACCEPTOR, &id, 200), 7);
    assert_eq!(s2.get_error(), 7);
}

#[test]
fn accept_below_minimum_fails_without_effect() {
    let (mut s, id) = setup_with_offer();
    s.mint(ACCEPTOR, RECV_TOK, 1000).unwrap();
    s.approve(ACCEPTOR, RECV_TOK, 1000);
    let code = s.accept_offer(ACCEPTOR, &id, 99);
    assert_eq!(code, 9);
    assert_eq!(s.get_error(), 9);
    // no transfers, no record change
    assert_eq!(s.check_balances(ACCEPTOR, RECV_TOK, SEND_TOK), (1000, 0));
    assert_eq!(s.check_balances(CONTRACT, SEND_TOK, RECV_TOK), (1000, 0));
    let o = s.get_offer(&id).unwrap();
    assert_eq!(o.send_amount, 1000);
    assert_eq!(o.recv_amount, 500);
}

#[test]
fn accept_overflowing_product_fails_without_effect() {
    let mut s = TokenSwap::new(CONTRACT);
    s.set_fee(0, WALLET);
    s.allow_token(SEND_TOK);
    s.allow_token(RECV_TOK);
    let big = u128::MAX / 2;
    s.mint(OFFEROR, SEND_TOK, big).unwrap();
    s.approve(OFFEROR, SEND_TOK, big);
    let id = s
        .create_offer(OFFEROR, SEND_TOK, RECV_TOK, 7, big, 4, 0)
        .unwrap();
    s.mint(ACCEPTOR, RECV_TOK, 4).unwrap();
    s.approve(ACCEPTOR, RECV_TOK, 4);
    // 3 × (u128::MAX / 2) leaves the representable range
    let code = s.accept_offer(ACCEPTOR, &id, 3);
    assert_eq!(code, 12);
    assert_eq!(s.get_error(), 12);
    assert_eq!(s.check_balances(ACCEPTOR, RECV_TOK, SEND_TOK), (4, 0));
    assert_eq!(s.check_balances(CONTRACT, SEND_TOK, RECV_TOK), (big, 0));
    let o = s.get_offer(&id).unwrap();
    assert_eq!(o.send_amount, big);
    assert_eq!(o.recv_amount, 4);
    assert_eq!(o.status, OfferStatus::ACTIVE);
}

#[test]
fn duplicate_create_rejected() {
    let (mut s, id) = setup_with_offer();
    s.mint(OFFEROR, SEND_TOK, 2000).unwrap();
    let r = s.create_offer(OFFEROR, SEND_TOK, RECV_TOK, 1000, 1000, 500, 100);
    assert_eq!(r, Err(SwapError::OfferExists));
    assert_eq!(s.get_error(), 3);
    assert_eq!(s.count_offers(), 1);
    assert!(s.get_offer(&id).is_some());
}

#[test]
fn offer_id_is_deterministic_in_key_fields() {
    let (_s1, id1) = setup_with_offer();
    let (_s2, id2) = setup_with_offer();
    assert_eq!(id1, id2);
    // a different timestamp gives a different identifier
    let mut s3 = setup();
    s3.mint(OFFEROR, SEND_TOK, 2000).unwrap();
    s3.approve(OFFEROR, SEND_TOK, 2000);
    let id3 = s3
        .create_offer(OFFEROR, SEND_TOK, RECV_TOK, 1001, 1000, 500, 100)
        .unwrap();
    assert_ne!(id1, id3);
}

#[test]
fn offer_id_is_digest_of_canonical_key() {
    let mut s = TokenSwap::new(CONTRACT);
    s.set_fee(0, WALLET);
    s.allow_token(0);
    s.mint(0, 0, 10).unwrap();
    s.approve(0, 0, 10);
    // key (0, 0, 0, 0) encodes to 32 zero bytes; its SHA-256 digest is a
    // known vector
    let id = s.create_offer(0, 0, 0, 0, 5, 5, 0).unwrap();
    let expected =
        hex::decode("66687aadf862bd776c8fc18b8e9f8e20089714856ee233b3902a591d0d5f2925").unwrap();
    assert_eq!(id, expected);
}

#[test]
fn create_validation_errors_in_order() {
    let mut s = TokenSwap::new(CONTRACT);
    // fee not set
    let r = s.create_offer(OFFEROR, SEND_TOK, RECV_TOK, 1, 10, 10, 0);
    assert_eq!(r, Err(SwapError::FeeNotSet));
    assert_eq!(s.get_error(), 1);
    s.set_fee(ONE_PERCENT, WALLET);
    // tokens not allowed
    let r = s.create_offer(OFFEROR, SEND_TOK, RECV_TOK, 1, 10, 10, 0);
    assert_eq!(r, Err(SwapError::TokenNotAllowed));
    s.allow_token(SEND_TOK);
    let r = s.create_offer(OFFEROR, SEND_TOK, RECV_TOK, 1, 10, 10, 0);
    assert_eq!(r, Err(SwapError::TokenNotAllowed));
    s.allow_token(RECV_TOK);
    // zero amounts
    let r = s.create_offer(OFFEROR, SEND_TOK, RECV_TOK, 1, 0, 10, 0);
    assert_eq!(r, Err(SwapError::ZeroAmount));
    let r = s.create_offer(OFFEROR, SEND_TOK, RECV_TOK, 1, 10, 0, 0);
    assert_eq!(r, Err(SwapError::ZeroAmount));
    // minimum above wanted amount
    let r = s.create_offer(OFFEROR, SEND_TOK, RECV_TOK, 1, 10, 10, 11);
    assert_eq!(r, Err(SwapError::MinExceedsRecv));
    // insufficient balance (nothing minted yet)
    let r = s.create_offer(OFFEROR, SEND_TOK, RECV_TOK, 1, 10, 10, 0);
    assert_eq!(r, Err(SwapError::InsufficientBalance));
    s.mint(OFFEROR, SEND_TOK, 1000).unwrap();
    // insufficient allowance (nothing approved yet)
    let r = s.create_offer(OFFEROR, SEND_TOK, RECV_TOK, 1, 10, 10, 0);
    assert_eq!(r, Err(SwapError::InsufficientAllowance));
    s.approve(OFFEROR, SEND_TOK, 1000);
    let r = s.create_offer(OFFEROR, SEND_TOK, RECV_TOK, 1, 10, 10, 0);
    assert!(r.is_ok());
    assert_eq!(s.get_error(), 0);
}

#[test]
fn accept_validation_errors() {
    let (mut s, id) = setup_with_offer();
    // unknown identifier
    let bogus: Vec<u8> = vec![0u8; 32];
    assert_eq!(s.accept_offer(ACCEPTOR, &bogus, 200), 6);
    // more than the offer still wants
    assert_eq!(s.accept_offer(ACCEPTOR, &id, 501), 8);
    // below the minimum increment
    assert_eq!(s.accept_offer(ACCEPTOR, &id, 99), 9);
    // insufficient balance
    assert_eq!(s.accept_offer(ACCEPTOR, &id, 200), 10);
    s.mint(ACCEPTOR, RECV_TOK, 1000).unwrap();
    // insufficient allowance
    assert_eq!(s.accept_offer(ACCEPTOR, &id, 200), 11);
    s.approve(ACCEPTOR, RECV_TOK, 1000);
    assert_eq!(s.accept_offer(ACCEPTOR, &id, 200), 0);
}

#[test]
fn update_reprices_remaining_capacity() {
    let (mut s, id) = setup_with_offer();
    // only the offeror may update
    assert_eq!(s.update_offer(ACCEPTOR, &id, 250, 50), 13);
    // zero amount refused
    assert_eq!(s.update_offer(OFFEROR, &id, 0, 0), 4);
    // minimum above wanted amount refused
    assert_eq!(s.update_offer(OFFEROR, &id, 250, 251), 5);
    // unknown identifier
    let bogus: Vec<u8> = vec![7u8; 32];
    assert_eq!(s.update_offer(OFFEROR, &bogus, 250, 50), 6);
    // a valid update overwrites both fields and nothing else
    assert_eq!(s.update_offer(OFFEROR, &id, 250, 50), 0);
    let o = s.get_offer(&id).unwrap();
    assert_eq!(o.recv_amount, 250);
    assert_eq!(o.min_recv_amount, 50);
    assert_eq!(o.send_amount, 1000);
    assert_eq!(o.status, OfferStatus::ACTIVE);
    // the effective rate changed: 100 recv now buys floor(100*1000/250) = 400
    s.mint(ACCEPTOR, RECV_TOK, 1000).unwrap();
    s.approve(ACCEPTOR, RECV_TOK, 1000);
    assert_eq!(s.accept_offer(ACCEPTOR, &id, 100), 0);
    assert_eq!(s.check_balances(ACCEPTOR, SEND_TOK, RECV_TOK), (400, 899));
}

#[test]
fn close_requires_offeror() {
    let (mut s, id) = setup_with_offer();
    assert_eq!(s.close_offer(ACCEPTOR, &id), 13);
    let bogus: Vec<u8> = vec![1u8; 32];
    assert_eq!(s.close_offer(OFFEROR, &bogus), 6);
    assert_eq!(s.close_offer(OFFEROR, &id), 0);
    // closing again: terminal
    assert_eq!(s.close_offer(OFFEROR, &id), 7);
}

#[test]
fn terminal_states_are_absorbing() {
    let (mut s, id) = setup_with_offer();
    s.mint(ACCEPTOR, RECV_TOK, 1000).unwrap();
    s.approve(ACCEPTOR, RECV_TOK, 1000);
    assert_eq!(s.accept_offer(ACCEPTOR, &id, 500), 0);
    let o = s.get_offer(&id).unwrap();
    assert_eq!(o.status, OfferStatus::COMPLETE);
    // every further mutation fails with "offer not available" and changes
    // nothing
    assert_eq!(s.accept_offer(ACCEPTOR, &id, 100), 7);
    assert_eq!(s.update_offer(OFFEROR, &id, 100, 10), 7);
    assert_eq!(s.close_offer(OFFEROR, &id), 7);
    let o2 = s.get_offer(&id).unwrap();
    assert_eq!(o2.status, OfferStatus::COMPLETE);
    assert_eq!(o2.send_amount, o.send_amount);
    assert_eq!(o2.recv_amount, o.recv_amount);
    assert_eq!(o2.min_recv_amount, o.min_recv_amount);
}

#[test]
fn dust_clamp_lowers_minimum_to_remaining() {
    let (mut s, id) = setup_with_offer();
    s.mint(ACCEPTOR, RECV_TOK, 1000).unwrap();
    s.approve(ACCEPTOR, RECV_TOK, 1000);
    // fill 450 of 500: remainder 50 drops below the minimum 100, so the
    // minimum clamps down to 50 and the offer stays fillable
    assert_eq!(s.accept_offer(ACCEPTOR, &id, 450), 0);
    let o = s.get_offer(&id).unwrap();
    assert_eq!(o.status, OfferStatus::ACTIVE);
    assert_eq!(o.recv_amount, 50);
    assert_eq!(o.min_recv_amount, 50);
    assert_eq!(s.accept_offer(ACCEPTOR, &id, 50), 0);
    assert_eq!(s.get_offer(&id).unwrap().status, OfferStatus::COMPLETE);
}

#[test]
fn calculate_fee_is_exact_floor() {
    let fi = token_swap::FeeInfo { fee_rate: 100, fee_wallet: WALLET };
    assert_eq!(token_swap::calculate_fee(&fi, 1000), Some(10));
    assert_eq!(token_swap::calculate_fee(&fi, 200), Some(2));
    assert_eq!(token_swap::calculate_fee(&fi, 99), Some(0));
    let fi2 = token_swap::FeeInfo { fee_rate: 10000, fee_wallet: WALLET };
    assert_eq!(token_swap::calculate_fee(&fi2, 123), Some(123));
    // an overflowing fixed-point product is refused
    assert_eq!(token_swap::calculate_fee(&fi2, u128::MAX), None);
    let fi0 = token_swap::FeeInfo { fee_rate: 0, fee_wallet: WALLET };
    assert_eq!(token_swap::calculate_fee(&fi0, u128::MAX), Some(0));
}

#[test]
fn create_fee_overflow_fails() {
    let mut s = TokenSwap::new(CONTRACT);
    s.set_fee(10000, WALLET);
    s.allow_token(SEND_TOK);
    s.allow_token(RECV_TOK);
    s.mint(OFFEROR, SEND_TOK, u128::MAX).unwrap();
    s.approve(OFFEROR, SEND_TOK, u128::MAX);
    let r = s.create_offer(OFFEROR, SEND_TOK, RECV_TOK, 1, u128::MAX, 10, 0);
    assert_eq!(r, Err(SwapError::ArithmeticOverflow));
    assert_eq!(s.get_error(), 12);
    assert_eq!(s.check_balances(OFFEROR, SEND_TOK, RECV_TOK), (u128::MAX, 0));
}

#[test]
fn allowlist_membership_is_exact() {
    let mut s = TokenSwap::new(CONTRACT);
    assert!(!s.is_allowed(SEND_TOK));
    s.allow_token(SEND_TOK);
    assert!(s.is_allowed(SEND_TOK));
    assert!(!s.is_allowed(RECV_TOK));
    s.allow_token(SEND_TOK);
    assert!(s.is_allowed(SEND_TOK));
    s.disallow_token(SEND_TOK);
    assert!(!s.is_allowed(SEND_TOK));
    // removal does not invalidate an existing offer
    let (mut s2, id) = setup_with_offer();
    s2.disallow_token(SEND_TOK);
    s2.mint(ACCEPTOR, RECV_TOK, 1000).unwrap();
    s2.approve(ACCEPTOR, RECV_TOK, 1000);
    assert_eq!(s2.accept_offer(ACCEPTOR, &id, 200), 0);
}

#[test]
fn check_balances_reads_both_assets() {
    let mut s = TokenSwap::new(CONTRACT);
    s.mint(OFFEROR, SEND_TOK, 7).unwrap();
    s.mint(OFFEROR, RECV_TOK, 9).unwrap();
    assert_eq!(s.check_balances(OFFEROR, SEND_TOK, RECV_TOK), (7, 9));
    assert_eq!(s.check_balances(ACCEPTOR, SEND_TOK, RECV_TOK), (0, 0));
}

#[test]
fn offeror_may_accept_own_offer() {
    let (mut s, id) = setup_with_offer();
    s.mint(OFFEROR, RECV_TOK, 1000).unwrap();
    s.approve(OFFEROR, RECV_TOK, 1000);
    assert_eq!(s.accept_offer(OFFEROR, &id, 200), 0);
    // the 200 recv goes from the offeror to the offeror; 2 fee leaves; 400
    // send comes back from escrow
    assert_eq!(s.check_balances(OFFEROR, RECV_TOK, SEND_TOK), (998, 1390));
}

#[test]
fn update_struct_roundtrip() {
    // OfferInfo is plain data the caller can build and compare
    let o = OfferInfo {
        offeror: OFFEROR,
        send_token: SEND_TOK,
        recv_token: RECV_TOK,
        send_amount: 5,
        recv_amount: 6,
        min_recv_amount: 1,
        status: OfferStatus::ACTIVE,
    };
    assert_eq!(o.recv_amount, 6);
    assert_eq!(o.status, OfferStatus::ACTIVE);
}
