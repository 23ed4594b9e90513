//! Deterministic offer-identifier derivation: the offer key (offeror, both
//! asset legs, creation timestamp) is canonically encoded as 32 big-endian
//! bytes and hashed; the 32-byte digest is the offer identifier.

use vstd::prelude::*;

use sha2::Digest;

verus! {

/// The digest of `data` under the hash primitive used for offer identifiers.
pub uninterp spec fn sha256_of(data: Seq<u8>) -> Seq<u8>;

/// Relies on sha2::Sha256 (the SHA-256 hash): the 32-byte digest is a
/// function of the input bytes alone.
#[verifier::external_body]
fn sha256(data: &Vec<u8>) -> (r: Vec<u8>)
    ensures
        r@ == sha256_of(data@),
        r@.len() == 32,
{
    let digest = sha2::Sha256::digest(data.as_slice());
    digest.as_slice().to_vec()
}

/// The eight big-endian bytes of `x`.
pub open spec fn u64_be_bytes(x: u64) -> Seq<u8> {
    seq![
        ((x >> 56) & 0xff) as u8,
        ((x >> 48) & 0xff) as u8,
        ((x >> 40) & 0xff) as u8,
        ((x >> 32) & 0xff) as u8,
        ((x >> 24) & 0xff) as u8,
        ((x >> 16) & 0xff) as u8,
        ((x >> 8) & 0xff) as u8,
        (x & 0xff) as u8,
    ]
}

/// Canonical 32-byte encoding of the offer key.
pub open spec fn encode_key_spec(offeror: u64, send_token: u64, recv_token: u64, timestamp: u64)
    -> Seq<u8> {
    u64_be_bytes(offeror) + u64_be_bytes(send_token) + u64_be_bytes(recv_token) + u64_be_bytes(
        timestamp,
    )
}

/// The identifier every offer with this key gets: the digest of the key's
/// canonical encoding.
pub open spec fn offer_id_of(offeror: u64, send_token: u64, recv_token: u64, timestamp: u64)
    -> Seq<u8> {
    sha256_of(encode_key_spec(offeror, send_token, recv_token, timestamp))
}

/// Append the eight big-endian bytes of `x` to `out`.
fn push_u64_be(out: &mut Vec<u8>, x: u64)
    ensures
        final(out)@ == old(out)@ + u64_be_bytes(x),
{
    let ghost o0 = out@;
    out.push(((x >> 56) & 0xff) as u8);
    out.push(((x >> 48) & 0xff) as u8);
    out.push(((x >> 40) & 0xff) as u8);
    out.push(((x >> 32) & 0xff) as u8);
    out.push(((x >> 24) & 0xff) as u8);
    out.push(((x >> 16) & 0xff) as u8);
    out.push(((x >> 8) & 0xff) as u8);
    out.push((x & 0xff) as u8);
    proof {
        assert(out@ =~= o0 + u64_be_bytes(x));
    }
}

/// Derive the identifier of the offer with the given key fields.
pub fn derive_offer_id(offeror: u64, send_token: u64, recv_token: u64, timestamp: u64) -> (r: Vec<
    u8,
>)
    ensures
        r@ == offer_id_of(offeror, send_token, recv_token, timestamp),
        r@.len() == 32,
{
    let mut key_bytes: Vec<u8> = Vec::new();
    push_u64_be(&mut key_bytes, offeror);
    push_u64_be(&mut key_bytes, send_token);
    push_u64_be(&mut key_bytes, recv_token);
    push_u64_be(&mut key_bytes, timestamp);
    proof {
        assert(key_bytes@ =~= encode_key_spec(offeror, send_token, recv_token, timestamp));
    }
    sha256(&key_bytes)
}

/// Law: the offer identifier is a deterministic function of the key fields
/// (offeror, send-asset, recv-asset, timestamp) — two creates with identical
/// key fields derive the identical identifier, so the second finds it already
/// in the store and is rejected.
pub proof fn lemma_offer_id_deterministic(
    offeror1: u64,
    send_token1: u64,
    recv_token1: u64,
    timestamp1: u64,
    offeror2: u64,
    send_token2: u64,
    recv_token2: u64,
    timestamp2: u64,
)
    requires
        offeror1 == offeror2,
        send_token1 == send_token2,
        recv_token1 == recv_token2,
        timestamp1 == timestamp2,
    ensures
        offer_id_of(offeror1, send_token1, recv_token1, timestamp1) == offer_id_of(
            offeror2,
            send_token2,
            recv_token2,
            timestamp2,
        ),
{
}

} // verus!
