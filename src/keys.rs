//! Secret keys as 32 big-endian bytes: which are valid scalars, and their public points.
use crate::address::{address_from_public_key, is_address_shape, point_address};
use vstd::prelude::*;

verus! {

/// The value of `b` read as an unsigned big-endian integer.
pub open spec fn be_value(b: Seq<u8>) -> nat
    decreases b.len(),
{
    if b.len() == 0 {
        0
    } else {
        (be_value(b.drop_last()) * 256 + b.last()) as nat
    }
}

/// The order of the secp256k1 group.
pub open spec fn curve_order() -> nat {
    (0xFFFF_FFFF_FFFF_FFFF_FFFF_FFFF_FFFF_FFFE as nat) * 0x1_0000_0000_0000_0000
        * 0x1_0000_0000_0000_0000 + (0xBAAE_DCE6_AF48_A03B_BFD2_5E8C_D036_4141 as nat)
}

/// 32 bytes whose big-endian value lies in `[1, curve_order())`.
pub open spec fn valid_scalar(b: Seq<u8>) -> bool {
    &&& b.len() == 32
    &&& 0 < be_value(b)
    &&& be_value(b) < curve_order()
}

/// Every byte of `b` is zero.
pub open spec fn all_zero(b: Seq<u8>) -> bool {
    forall|i: int| 0 <= i < b.len() ==> b[i] == 0
}

/// Bytes that are all zero have the value zero.
pub proof fn lemma_all_zero_value(b: Seq<u8>)
    requires
        all_zero(b),
    ensures
        be_value(b) == 0,
    decreases b.len(),
{
    if b.len() > 0 {
        lemma_all_zero_value(b.drop_last());
    }
}

/// A valid scalar is never made of zero bytes alone.
pub proof fn lemma_valid_scalar_not_zero(b: Seq<u8>)
    requires
        valid_scalar(b),
    ensures
        !all_zero(b),
{
    if all_zero(b) {
        lemma_all_zero_value(b);
    }
}

/// Whether `b` is a usable secret key.
pub fn is_valid_secret_key(b: &[u8; 32]) -> (r: bool)
    ensures
        r == valid_scalar(b@),
{
    public_point(b).is_some()
}

/// The uncompressed serialization of the public point `k * G` (a format byte,
/// then the 32-byte x and y coordinates).
pub uninterp spec fn public_point_of(k: Seq<u8>) -> Seq<u8>;

/// The address of a secret key.
pub open spec fn key_address(k: Seq<u8>) -> Seq<char> {
    point_address(public_point_of(k))
}

/// Relies on secp256k1's `SecretKey::from_slice`, which accepts 32 bytes exactly
/// when libsecp256k1's `secp256k1_ec_seckey_verify` does (their big-endian value
/// is neither zero nor at least the curve order), and on `PublicKey::from_secret_key`
/// with `serialize_uncompressed`: the point `k * G` in 65-byte uncompressed form.
#[verifier::external_body]
fn public_point(k: &[u8; 32]) -> (r: Option<[u8; 65]>)
    ensures
        r is Some <==> valid_scalar(k@),
        r matches Some(p) ==> p@ == public_point_of(k@),
{
    match secp256k1::SecretKey::from_slice(k) {
        Ok(sk) => {
            let secp = secp256k1::Secp256k1::new();
            Some(secp256k1::PublicKey::from_secret_key(&secp, &sk).serialize_uncompressed())
        },
        Err(_) => None,
    }
}

/// The address of secret key `k`, or `None` when `k` is not a valid scalar.
pub fn address_from_secret_key(k: &[u8; 32]) -> (r: Option<String>)
    ensures
        r is Some <==> valid_scalar(k@),
        r matches Some(a) ==> a@ == key_address(k@) && is_address_shape(a@),
{
    match public_point(k) {
        Some(p) => Some(address_from_public_key(&p)),
        None => None,
    }
}

} // verus!
