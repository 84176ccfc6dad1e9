//! Wallet records and their generation.
use crate::address::is_address_shape;
use crate::keys::{
    address_from_secret_key, all_zero, is_valid_secret_key, key_address, lemma_valid_scalar_not_zero,
    valid_scalar,
};
use crate::mnemonic::{is_mnemonic_of, mnemonic_from_entropy, supported_entropy_len};
use vstd::prelude::*;

verus! {

#[verifier::external_type_specification]
#[verifier::external_body]
pub struct ExRandError(rand::Error);

/// Why a wallet could not be generated.
#[derive(Debug, Clone, Copy, PartialEq, Eq, Structural)]
pub enum WalletError {
    /// The operating system's random source could not be read.
    EntropySourceUnavailable,
    /// No draw of random bytes gave a valid scalar.
    InvalidScalarExhausted,
    /// The entropy has a length that no mnemonic encodes.
    MnemonicEncodingFailure,
}

/// A secret key, the address of its public point, and a mnemonic phrase.
#[derive(Debug)]
pub struct WalletRecord {
    pub secret_key: [u8; 32],
    pub address: String,
    pub mnemonic: String,
}

/// Draws of 32 random bytes made before a secret key is given up on.
pub const MAX_KEY_DRAWS: usize = 1000;

/// Bytes of entropy behind a generated mnemonic (128 bits, twelve words).
pub const ENTROPY_LEN: usize = 16;

/// `r` holds valid, matching parts, its mnemonic being that of `entropy`.
pub open spec fn is_record_of(r: WalletRecord, entropy: Seq<u8>) -> bool {
    &&& valid_scalar(r.secret_key@)
    &&& r.address@ == key_address(r.secret_key@)
    &&& is_address_shape(r.address@)
    &&& is_mnemonic_of(r.mnemonic@, entropy)
}

/// Relies on rand's `OsRng` (`RngCore::try_fill_bytes`): `N` bytes read from the
/// operating system, or the error that reading gave. Nothing is known of the bytes.
#[verifier::external_body]
fn os_random_bytes<const N: usize>() -> (r: Result<[u8; N], rand::Error>) {
    let mut b = [0u8; N];
    match rand::RngCore::try_fill_bytes(&mut rand::rngs::OsRng, &mut b) {
        Ok(()) => Ok(b),
        Err(e) => Err(e),
    }
}

/// Draws 32 random bytes at a time until they are a valid scalar, at most
/// `MAX_KEY_DRAWS` times.
pub fn sample_secret_key() -> (r: Result<[u8; 32], WalletError>)
    ensures
        r matches Ok(k) ==> valid_scalar(k@),
        r matches Err(e) ==> e == WalletError::EntropySourceUnavailable || e
            == WalletError::InvalidScalarExhausted,
{
    let mut draws: usize = 0;
    while draws < MAX_KEY_DRAWS
        invariant
            draws <= MAX_KEY_DRAWS,
        decreases MAX_KEY_DRAWS - draws,
    {
        match os_random_bytes::<32>() {
            Ok(k) => {
                if is_valid_secret_key(&k) {
                    return Ok(k);
                }
            },
            Err(_) => {
                return Err(WalletError::EntropySourceUnavailable);
            },
        }
        draws = draws + 1;
    }
    Err(WalletError::InvalidScalarExhausted)
}

/// The record of mnemonic entropy `entropy` and secret key `secret_key`.
pub fn wallet_from_parts(entropy: &[u8], secret_key: [u8; 32]) -> (r: Result<WalletRecord, WalletError>)
    requires
        valid_scalar(secret_key@),
    ensures
        r is Ok <==> supported_entropy_len(entropy@.len()),
        r matches Err(e) ==> e == WalletError::MnemonicEncodingFailure,
        r matches Ok(w) ==> w.secret_key == secret_key && is_record_of(w, entropy@),
{
    let mnemonic = match mnemonic_from_entropy(entropy) {
        Ok(m) => m,
        Err(e) => {
            return Err(e);
        },
    };
    match address_from_secret_key(&secret_key) {
        Some(address) => Ok(WalletRecord { secret_key, address, mnemonic }),
        None => Err(WalletError::InvalidScalarExhausted),
    }
}

/// A fresh wallet: a mnemonic of 16 random bytes, and an independently drawn
/// secret key with its address.
pub fn generate() -> (r: Result<WalletRecord, WalletError>)
    ensures
        r matches Ok(w) ==> {
            &&& valid_scalar(w.secret_key@)
            &&& !all_zero(w.secret_key@)
            &&& w.address@ == key_address(w.secret_key@)
            &&& is_address_shape(w.address@)
            &&& exists|e: Seq<u8>| e.len() == ENTROPY_LEN && is_mnemonic_of(w.mnemonic@, e)
        },
        r matches Err(e) ==> e == WalletError::EntropySourceUnavailable || e
            == WalletError::InvalidScalarExhausted,
{
    let entropy = match os_random_bytes::<ENTROPY_LEN>() {
        Ok(e) => e,
        Err(_) => {
            return Err(WalletError::EntropySourceUnavailable);
        },
    };
    let secret_key = match sample_secret_key() {
        Ok(k) => k,
        Err(e) => {
            return Err(e);
        },
    };
    let r = wallet_from_parts(entropy.as_slice(), secret_key);
    proof {
        if r is Ok {
            lemma_valid_scalar_not_zero(r->Ok_0.secret_key@);
        }
    }
    r
}

} // verus!
