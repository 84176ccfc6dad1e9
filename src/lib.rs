//! Generation of a fresh wallet: a BIP-39 mnemonic, a secp256k1 secret key,
//! and the Keccak-256 address of that key's public point.
pub mod address;
pub mod keys;
pub mod mnemonic;
pub mod wallet;

pub use wallet::{generate, WalletError, WalletRecord};
