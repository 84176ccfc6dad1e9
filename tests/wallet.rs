use std::collections::HashSet;
use wallet_gen::address::{address_from_digest, address_from_public_key};
use wallet_gen::keys::{address_from_secret_key, is_valid_secret_key};
use wallet_gen::mnemonic::{mnemonic_from_entropy, phrase_from_indices};
use wallet_gen::wallet::{generate, sample_secret_key, wallet_from_parts, WalletError};

const ORDER: [u8; 32] = [
    0xff, 0xff, 0xff, 0xff, 0xff, 0xff, 0xff, 0xff, 0xff, 0xff, 0xff, 0xff, 0xff, 0xff, 0xff, 0xfe,
    0xba, 0xae, 0xdc, 0xe6, 0xaf, 0x48, 0xa0, 0x3b, 0xbf, 0xd2, 0x5e, 0x8c, 0xd0, 0x36, 0x41, 0x41,
];

fn key_of(last: u8) -> [u8; 32] {
    let mut k = [0u8; 32];
    k[31] = last;
    k
}

fn is_address_text(a: &str) -> bool {
    a.len() == 42
        && a.starts_with("0x")
        && a[2..].chars().all(|c| c.is_ascii_digit() || ('a'..='f').contains(&c))
}

#[test]
fn zero_entropy_gives_reference_phrase() {
    let m = mnemonic_from_entropy(&[0u8; 16]).unwrap();
    assert_eq!(
        m,
        "abandon abandon abandon abandon abandon abandon abandon abandon abandon abandon abandon about"
    );
}

#[test]
fn reference_phrases_of_other_entropy() {
    assert_eq!(
        mnemonic_from_entropy(&[0x7f; 16]).unwrap(),
        "legal winner thank year wave sausage worth useful legal winner thank yellow"
    );
    assert_eq!(
        mnemonic_from_entropy(&[0x80; 16]).unwrap(),
        "letter advice cage absurd amount doctor acoustic avoid letter advice cage above"
    );
    assert_eq!(
        mnemonic_from_entropy(&[0xff; 16]).unwrap(),
        "zoo zoo zoo zoo zoo zoo zoo zoo zoo zoo zoo wrong"
    );
}

#[test]
fn longest_entropy_gives_twenty_four_words() {
    let m = mnemonic_from_entropy(&[0u8; 32]).unwrap();
    let words: Vec<&str> = m.split(' ').collect();
    assert_eq!(words.len(), 24);
    assert!(words[..23].iter().all(|w| *w == "abandon"));
    assert_eq!(words[23], "art");
}

#[test]
fn unsupported_entropy_lengths_are_rejected() {
    for n in [0usize, 4, 12, 15, 17, 33, 36] {
        let e = vec![0u8; n];
        assert_eq!(mnemonic_from_entropy(&e), Err(WalletError::MnemonicEncodingFailure));
    }
    for n in [16usize, 20, 24, 28, 32] {
        let e = vec![1u8; n];
        let m = mnemonic_from_entropy(&e).unwrap();
        assert_eq!(m.split(' ').count(), n * 3 / 4);
    }
}

#[test]
fn phrase_joins_list_words() {
    assert_eq!(phrase_from_indices(&[]), "");
    assert_eq!(phrase_from_indices(&[0]), "abandon");
    assert_eq!(phrase_from_indices(&[0, 2047, 3]), "abandon zoo about");
}

#[test]
fn scalar_validity_bounds() {
    assert!(!is_valid_secret_key(&[0u8; 32]));
    assert!(is_valid_secret_key(&key_of(1)));
    assert!(!is_valid_secret_key(&ORDER));
    let mut below = ORDER;
    below[31] = 0x40;
    assert!(is_valid_secret_key(&below));
    assert!(!is_valid_secret_key(&[0xff; 32]));
}

#[test]
fn known_key_addresses() {
    assert_eq!(
        address_from_secret_key(&key_of(1)).unwrap(),
        "0x7e5f4552091a69125d5dfcb7b8c2659029395bdf"
    );
    assert_eq!(
        address_from_secret_key(&key_of(2)).unwrap(),
        "0x2b5ad5c4795c026514f8317c7a215e218dccd6cf"
    );
    assert_eq!(address_from_secret_key(&[0u8; 32]), None);
    assert_eq!(address_from_secret_key(&ORDER), None);
}

#[test]
fn digest_address_takes_last_twenty_bytes() {
    let mut d = [0u8; 32];
    for (i, b) in d.iter_mut().enumerate() {
        *b = (i as u8) * 8;
    }
    assert_eq!(address_from_digest(&d), "0x6068707880889098a0a8b0b8c0c8d0d8e0e8f0f8");
    assert_eq!(address_from_digest(&[0xab; 32]), format!("0x{}", "ab".repeat(20)));
}

#[test]
fn public_key_address_skips_format_byte() {
    let mut p = [0u8; 65];
    p[0] = 4;
    let a = address_from_public_key(&p);
    p[0] = 7;
    assert_eq!(address_from_public_key(&p), a);
    assert!(is_address_text(&a));
    p[64] = 1;
    assert_ne!(address_from_public_key(&p), a);
}

#[test]
fn record_from_fixed_parts() {
    let w = wallet_from_parts(&[0u8; 16], key_of(1)).unwrap();
    assert_eq!(w.secret_key, key_of(1));
    assert_eq!(w.address, "0x7e5f4552091a69125d5dfcb7b8c2659029395bdf");
    assert_eq!(
        w.mnemonic,
        "abandon abandon abandon abandon abandon abandon abandon abandon abandon abandon abandon about"
    );
    assert_eq!(
        wallet_from_parts(&[0u8; 10], key_of(1)).unwrap_err(),
        WalletError::MnemonicEncodingFailure
    );
}

#[test]
fn generated_record_is_consistent() {
    let w = generate().unwrap();
    assert!(is_address_text(&w.address));
    assert!(is_valid_secret_key(&w.secret_key));
    assert!(w.secret_key.iter().any(|b| *b != 0));
    assert_eq!(address_from_secret_key(&w.secret_key).unwrap(), w.address);
    let words: Vec<&str> = w.mnemonic.split(' ').collect();
    assert_eq!(words.len(), 12);
    let list = bip39::Language::English.word_list();
    assert!(words.iter().all(|x| list.contains(x)));
    let parsed = bip39::Mnemonic::parse_in_normalized(bip39::Language::English, &w.mnemonic).unwrap();
    assert_eq!(parsed.to_entropy().len(), 16);
}

#[test]
fn sampled_keys_are_valid() {
    for _ in 0..100 {
        let k = sample_secret_key().unwrap();
        assert!(is_valid_secret_key(&k));
    }
}

#[test]
fn ten_thousand_records_are_distinct() {
    let mut keys = HashSet::new();
    let mut phrases = HashSet::new();
    for _ in 0..10_000 {
        let w = generate().unwrap();
        keys.insert(w.secret_key);
        phrases.insert(w.mnemonic);
    }
    assert_eq!(keys.len(), 10_000);
    assert_eq!(phrases.len(), 10_000);
}
