//! Addresses: `0x` and the lowercase hex of the last 20 bytes of the Keccak-256
//! digest of a public point.
use sha3::Digest;
use vstd::prelude::*;

verus! {

/// The Keccak-256 digest of `data`.
pub uninterp spec fn keccak256_of(data: Seq<u8>) -> Seq<u8>;

/// The lowercase hex digit of a value below 16.
pub open spec fn hex_digit(v: u8) -> char {
    if v < 10 {
        (('0' as u8) + v) as char
    } else {
        (('a' as u8) + (v - 10)) as char
    }
}

/// Two lowercase hex digits per byte, high nibble first.
pub open spec fn hex_text(b: Seq<u8>) -> Seq<char> {
    Seq::new(
        2 * b.len(),
        |j: int|
            if j % 2 == 0 {
                hex_digit(b[j / 2] / 16)
            } else {
                hex_digit(b[j / 2] % 16)
            },
    )
}

/// The text of an address whose 20 bytes are `b`.
pub open spec fn address_text(b: Seq<u8>) -> Seq<char> {
    seq!['0', 'x'] + hex_text(b)
}

/// The address of a digest: its last 20 bytes.
pub open spec fn digest_address(d: Seq<u8>) -> Seq<char> {
    address_text(d.subrange(12, 32))
}

/// The address of an uncompressed public point: the format byte is left out
/// of what is hashed.
pub open spec fn point_address(p: Seq<u8>) -> Seq<char> {
    digest_address(keccak256_of(p.subrange(1, 65)))
}

pub open spec fn is_lower_hex_char(c: char) -> bool {
    ('0' <= c && c <= '9') || ('a' <= c && c <= 'f')
}

/// `0x` followed by forty lowercase hex digits.
pub open spec fn is_address_shape(s: Seq<char>) -> bool {
    &&& s.len() == 42
    &&& s[0] == '0'
    &&& s[1] == 'x'
    &&& forall|i: int| 2 <= i < 42 ==> is_lower_hex_char(#[trigger] s[i])
}

/// Every 20-byte identifier is written as `0x` and forty lowercase hex digits.
pub proof fn lemma_address_shape(b: Seq<u8>)
    requires
        b.len() == 20,
    ensures
        is_address_shape(address_text(b)),
{
    let s = address_text(b);
    assert forall|i: int| 2 <= i < 42 implies is_lower_hex_char(#[trigger] s[i]) by {
        let j = i - 2;
        assert(s[i] == hex_text(b)[j]);
        let v: u8 = if j % 2 == 0 { b[j / 2] / 16 } else { b[j / 2] % 16 };
        assert(v < 16);
        assert(hex_text(b)[j] == hex_digit(v));
    }
}

/// Relies on sha3's `Keccak256` (through `Digest::digest`): the 32-byte digest of `data`.
#[verifier::external_body]
fn keccak256(data: &[u8]) -> (r: [u8; 32])
    ensures
        r@ == keccak256_of(data@),
{
    sha3::Keccak256::digest(data).into()
}

/// Relies on `hex::encode`: two lowercase digits for each byte, high nibble first.
#[verifier::external_body]
fn hex_encode(b: &[u8]) -> (r: String)
    ensures
        r@ == hex_text(b@),
{
    hex::encode(b)
}

/// The address that a Keccak-256 digest stands for.
pub fn address_from_digest(d: &[u8; 32]) -> (r: String)
    ensures
        r@ == digest_address(d@),
        is_address_shape(r@),
{
    let mut tail: Vec<u8> = Vec::new();
    let mut i: usize = 12;
    while i < 32
        invariant
            12 <= i <= 32,
            tail@ == d@.subrange(12, i as int),
        decreases 32 - i,
    {
        tail.push(d[i]);
        i = i + 1;
        assert(tail@ =~= d@.subrange(12, i as int));
    }
    let digits = hex_encode(tail.as_slice());
    let mut s: String = "0x".to_owned();
    proof {
        reveal_strlit("0x");
    }
    s.append(digits.as_str());
    assert(s@ =~= address_text(d@.subrange(12, 32)));
    proof {
        lemma_address_shape(d@.subrange(12, 32));
    }
    s
}

/// The address of a public point in uncompressed form (a format byte and 64
/// coordinate bytes).
pub fn address_from_public_key(p: &[u8; 65]) -> (r: String)
    ensures
        r@ == point_address(p@),
        is_address_shape(r@),
{
    let mut coords: Vec<u8> = Vec::new();
    let mut i: usize = 1;
    while i < 65
        invariant
            1 <= i <= 65,
            coords@ == p@.subrange(1, i as int),
        decreases 65 - i,
    {
        coords.push(p[i]);
        i = i + 1;
        assert(coords@ =~= p@.subrange(1, i as int));
    }
    let digest = keccak256(coords.as_slice());
    address_from_digest(&digest)
}

} // verus!
