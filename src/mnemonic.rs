//! Mnemonic phrases: entropy and its checksum cut into 11-bit word indices, and
//! the English words of those indices joined by single spaces.
use crate::wallet::WalletError;
use vstd::prelude::*;

verus! {

#[verifier::external_type_specification]
#[verifier::external_body]
pub struct ExBip39Error(bip39::Error);

/// The SHA-256 digest of `data`, whose leading bits are a mnemonic's checksum.
pub uninterp spec fn sha256_of(data: Seq<u8>) -> Seq<u8>;

/// The word of index `i` in the English word list.
pub uninterp spec fn english_word_of(i: usize) -> Seq<char>;

/// Number of words in the English word list.
pub const WORD_LIST_LEN: usize = 2048;

/// Entropy lengths in bytes that a mnemonic can encode: 128 to 256 bits, in
/// steps of 32 bits.
pub open spec fn supported_entropy_len(n: nat) -> bool {
    n % 4 == 0 && 16 <= n <= 32
}

/// Bit `k` of `b`, counting from the most significant bit of `b[0]`.
pub open spec fn bit_of_bytes(b: Seq<u8>, k: int) -> bool {
    (b[k / 8] >> ((7 - k % 8) as u8)) & 1u8 == 1u8
}

/// Bit `k` of the entropy `e` followed by the bits of `c`.
pub open spec fn encoded_bit(e: Seq<u8>, c: Seq<u8>, k: int) -> bool {
    if k < 8 * e.len() {
        bit_of_bytes(e, k)
    } else {
        bit_of_bytes(c, k - 8 * e.len())
    }
}

/// Bit `k` of the word indices read as 11-bit groups, most significant bit first.
pub open spec fn word_bit(w: Seq<usize>, k: int) -> bool {
    (w[k / 11] >> ((10 - k % 11) as usize)) & 1usize == 1usize
}

/// `w` holds one 11-bit group for each 11 bits of the entropy `e` followed by
/// the leading `e.len() / 4` bits of `c`.
pub open spec fn encodes_with(w: Seq<usize>, e: Seq<u8>, c: Seq<u8>) -> bool {
    &&& w.len() == e.len() * 3 / 4
    &&& forall|i: int| 0 <= i < w.len() ==> #[trigger] w[i] < WORD_LIST_LEN
    &&& forall|k: int| 0 <= k < 11 * w.len() ==> #[trigger] word_bit(w, k) == encoded_bit(e, c, k)
}

/// `w` holds the word indices of the mnemonic of entropy `e`, whose checksum
/// is the start of the SHA-256 digest of `e`.
pub open spec fn encodes(w: Seq<usize>, e: Seq<u8>) -> bool {
    encodes_with(w, e, sha256_of(e))
}

/// Each index of `w` names a word of three to eight lowercase letters.
pub open spec fn all_list_words(w: Seq<usize>) -> bool {
    forall|i: int| 0 <= i < w.len() ==> is_list_word(#[trigger] english_word_of(w[i]))
}

/// `s` is the mnemonic phrase of entropy `e`.
pub open spec fn is_mnemonic_of(s: Seq<char>, e: Seq<u8>) -> bool {
    exists|w: Seq<usize>| encodes(w, e) && all_list_words(w) && s == phrase_of(w)
}

/// 1 for a set bit, 0 for a clear one.
pub open spec fn bit_u8(b: bool) -> u8 {
    if b {
        1
    } else {
        0
    }
}

/// Byte `i` of the bits that the word indices `w` carry.
pub open spec fn decoded_byte(w: Seq<usize>, i: int) -> u8 {
    (bit_u8(word_bit(w, 8 * i)) << 7u8) | (bit_u8(word_bit(w, 8 * i + 1)) << 6u8) | (bit_u8(
        word_bit(w, 8 * i + 2),
    ) << 5u8) | (bit_u8(word_bit(w, 8 * i + 3)) << 4u8) | (bit_u8(word_bit(w, 8 * i + 4)) << 3u8)
        | (bit_u8(word_bit(w, 8 * i + 5)) << 2u8) | (bit_u8(word_bit(w, 8 * i + 6)) << 1u8)
        | bit_u8(word_bit(w, 8 * i + 7))
}

/// The first `n` bytes that the word indices `w` carry.
pub open spec fn decoded_entropy(w: Seq<usize>, n: nat) -> Seq<u8> {
    Seq::new(n, |i: int| decoded_byte(w, i))
}

/// The bits that `w` carries after those of the entropy `e` are the leading
/// bits of the SHA-256 digest of `e`.
pub open spec fn checksum_holds(w: Seq<usize>, e: Seq<u8>) -> bool {
    forall|k: int|
        0 <= k < e.len() / 4 ==> #[trigger] word_bit(w, 8 * e.len() + k) == bit_of_bytes(
            sha256_of(e),
            k,
        )
}

proof fn lemma_low_bit(x: u8)
    ensures
        bit_u8(x & 1u8 == 1u8) == x & 1u8,
{
    assert(x & 1u8 == 1u8 || x & 1u8 == 0u8) by (bit_vector);
}

proof fn lemma_byte_bits(b: u8)
    ensures
        b == (bit_u8((b >> 7u8) & 1u8 == 1u8) << 7u8) | (bit_u8((b >> 6u8) & 1u8 == 1u8) << 6u8)
            | (bit_u8((b >> 5u8) & 1u8 == 1u8) << 5u8) | (bit_u8((b >> 4u8) & 1u8 == 1u8) << 4u8)
            | (bit_u8((b >> 3u8) & 1u8 == 1u8) << 3u8) | (bit_u8((b >> 2u8) & 1u8 == 1u8) << 2u8)
            | (bit_u8((b >> 1u8) & 1u8 == 1u8) << 1u8) | bit_u8((b >> 0u8) & 1u8 == 1u8),
{
    lemma_low_bit(b >> 7u8);
    lemma_low_bit(b >> 6u8);
    lemma_low_bit(b >> 5u8);
    lemma_low_bit(b >> 4u8);
    lemma_low_bit(b >> 3u8);
    lemma_low_bit(b >> 2u8);
    lemma_low_bit(b >> 1u8);
    lemma_low_bit(b >> 0u8);
    assert(b == (((b >> 7u8) & 1u8) << 7u8) | (((b >> 6u8) & 1u8) << 6u8) | (((b >> 5u8) & 1u8)
        << 5u8) | (((b >> 4u8) & 1u8) << 4u8) | (((b >> 3u8) & 1u8) << 3u8) | (((b >> 2u8) & 1u8)
        << 2u8) | (((b >> 1u8) & 1u8) << 1u8) | ((b >> 0u8) & 1u8)) by (bit_vector);
}

/// A mnemonic decodes: the word indices of the mnemonic of `e` carry the bytes
/// of `e`, followed by checksum bits that agree with the SHA-256 digest of `e`.
pub proof fn lemma_mnemonic_decodes(w: Seq<usize>, e: Seq<u8>)
    requires
        supported_entropy_len(e.len()),
        encodes(w, e),
    ensures
        decoded_entropy(w, e.len()) == e,
        checksum_holds(w, e),
{
    let c = sha256_of(e);
    assert forall|i: int| 0 <= i < e.len() implies decoded_byte(w, i) == e[i] by {
        assert forall|j: int| 0 <= j < 8 implies #[trigger] word_bit(w, 8 * i + j) == (((e[i] >> (
        (7 - j) as u8)) & 1u8) == 1u8) by {
            assert(0 <= 8 * i + j < 11 * w.len());
            assert(word_bit(w, 8 * i + j) == encoded_bit(e, c, 8 * i + j));
            assert((8 * i + j) / 8 == i);
            assert((8 * i + j) % 8 == j);
        }
        assert(word_bit(w, 8 * i + 0) == word_bit(w, 8 * i));
        lemma_byte_bits(e[i]);
    }
    assert(decoded_entropy(w, e.len()) =~= e);
    assert forall|k: int| 0 <= k < e.len() / 4 implies #[trigger] word_bit(w, 8 * e.len() + k)
        == bit_of_bytes(c, k) by {
        assert(0 <= 8 * e.len() + k < 11 * w.len());
        assert(word_bit(w, 8 * e.len() + k) == encoded_bit(e, c, 8 * e.len() + k));
    }
}

/// A mnemonic of 128 bits of entropy is twelve list words joined by single
/// spaces, whose indices carry the entropy back and a checksum that verifies.
pub proof fn lemma_twelve_word_mnemonic(s: Seq<char>, e: Seq<u8>)
    requires
        e.len() == 16,
        is_mnemonic_of(s, e),
    ensures
        exists|w: Seq<usize>|
            {
                &&& w.len() == 12
                &&& forall|i: int| 0 <= i < 12 ==> #[trigger] w[i] < WORD_LIST_LEN
                &&& all_list_words(w)
                &&& s == phrase_of(w)
                &&& decoded_entropy(w, 16) == e
                &&& checksum_holds(w, e)
            },
{
    let w = choose|w: Seq<usize>| encodes(w, e) && all_list_words(w) && s == phrase_of(w);
    lemma_mnemonic_decodes(w, e);
    assert(w.len() == 12);
}

/// The English words of `w`, each followed by a space but the last.
pub open spec fn phrase_of(w: Seq<usize>) -> Seq<char>
    decreases w.len(),
{
    if w.len() == 0 {
        Seq::empty()
    } else if w.len() == 1 {
        english_word_of(w[0])
    } else {
        phrase_of(w.drop_last()) + seq![' '] + english_word_of(w.last())
    }
}

/// A word of the English list: three to eight lowercase letters.
pub open spec fn is_list_word(s: Seq<char>) -> bool {
    &&& 3 <= s.len() <= 8
    &&& forall|j: int| 0 <= j < s.len() ==> 'a' <= #[trigger] s[j] <= 'z'
}

/// Relies on bip39's `Mnemonic::from_entropy` and `Mnemonic::word_indices`: entropy
/// of 16 to 32 bytes, a multiple of 4, is accepted and cut, with the leading
/// `len / 4` bits of its SHA-256 digest appended, into 11-bit word indices.
#[verifier::external_body]
fn bip39_word_indices(entropy: &[u8]) -> (r: Result<Vec<usize>, bip39::Error>)
    ensures
        r is Ok <==> supported_entropy_len(entropy@.len()),
        r matches Ok(w) ==> encodes_with(w@, entropy@, sha256_of(entropy@)),
{
    match bip39::Mnemonic::from_entropy(entropy) {
        Ok(m) => Ok(m.word_indices().collect()),
        Err(e) => Err(e),
    }
}

/// Relies on bip39's `Language::word_list` for English: the word of index `i`.
#[verifier::external_body]
fn english_word(i: usize) -> (r: &'static str)
    requires
        i < WORD_LIST_LEN,
    ensures
        r@ == english_word_of(i),
        is_list_word(r@),
{
    bip39::Language::English.word_list()[i]
}

/// The phrase of word indices `w`: their English words joined by single spaces.
pub fn phrase_from_indices(w: &[usize]) -> (r: String)
    requires
        forall|i: int| 0 <= i < w@.len() ==> #[trigger] w@[i] < WORD_LIST_LEN,
    ensures
        r@ == phrase_of(w@),
        all_list_words(w@),
{
    let mut s = String::new();
    let mut i: usize = 0;
    while i < w.len()
        invariant
            0 <= i <= w@.len(),
            forall|j: int| 0 <= j < w@.len() ==> #[trigger] w@[j] < WORD_LIST_LEN,
            s@ == phrase_of(w@.subrange(0, i as int)),
            forall|j: int| 0 <= j < i ==> is_list_word(#[trigger] english_word_of(w@[j])),
        decreases w@.len() - i,
    {
        let word = english_word(w[i]);
        let ghost before = s@;
        if i > 0 {
            s.append(" ");
            proof {
                reveal_strlit(" ");
            }
            assert(s@ =~= before + seq![' ']);
        }
        s.append(word);
        proof {
            let next = w@.subrange(0, i + 1);
            assert(next.drop_last() =~= w@.subrange(0, i as int));
            assert(next.last() == w@[i as int]);
            if i == 0 {
                assert(before =~= Seq::<char>::empty());
                assert(s@ =~= phrase_of(next));
            } else {
                assert(s@ =~= phrase_of(next));
            }
        }
        i = i + 1;
    }
    assert(w@.subrange(0, w@.len() as int) =~= w@);
    s
}

/// The mnemonic phrase of `entropy`.
pub fn mnemonic_from_entropy(entropy: &[u8]) -> (r: Result<String, WalletError>)
    ensures
        r is Ok <==> supported_entropy_len(entropy@.len()),
        r matches Err(e) ==> e == WalletError::MnemonicEncodingFailure,
        r matches Ok(s) ==> is_mnemonic_of(s@, entropy@),
{
    match bip39_word_indices(entropy) {
        Ok(w) => {
            let s = phrase_from_indices(w.as_slice());
            assert(encodes(w@, entropy@) && all_list_words(w@) && s@ == phrase_of(w@));
            Ok(s)
        },
        Err(_) => Err(WalletError::MnemonicEncodingFailure),
    }
}

} // verus!
