//! The hasher and the difficulty oracle: a 256-bit digest written as 64
//! lower-case hex digits, and the rule that a digest must pass to seal a
//! block.

use crate::digits::{digit_char, digit_str, lemma_digit_char_injective};
use sha2::{Digest, Sha256};
use vstd::prelude::*;
use vstd::string::StringExecFns;

verus! {

/// The SHA-256 digest of `data`.
pub uninterp spec fn sha256(data: Seq<u8>) -> Seq<u8>;

/// Calls `sha2::Sha256::digest` on `data` and copies the output array into a
/// vector. Trusted: the result is the SHA-256 digest of `data`, which is 32
/// bytes long.
#[verifier::external_body]
fn sha256_bytes(data: &[u8]) -> (out: Vec<u8>)
    ensures
        out@ == sha256(data@),
        out@.len() == 32,
{
    Sha256::digest(data).to_vec()
}

/// The hex digit at position `i` of the hex notation of `bytes`: the high
/// half of byte `i / 2` at even positions, the low half at odd ones.
pub open spec fn hex_digit_at(bytes: Seq<u8>, i: int) -> char {
    if i % 2 == 0 {
        digit_char(bytes[i / 2] as int / 16)
    } else {
        digit_char(bytes[i / 2] as int % 16)
    }
}

/// Lower-case hex notation: two digits per byte, in order.
pub open spec fn lower_hex(bytes: Seq<u8>) -> Seq<char> {
    Seq::new(2 * bytes.len(), |i: int| hex_digit_at(bytes, i))
}

/// Writes `bytes` in lower-case hex.
pub fn to_lower_hex(bytes: &[u8]) -> (hex: String)
    ensures
        hex@ == lower_hex(bytes@),
{
    let mut hex = String::new();
    let mut i: usize = 0;
    while i < bytes.len()
        invariant
            i <= bytes@.len(),
            hex@.len() == 2 * i,
            forall|j: int| 0 <= j < 2 * i ==> hex@[j] == hex_digit_at(bytes@, j),
        decreases bytes@.len() - i,
    {
        let b: u8 = bytes[i];
        hex.append(digit_str(b / 16));
        hex.append(digit_str(b % 16));
        i = i + 1;
    }
    assert(hex@ =~= lower_hex(bytes@));
    hex
}

/// The digest of a byte sequence, as text.
pub open spec fn digest_of(data: Seq<u8>) -> Seq<char> {
    lower_hex(sha256(data))
}

/// Hashes `data`: the SHA-256 digest in lower-case hex, 64 digits for every
/// input, the empty one included.
pub fn digest(data: &[u8]) -> (hex: String)
    ensures
        hex@ == digest_of(data@),
        hex@.len() == 64,
{
    let raw = sha256_bytes(data);
    to_lower_hex(raw.as_slice())
}

/// Hex notation loses nothing: byte strings with the same notation are the
/// same.
pub proof fn lemma_lower_hex_injective(a: Seq<u8>, b: Seq<u8>)
    requires
        lower_hex(a) == lower_hex(b),
    ensures
        a == b,
{
    assert(lower_hex(a).len() == 2 * a.len());
    assert(lower_hex(b).len() == 2 * b.len());
    assert forall|k: int| 0 <= k < a.len() implies a[k] == b[k] by {
        let (x, y) = (a[k] as int, b[k] as int);
        assert(lower_hex(a)[2 * k] == digit_char(x / 16));
        assert(lower_hex(b)[2 * k] == digit_char(y / 16));
        assert(lower_hex(a)[2 * k + 1] == digit_char(x % 16));
        assert(lower_hex(b)[2 * k + 1] == digit_char(y % 16));
        lemma_digit_char_injective(x / 16, y / 16);
        lemma_digit_char_injective(x % 16, y % 16);
    }
    assert(a =~= b);
}

/// Hashing is a function of the bytes alone, and the digest text tells
/// exactly what SHA-256 tells: two inputs have the same digest if and only
/// if SHA-256 maps them to the same bytes. Equal inputs always do.
pub proof fn lemma_digest_determined(a: Seq<u8>, b: Seq<u8>)
    ensures
        a == b ==> digest_of(a) == digest_of(b),
        digest_of(a) == digest_of(b) <==> sha256(a) == sha256(b),
{
    if digest_of(a) == digest_of(b) {
        lemma_lower_hex_injective(sha256(a), sha256(b));
    }
}

/// How many `'1'` digits a digest needs to be accepted.
pub const DIFFICULTY: usize = 6;

/// The number of occurrences of `'1'` in `hex`.
pub open spec fn ones(hex: Seq<char>) -> nat {
    hex.filter(|c: char| c == '1').len()
}

/// The acceptance rule: at least `DIFFICULTY` occurrences of `'1'`, wherever
/// they stand.
pub open spec fn accepted(hex: Seq<char>) -> bool {
    ones(hex) >= DIFFICULTY
}

/// Tells whether `hex` passes the difficulty rule. The count stops at
/// `DIFFICULTY`: more `'1'` digits than that change nothing.
pub fn meets_difficulty(hex: &str) -> (ok: bool)
    ensures
        ok == accepted(hex@),
{
    let mut seen: usize = 0;
    for c in it: hex.chars()
        invariant
            it.seq() == hex@,
            seen <= DIFFICULTY,
            seen < DIFFICULTY ==> seen == ones(hex@.take(it.index() as int)),
            seen == DIFFICULTY ==> accepted(hex@.take(it.index() as int)),
    {
        proof {
            let k = it.index() as int;
            reveal(Seq::filter);
            assert(hex@.take(k + 1).drop_last() =~= hex@.take(k));
        }
        if c == '1' && seen < DIFFICULTY {
            seen = seen + 1;
        }
    }
    assert(hex@.take(hex@.len() as int) =~= hex@);
    seen == DIFFICULTY
}

} // verus!
