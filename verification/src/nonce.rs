//! Nonces: unsigned 256-bit numbers, drawn at random for each mining attempt
//! and written in decimal into the text that is hashed.

use crate::digits::decimal;
use num_bigint::{BigUint, RandomBits};
use rand::Rng;
use vstd::arithmetic::power2::{lemma2_to64, lemma_pow2_adds, pow2};
use vstd::prelude::*;

verus! {

/// The number that `bytes` spell in base 256, most significant byte first.
pub open spec fn be_value(bytes: Seq<u8>) -> nat
    decreases bytes.len(),
{
    if bytes.len() == 0 {
        0
    } else {
        be_value(bytes.drop_last()) * 256 + bytes.last() as nat
    }
}

/// `256` to the power `len`: the number of values that `len` bytes can spell.
pub open spec fn span(len: nat) -> nat
    decreases len,
{
    if len == 0 {
        1
    } else {
        256 * span((len - 1) as nat)
    }
}

/// `len` bytes spell a number below `span(len)`.
pub proof fn lemma_be_value_bound(bytes: Seq<u8>)
    ensures
        be_value(bytes) < span(bytes.len()),
    decreases bytes.len(),
{
    if bytes.len() > 0 {
        lemma_be_value_bound(bytes.drop_last());
    }
}

/// Splitting a byte string splits its value positionally.
pub proof fn lemma_be_value_concat(high: Seq<u8>, low: Seq<u8>)
    ensures
        be_value(high + low) == be_value(high) * span(low.len()) + be_value(low),
    decreases low.len(),
{
    if low.len() == 0 {
        assert(high + low =~= high);
        assert(be_value(high) * span(0) == be_value(high)) by (nonlinear_arith)
            requires
                span(0) == 1,
        ;
    } else {
        let rest = low.drop_last();
        lemma_be_value_concat(high, rest);
        assert((high + low).drop_last() =~= high + rest);
        assert((high + low).last() == low.last());
        assert(be_value(high) * span(low.len()) == be_value(high) * span(rest.len()) * 256)
            by (nonlinear_arith)
            requires
                span(low.len()) == 256 * span(rest.len()),
        ;
    }
}

/// A byte string spells zero exactly when all of its bytes are zero.
pub proof fn lemma_be_value_zero(bytes: Seq<u8>)
    ensures
        be_value(bytes) == 0 <==> forall|i: int| 0 <= i < bytes.len() ==> bytes[i] == 0,
    decreases bytes.len(),
{
    if bytes.len() > 0 {
        let front = bytes.drop_last();
        lemma_be_value_zero(front);
        if be_value(bytes) == 0 {
            assert forall|i: int| 0 <= i < bytes.len() implies bytes[i] == 0 by {
                if i < front.len() {
                    assert(front[i] == bytes[i]);
                }
            }
        } else if bytes.last() == 0 {
            let i = choose|i: int| 0 <= i < front.len() && front[i] != 0;
            assert(bytes[i] == front[i]);
        }
    }
}

/// `span` in powers of two: eight bits to the byte.
pub proof fn lemma_span_is_pow2(len: nat)
    ensures
        span(len) == pow2(8 * len),
    decreases len,
{
    lemma2_to64();
    if len > 0 {
        lemma_span_is_pow2((len - 1) as nat);
        lemma_pow2_adds(8, (8 * (len - 1)) as nat);
    }
}

/// How many bits a nonce has.
pub const NONCE_BITS: u64 = 256;

/// How many bytes a nonce has.
pub const NONCE_BYTES: usize = 32;

/// An unsigned 256-bit number, kept as 32 bytes, most significant first. Its
/// view is the number.
#[derive(Clone, Copy, Debug, PartialEq, Eq)]
pub struct Nonce {
    be_bytes: [u8; 32],
}

impl View for Nonce {
    type V = nat;

    closed spec fn view(&self) -> nat {
        be_value(self.be_bytes@)
    }
}

impl Nonce {
    /// Every nonce is below two to the 256th.
    pub proof fn lemma_bounded(self)
        ensures
            self@ < pow2(256),
    {
        lemma_be_value_bound(self.be_bytes@);
        lemma_span_is_pow2(32);
    }

    /// The nonce zero.
    pub fn zero() -> (n: Nonce)
        ensures
            n@ == 0,
    {
        let n = Nonce { be_bytes: [0u8; 32] };
        proof {
            lemma_be_value_zero(n.be_bytes@);
        }
        n
    }

    /// Tells whether the nonce is zero.
    pub fn is_zero(&self) -> (zero: bool)
        ensures
            zero == (self@ == 0),
    {
        let mut i: usize = 0;
        while i < NONCE_BYTES
            invariant
                i <= 32,
                forall|j: int| 0 <= j < i ==> self.be_bytes@[j] == 0,
            decreases 32 - i,
        {
            if self.be_bytes[i] != 0 {
                proof {
                    lemma_be_value_zero(self.be_bytes@);
                }
                return false;
            }
            i = i + 1;
        }
        proof {
            lemma_be_value_zero(self.be_bytes@);
        }
        true
    }

    /// Reads a number written in base 256, most significant byte first, of
    /// any length. Leading zero bytes do not count; a number of more than 256
    /// bits is no nonce.
    #[verifier::loop_isolation(false)]
    pub fn from_be_bytes(bytes: &[u8]) -> (n: Option<Nonce>)
        ensures
            n is Some <==> be_value(bytes@) < pow2(256),
            n is Some ==> n->0@ == be_value(bytes@),
    {
        let len = bytes.len();
        let skip: usize = if len > NONCE_BYTES {
            len - NONCE_BYTES
        } else {
            0
        };
        let kept: usize = len - skip;
        let ghost high = bytes@.take(skip as int);
        let ghost low = bytes@.skip(skip as int);
        proof {
            assert(bytes@ =~= high + low);
            lemma_be_value_concat(high, low);
            lemma_be_value_zero(high);
            lemma_be_value_bound(low);
            lemma_span_is_pow2(32);
        }
        let mut i: usize = 0;
        while i < skip
            invariant
                i <= skip <= len,
                len == bytes@.len(),
                high == bytes@.take(skip as int),
                forall|j: int| 0 <= j < i ==> high[j] == 0,
            decreases skip - i,
        {
            if bytes[i] != 0 {
                proof {
                    assert(high[i as int] != 0);
                    assert(low.len() == 32);
                    assert(be_value(high) * span(32) >= span(32)) by (nonlinear_arith)
                        requires
                            be_value(high) >= 1,
                    ;
                }
                return None;
            }
            i = i + 1;
        }
        let mut be_bytes = [0u8; 32];
        let pad: usize = NONCE_BYTES - kept;
        let mut k: usize = 0;
        while k < kept
            invariant
                k <= kept <= 32,
                pad + kept == 32,
                skip + kept == len,
                len == bytes@.len(),
                forall|j: int| 0 <= j < pad ==> be_bytes@[j] == 0,
                forall|j: int| pad <= j < pad + k ==> be_bytes@[j] == bytes@[j - pad + skip],
            decreases kept - k,
        {
            be_bytes[pad + k] = bytes[skip + k];
            k = k + 1;
        }
        proof {
            let zeros = be_bytes@.take(pad as int);
            assert(be_bytes@ =~= zeros + low);
            lemma_be_value_concat(zeros, low);
            lemma_be_value_zero(zeros);
            assert(be_value(zeros) * span(low.len()) == 0) by (nonlinear_arith)
                requires
                    be_value(zeros) == 0,
            ;
            assert(be_value(high) * span(low.len()) == 0) by (nonlinear_arith)
                requires
                    be_value(high) == 0,
            ;
            lemma_be_value_bound(be_bytes@);
        }
        Some(Nonce { be_bytes })
    }

    /// The 32 bytes of the nonce, most significant first.
    pub fn to_be_bytes(&self) -> (bytes: [u8; 32])
        ensures
            be_value(bytes@) == self@,
    {
        self.be_bytes
    }

    /// The nonce in decimal.
    pub fn to_decimal(&self) -> (text: String)
        ensures
            text@ == decimal(self@),
    {
        be_decimal(self.be_bytes.as_slice())
    }

    /// Draws a nonce uniformly from all 256-bit numbers.
    pub fn random() -> (n: Nonce)
        ensures
            n@ < pow2(256),
    {
        let drawn = random_bits(NONCE_BITS);
        let n = Nonce::from_be_bytes(drawn.as_slice()).unwrap();
        proof {
            n.lemma_bounded();
        }
        n
    }
}

/// Samples `num_bigint::RandomBits` of the given width from
/// `rand::thread_rng()` as a `BigUint` and returns its `to_bytes_be()`.
/// Trusted: whatever is drawn, the bytes spell a number below two to the
/// power `bits`.
#[verifier::external_body]
fn random_bits(bits: u64) -> (bytes: Vec<u8>)
    requires
        bits <= u32::MAX,
    ensures
        be_value(bytes@) < pow2(bits as nat),
{
    let drawn: BigUint = rand::thread_rng().sample(RandomBits::new(bits));
    drawn.to_bytes_be()
}

/// Reads `bytes` with `num_bigint::BigUint::from_bytes_be` and formats the
/// number with its `Display`. Trusted: the text is the decimal notation of
/// the number that the bytes spell.
#[verifier::external_body]
fn be_decimal(bytes: &[u8]) -> (text: String)
    ensures
        text@ == decimal(be_value(bytes@)),
{
    BigUint::from_bytes_be(bytes).to_string()
}

} // verus!
