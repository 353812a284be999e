use vstd::prelude::*;
use num_bigint::{BigInt, ToBigInt};
use num_traits::Zero;

verus! {

/// The value of a byte string read as an unsigned number, least significant byte first.
pub open spec fn unsigned_le(bytes: Seq<u8>) -> nat
    decreases bytes.len(),
{
    if bytes.len() == 0 {
        0
    } else {
        bytes[0] as nat + 256 * unsigned_le(bytes.drop_first())
    }
}

/// `256` to the power `n`.
pub open spec fn byte_weight(n: nat) -> nat
    decreases n,
{
    if n == 0 {
        1
    } else {
        256 * byte_weight((n - 1) as nat)
    }
}

/// The value of a byte string read as a two's-complement number, least
/// significant byte first; the empty string stands for zero.
pub open spec fn signed_le(bytes: Seq<u8>) -> int {
    if bytes.len() > 0 && bytes.last() >= 0x80 {
        unsigned_le(bytes) - byte_weight(bytes.len())
    } else {
        unsigned_le(bytes) as int
    }
}

/// `bytes` is the shortest two's-complement form of its value: it is not
/// empty, and its last byte is not a mere sign extension of the byte before
/// it (a zero after a byte below `0x80`, or `0xff` after one at or above it).
pub open spec fn minimal_le(bytes: Seq<u8>) -> bool {
    &&& bytes.len() > 0
    &&& bytes.len() >= 2 ==> {
        let last = bytes[bytes.len() - 1];
        let prev = bytes[bytes.len() - 2];
        !((last == 0 && prev < 0x80) || (last == 0xff && prev >= 0x80))
    }
}

/// An integer of unbounded size, held as its two's-complement bytes, least
/// significant byte first. Its arithmetic is that of `num_bigint::BigInt`.
#[derive(Debug, Clone, PartialEq, Eq)]
pub struct BigNum {
    pub bytes: Vec<u8>,
}

impl BigNum {
    /// The bytes are in the shortest form, which `num_bigint` always writes.
    pub open spec fn is_minimal(&self) -> bool {
        minimal_le(self.bytes@)
    }
}

impl View for BigNum {
    type V = int;

    open spec fn view(&self) -> int {
        signed_le(self.bytes@)
    }
}

/// Trusted: `ToBigInt::to_bigint` of `num_bigint` on an `i64`, which always
/// gives `Some`, written out with `BigInt::to_signed_bytes_le`. Claimed: the
/// bytes have the value of `n` and are in the shortest form.
#[verifier::external_body]
pub(crate) fn bigint_from_i64(n: i64) -> (r: BigNum)
    ensures
        r@ == n as int,
        r.is_minimal(),
{
    BigNum { bytes: n.to_bigint().unwrap().to_signed_bytes_le() }
}

/// Trusted: `Zero::zero` of `num_traits` for `BigInt`, written out with
/// `BigInt::to_signed_bytes_le`. Claimed: the bytes have the value zero and are in the shortest form.
#[verifier::external_body]
pub(crate) fn bigint_zero() -> (r: BigNum)
    ensures
        r@ == 0,
        r.is_minimal(),
{
    BigNum { bytes: BigInt::zero().to_signed_bytes_le() }
}

/// Trusted: `BigInt + BigInt` of `num_bigint`, the operands read with
/// `BigInt::from_signed_bytes_le` and the sum written with
/// `BigInt::to_signed_bytes_le`. Claimed: the result has the value of the
/// exact sum and is in the shortest form.
#[verifier::external_body]
pub(crate) fn bigint_add(a: &BigNum, b: &BigNum) -> (r: BigNum)
    ensures
        r@ == a@ + b@,
        r.is_minimal(),
{
    let x = BigInt::from_signed_bytes_le(&a.bytes);
    let y = BigInt::from_signed_bytes_le(&b.bytes);
    BigNum { bytes: (x + y).to_signed_bytes_le() }
}

/// Trusted: `BigInt + i64` of `num_bigint`, the big operand read with
/// `BigInt::from_signed_bytes_le` and the sum written with
/// `BigInt::to_signed_bytes_le`. Claimed: the result has the value of the
/// exact sum and is in the shortest form.
#[verifier::external_body]
pub(crate) fn bigint_add_i64(a: &BigNum, n: i64) -> (r: BigNum)
    ensures
        r@ == a@ + n,
        r.is_minimal(),
{
    let x = BigInt::from_signed_bytes_le(&a.bytes);
    BigNum { bytes: (x + n).to_signed_bytes_le() }
}

/// Splitting off the lowest byte: a byte string of two or more bytes has the
/// value of its lowest byte plus 256 times the value of the rest.
proof fn lemma_signed_le_split(b: Seq<u8>)
    requires
        b.len() >= 2,
    ensures
        signed_le(b) == b[0] + 256 * signed_le(b.drop_first()),
{
    let rest = b.drop_first();
    assert(rest.last() == b.last());
    assert(unsigned_le(b) == b[0] as nat + 256 * unsigned_le(rest));
    assert(byte_weight(b.len()) == 256 * byte_weight(rest.len()));
}

/// A one-byte string has the value of its byte read as an `i8`.
proof fn lemma_signed_le_single(b: Seq<u8>)
    requires
        b.len() == 1,
    ensures
        signed_le(b) == if b[0] >= 0x80 { b[0] - 256 } else { b[0] as int },
{
    assert(b.drop_first().len() == 0);
    assert(unsigned_le(b.drop_first()) == 0);
    assert(unsigned_le(b) == b[0] as nat);
    assert(byte_weight(1) == 256) by {
        assert(byte_weight(0) == 1);
    }
}

/// The bytes above the lowest one of a shortest form are a shortest form.
proof fn lemma_minimal_le_rest(b: Seq<u8>)
    requires
        minimal_le(b),
        b.len() >= 2,
    ensures
        minimal_le(b.drop_first()),
{
    let rest = b.drop_first();
    if rest.len() >= 2 {
        assert(rest[rest.len() - 1] == b[b.len() - 1]);
        assert(rest[rest.len() - 2] == b[b.len() - 2]);
    }
}

/// A shortest form of two or more bytes has a value outside the range of
/// `i8`.
proof fn lemma_minimal_le_long(b: Seq<u8>)
    requires
        minimal_le(b),
        b.len() >= 2,
    ensures
        signed_le(b) < -128 || signed_le(b) > 127,
    decreases b.len(),
{
    let rest = b.drop_first();
    lemma_signed_le_split(b);
    lemma_minimal_le_rest(b);
    if rest.len() >= 2 {
        lemma_minimal_le_long(rest);
    } else {
        lemma_signed_le_single(rest);
        assert(b[b.len() - 1] == rest[0]);
        assert(b[b.len() - 2] == b[0]);
    }
}

/// A value has one shortest form: two shortest forms of the same value are
/// the same bytes.
pub proof fn lemma_minimal_le_unique(a: Seq<u8>, b: Seq<u8>)
    requires
        minimal_le(a),
        minimal_le(b),
        signed_le(a) == signed_le(b),
    ensures
        a == b,
    decreases a.len() + b.len(),
{
    if a.len() == 1 && b.len() == 1 {
        lemma_signed_le_single(a);
        lemma_signed_le_single(b);
        assert(a =~= b);
    } else if a.len() == 1 {
        lemma_signed_le_single(a);
        lemma_minimal_le_long(b);
    } else if b.len() == 1 {
        lemma_signed_le_single(b);
        lemma_minimal_le_long(a);
    } else {
        lemma_signed_le_split(a);
        lemma_signed_le_split(b);
        lemma_minimal_le_rest(a);
        lemma_minimal_le_rest(b);
        assert(a[0] == b[0]);
        lemma_minimal_le_unique(a.drop_first(), b.drop_first());
        assert(a =~= b) by {
            assert forall|i: int| 0 <= i < a.len() implies a[i] == b[i] by {
                if i > 0 {
                    assert(a[i] == a.drop_first()[i - 1]);
                    assert(b[i] == b.drop_first()[i - 1]);
                }
            }
        }
    }
}

impl BigNum {
    /// The big integer with the value of `n` (`to_bigint` of an `i64`).
    pub fn from_i64(n: i64) -> (r: BigNum)
        ensures
            r@ == n as int,
            r.is_minimal(),
    {
        bigint_from_i64(n)
    }
}

} // verus!
