use vstd::prelude::*;
use crate::bignum::{bigint_add, bigint_add_i64, bigint_from_i64, bigint_zero, lemma_minimal_le_unique, BigNum};

verus! {

/// A complex number with `i64` parts.
#[derive(Debug, Clone, Copy, PartialEq, Eq)]
pub struct ComplexInt {
    pub re: i64,
    pub im: i64,
}

/// A complex number with big-integer parts.
#[derive(Debug, Clone, PartialEq, Eq)]
pub struct ComplexBig {
    pub re: BigNum,
    pub im: BigNum,
}

/// A unit of measure, as a fraction `n / d`.
#[derive(Debug, PartialEq)]
pub struct Unit {
    n: i64,
    d: i64,
}

/// An exact number: a real or a complex integer, held in an `i64` (or a pair
/// of them) or in big integers. Numbers that hold floating-point values are
/// not kept in this library.
#[derive(Debug, Clone, PartialEq)]
pub enum Number {
    RI(i64),
    RB(BigNum),
    CI(ComplexInt),
    CB(ComplexBig),
}

/// A value of the interpreter.
#[derive(Debug, PartialEq)]
pub enum Value {
    S(String),
    N(Number),
    U(Number, Unit),
    B(bool),
    L(Vec<Value>),
}

/// What a `Number` stands for: whether it is complex, whether it is held in
/// big integers, and its exact real and imaginary parts.
pub struct NumView {
    pub complex: bool,
    pub big: bool,
    pub re: int,
    pub im: int,
}

impl View for Number {
    type V = NumView;

    open spec fn view(&self) -> NumView {
        match self {
            Number::RI(n) => NumView { complex: false, big: false, re: *n as int, im: 0 },
            Number::RB(b) => NumView { complex: false, big: true, re: b@, im: 0 },
            Number::CI(c) => NumView { complex: true, big: false, re: c.re as int, im: c.im as int },
            Number::CB(c) => NumView { complex: true, big: true, re: c.re@, im: c.im@ },
        }
    }
}

impl Number {
    /// Every big-integer part is in its shortest form, so that equal values
    /// of one kind have equal bytes.
    pub open spec fn well_formed(&self) -> bool {
        match self {
            Number::RB(b) => b.is_minimal(),
            Number::CB(c) => c.re.is_minimal() && c.im.is_minimal(),
            _ => true,
        }
    }
}

/// `x` is in the range of `i64`.
pub open spec fn fits_i64(x: int) -> bool {
    i64::MIN <= x <= i64::MAX
}

/// The sum of two numbers: it is complex when either operand is; it is held
/// in big integers when either operand is, or when two `i64` reals add up to
/// a value outside `i64`; its parts are the exact sums of the operands' parts.
pub open spec fn sum(a: NumView, b: NumView) -> NumView {
    let complex = a.complex || b.complex;
    let re = a.re + b.re;
    NumView {
        complex,
        big: a.big || b.big || (!complex && !fits_i64(re)),
        re,
        im: a.im + b.im,
    }
}

/// The sum of two numbers can be formed: a complex sum with `i64` parts must
/// have both parts in the range of `i64` (such a sum is not widened).
pub open spec fn sum_defined(a: NumView, b: NumView) -> bool {
    (a.complex || b.complex) && !a.big && !b.big ==> fits_i64(a.re + b.re) && fits_i64(a.im + b.im)
}

/// The number that a value holds, if it is a plain number.
pub open spec fn number_of(v: Value) -> Number
    recommends
        v is N,
{
    match v {
        Value::N(n) => n,
        _ => Number::RI(0),
    }
}

/// Adds two values. Both must be plain numbers; the result is their exact
/// sum, widened to big integers where two `i64` reals overflow, and complex
/// where either operand is complex.
pub fn add(e1: &Value, e2: &Value) -> (r: Value)
    requires
        e1 is N,
        e2 is N,
        sum_defined(number_of(*e1)@, number_of(*e2)@),
    ensures
        r is N,
        number_of(r)@ == sum(number_of(*e1)@, number_of(*e2)@),
        number_of(r).well_formed(),
{
    match (e1, e2) {
        (Value::N(n1), Value::N(n2)) => Value::N(add_numbers(n1, n2)),
        _ => {
            proof {
                assert(false);
            }
            Value::N(Number::RI(0))
        },
    }
}

/// The sum of two numbers, by the pair of their kinds.
fn add_numbers(n1: &Number, n2: &Number) -> (r: Number)
    requires
        sum_defined(n1@, n2@),
    ensures
        r@ == sum(n1@, n2@),
        r.well_formed(),
{
    match (n1, n2) {
        (Number::RB(n1), Number::RB(n2)) => Number::RB(bigint_add(n1, n2)),
        (Number::RI(n1), Number::RI(n2)) => {
            let n3 = n1.checked_add(*n2);
            match n3 {
                Some(n3) => Number::RI(n3),
                None => Number::RB(bigint_add_i64(&bigint_from_i64(*n1), *n2)),
            }
        },
        (Number::CI(c1), Number::CI(c2)) => Number::CI(ci_add(c1, c2)),
        (Number::CB(c1), Number::CB(c2)) => Number::CB(cb_add(c1, c2)),
        (Number::CI(c1), Number::RI(n2)) | (Number::RI(n2), Number::CI(c1)) => {
            Number::CI(ci_add(c1, &ComplexInt { re: *n2, im: 0 }))
        },
        (Number::RB(n1), Number::RI(n2)) | (Number::RI(n2), Number::RB(n1)) => {
            Number::RB(bigint_add_i64(n1, *n2))
        },
        (Number::RB(n1), Number::CI(c2)) | (Number::CI(c2), Number::RB(n1)) => {
            Number::CB(
                ComplexBig {
                    re: bigint_add(n1, &bigint_from_i64(c2.re)),
                    im: bigint_add(&bigint_zero(), &bigint_from_i64(c2.im)),
                },
            )
        },
        (Number::RI(n1), Number::CB(c2)) | (Number::CB(c2), Number::RI(n1)) => {
            Number::CB(
                ComplexBig {
                    re: bigint_add(&c2.re, &bigint_from_i64(*n1)),
                    im: bigint_add(&c2.im, &bigint_zero()),
                },
            )
        },
        (Number::RB(n1), Number::CB(c2)) | (Number::CB(c2), Number::RB(n1)) => {
            Number::CB(
                ComplexBig { re: bigint_add(&c2.re, n1), im: bigint_add(&c2.im, &bigint_zero()) },
            )
        },
        (Number::CI(c1), Number::CB(c2)) | (Number::CB(c2), Number::CI(c1)) => {
            Number::CB(cb_add(c2, &ci_to_cb(c1)))
        },
    }
}

/// The complex number with big-integer parts equal to those of `c`.
fn ci_to_cb(c: &ComplexInt) -> (r: ComplexBig)
    ensures
        r.re@ == c.re,
        r.im@ == c.im,
        r.re.is_minimal(),
        r.im.is_minimal(),
{
    ComplexBig { re: bigint_from_i64(c.re), im: bigint_from_i64(c.im) }
}

/// Part-wise sum of two complex numbers with `i64` parts.
fn ci_add(c1: &ComplexInt, c2: &ComplexInt) -> (r: ComplexInt)
    requires
        fits_i64(c1.re + c2.re),
        fits_i64(c1.im + c2.im),
    ensures
        r.re == c1.re + c2.re,
        r.im == c1.im + c2.im,
{
    ComplexInt { re: c1.re + c2.re, im: c1.im + c2.im }
}

/// Part-wise sum of two complex numbers with big-integer parts.
fn cb_add(c1: &ComplexBig, c2: &ComplexBig) -> (r: ComplexBig)
    ensures
        r.re@ == c1.re@ + c2.re@,
        r.im@ == c1.im@ + c2.im@,
        r.re.is_minimal(),
        r.im.is_minimal(),
{
    ComplexBig { re: bigint_add(&c1.re, &c2.re), im: bigint_add(&c1.im, &c2.im) }
}


/// Addition commutes: swapping the operands gives a sum of the same kind and
/// value, and one order can be formed exactly when the other can.
pub proof fn lemma_add_commutative(a: Number, b: Number)
    ensures
        sum_defined(a@, b@) == sum_defined(b@, a@),
        sum(a@, b@) == sum(b@, a@),
{
}

/// Adding the `i64` zero can always be done and leaves a number as it was,
/// kind included.
pub proof fn lemma_add_zero(a: Number)
    ensures
        sum_defined(a@, Number::RI(0)@),
        sum(a@, Number::RI(0)@) == a@,
{
}

/// A sum of two reals is real.
pub proof fn lemma_real_sum_is_real(a: Number, b: Number)
    requires
        !a@.complex,
        !b@.complex,
    ensures
        !sum(a@, b@).complex,
        sum(a@, b@).im == 0,
{
}

/// Two `i64` reals add to an `i64` real when their exact sum fits in `i64`,
/// and to a big integer holding the exact sum when it does not: no value is
/// lost to overflow.
pub proof fn lemma_int_sum_widens(x: i64, y: i64)
    ensures
        sum_defined(Number::RI(x)@, Number::RI(y)@),
        sum(Number::RI(x)@, Number::RI(y)@).re == x + y,
        !sum(Number::RI(x)@, Number::RI(y)@).complex,
        sum(Number::RI(x)@, Number::RI(y)@).big <==> !fits_i64(x + y),
{
}

/// The exact parts of a sum, and whether it is complex, do not depend on how
/// three operands are grouped. (Whether the sum is held in big integers can:
/// `(i64::MAX + 1) + (-1)` is big, `i64::MAX + (1 + (-1))` is not.)
pub proof fn lemma_add_associative_parts(a: Number, b: Number, c: Number)
    ensures
        sum(sum(a@, b@), c@).re == sum(a@, sum(b@, c@)).re,
        sum(sum(a@, b@), c@).im == sum(a@, sum(b@, c@)).im,
        sum(sum(a@, b@), c@).complex == sum(a@, sum(b@, c@)).complex,
{
}

/// `x` and `y` are of the same kind and hold the same parts, big-integer
/// parts down to their bytes.
pub open spec fn same_number(x: Number, y: Number) -> bool {
    match (x, y) {
        (Number::RI(a), Number::RI(b)) => a == b,
        (Number::RB(a), Number::RB(b)) => a.bytes@ == b.bytes@,
        (Number::CI(a), Number::CI(b)) => a == b,
        (Number::CB(a), Number::CB(b)) => a.re.bytes@ == b.re.bytes@ && a.im.bytes@ == b.im.bytes@,
        _ => false,
    }
}

/// A well-formed number is fixed by what it stands for: two well-formed
/// numbers with the same view are the same number. With the contract of
/// `add`, this makes a sum exact down to its bytes.
pub proof fn lemma_view_determines_number(x: Number, y: Number)
    requires
        x.well_formed(),
        y.well_formed(),
        x@ == y@,
    ensures
        same_number(x, y),
{
    match (x, y) {
        (Number::RB(a), Number::RB(b)) => {
            lemma_minimal_le_unique(a.bytes@, b.bytes@);
        },
        (Number::CB(a), Number::CB(b)) => {
            lemma_minimal_le_unique(a.re.bytes@, b.re.bytes@);
            lemma_minimal_le_unique(a.im.bytes@, b.im.bytes@);
        },
        _ => {},
    }
}

/// Addition commutes exactly: well-formed results of `a + b` and of `b + a`
/// are the same number.
pub proof fn lemma_add_commutative_exact(a: Number, b: Number, r1: Number, r2: Number)
    requires
        r1.well_formed(),
        r2.well_formed(),
        r1@ == sum(a@, b@),
        r2@ == sum(b@, a@),
    ensures
        same_number(r1, r2),
{
    lemma_add_commutative(a, b);
    lemma_view_determines_number(r1, r2);
}

/// Adding the `i64` zero gives back the same number, down to its bytes.
pub proof fn lemma_add_zero_exact(a: Number, r: Number)
    requires
        a.well_formed(),
        r.well_formed(),
        r@ == sum(a@, Number::RI(0)@),
    ensures
        same_number(r, a),
{
    lemma_add_zero(a);
    lemma_view_determines_number(r, a);
}

} // verus!
