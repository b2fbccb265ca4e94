//! The numeric interface that every computation of the library runs on.
//!
//! A backend is an arbitrary-precision binary floating-point type. Each
//! operation takes the working precision of its result, in bits, and is
//! described by a spec function of the backend: the contracts of the library
//! state its results as compositions of those functions.
use vstd::prelude::*;

/// The mathematical integers and naturals of the verification-only members of
/// [`Numeric`]; a backend names them in those members' signatures.
pub use vstd::prelude::int as Int;
pub use vstd::prelude::nat as Nat;

verus! {

/// Largest working precision, in bits: MPFR's `MPFR_PREC_MAX` with a 64-bit
/// `long`.
pub const PREC_MAX: u64 = 9223372036854775551;

pub open spec fn valid_precision(p: int) -> bool {
    1 <= p <= PREC_MAX
}

/// `x` is neither a zero nor NaN: it lies strictly on one side of zero.
pub open spec fn nonzero_number<T: Numeric>(x: T, p: nat) -> bool {
    !T::zero_valued(x) && (T::below(x, T::integer(0, p)) || T::below(T::integer(0, p), x))
}

/// An arbitrary-precision real number type with correctly rounded operations.
pub trait Numeric: Sized {
    /// The precision, in bits, that `x` is held at.
    spec fn precision_of(x: Self) -> nat;

    /// `x` rounded to `p` bits.
    spec fn rounded(x: Self, p: nat) -> Self;

    /// The integer `n` rounded to `p` bits.
    spec fn integer(n: int, p: nat) -> Self;

    /// `x + y` rounded to `p` bits.
    spec fn sum(x: Self, y: Self, p: nat) -> Self;

    /// `x - y` rounded to `p` bits.
    spec fn difference(x: Self, y: Self, p: nat) -> Self;

    /// `x * y` rounded to `p` bits.
    spec fn product(x: Self, y: Self, p: nat) -> Self;

    /// `x / y` rounded to `p` bits.
    spec fn quotient(x: Self, y: Self, p: nat) -> Self;

    /// `-x`, exactly, at the precision of `x`.
    spec fn negation(x: Self) -> Self;

    /// `e^x` rounded to `p` bits.
    spec fn exponential(x: Self, p: nat) -> Self;

    /// The square root of `x` rounded to `p` bits.
    spec fn square_root(x: Self, p: nat) -> Self;

    /// The error function of `x` rounded to `p` bits.
    spec fn error_function(x: Self, p: nat) -> Self;

    /// `x * x` rounded to `p` bits.
    spec fn squared(x: Self, p: nat) -> Self;

    /// `1 / x` rounded to `p` bits.
    spec fn reciprocal(x: Self, p: nat) -> Self;

    /// The generalized Marcum Q-function `Q_m(a, b)` at `p` bits.
    spec fn marcum(m: nat, a: Self, b: Self, p: nat) -> Self;

    /// `x` is a zero of either sign.
    spec fn zero_valued(x: Self) -> bool;

    /// `x < y` exactly; false where either is NaN.
    spec fn below(x: Self, y: Self) -> bool;

    /// A value is never both below and above another.
    proof fn below_asymmetric(x: Self, y: Self)
        ensures
            Self::below(x, y) ==> !Self::below(y, x),
    ;

    /// A product is held at the precision it was rounded to.
    proof fn product_precision(x: Self, y: Self, p: nat)
        ensures
            Self::precision_of(Self::product(x, y, p)) == p,
    ;

    /// The integer zero is a zero.
    proof fn integer_zero(p: nat)
        ensures
            Self::zero_valued(Self::integer(0, p)),
    ;

    /// Adding to zero, at `p` bits, a value held at `p` bits that is neither
    /// a zero nor NaN is exact; adding a zero to zero gives a zero.
    proof fn zero_sum_exact(x: Self, p: nat)
        ensures
            Self::precision_of(x) == p && !Self::zero_valued(x) && (Self::below(x, Self::integer(0, p))
                || Self::below(Self::integer(0, p), x)) ==> Self::sum(
                Self::integer(0, p),
                x,
                p,
            ) == x,
            Self::zero_valued(x) ==> Self::zero_valued(Self::sum(Self::integer(0, p), x, p)),
    ;

    /// A rounded value is held at the precision it was rounded to.
    proof fn rounded_precision(x: Self, p: nat)
        ensures
            Self::precision_of(Self::rounded(x, p)) == p,
    ;

    fn prec(&self) -> (r: u64)
        ensures
            r as nat == Self::precision_of(*self),
    ;

    fn round(&self, prec: u64) -> (r: Self)
        requires
            valid_precision(prec as int),
        ensures
            r == Self::rounded(*self, prec as nat),
    ;

    fn from_i32(n: i32, prec: u64) -> (r: Self)
        requires
            valid_precision(prec as int),
        ensures
            r == Self::integer(n as int, prec as nat),
    ;

    fn add(&self, other: &Self, prec: u64) -> (r: Self)
        requires
            valid_precision(prec as int),
        ensures
            r == Self::sum(*self, *other, prec as nat),
    ;

    fn sub(&self, other: &Self, prec: u64) -> (r: Self)
        requires
            valid_precision(prec as int),
        ensures
            r == Self::difference(*self, *other, prec as nat),
    ;

    fn mul(&self, other: &Self, prec: u64) -> (r: Self)
        requires
            valid_precision(prec as int),
        ensures
            r == Self::product(*self, *other, prec as nat),
    ;

    fn div(&self, other: &Self, prec: u64) -> (r: Self)
        requires
            valid_precision(prec as int),
        ensures
            r == Self::quotient(*self, *other, prec as nat),
    ;

    fn neg(&self) -> (r: Self)
        ensures
            r == Self::negation(*self),
    ;

    fn exp(&self, prec: u64) -> (r: Self)
        requires
            valid_precision(prec as int),
        ensures
            r == Self::exponential(*self, prec as nat),
    ;

    fn sqrt(&self, prec: u64) -> (r: Self)
        requires
            valid_precision(prec as int),
        ensures
            r == Self::square_root(*self, prec as nat),
    ;

    fn erf(&self, prec: u64) -> (r: Self)
        requires
            valid_precision(prec as int),
        ensures
            r == Self::error_function(*self, prec as nat),
    ;

    fn square(&self, prec: u64) -> (r: Self)
        requires
            valid_precision(prec as int),
        ensures
            r == Self::squared(*self, prec as nat),
    ;

    fn recip(&self, prec: u64) -> (r: Self)
        requires
            valid_precision(prec as int),
        ensures
            r == Self::reciprocal(*self, prec as nat),
    ;

    fn marcum_q(order: u64, a: &Self, b: &Self, prec: u64) -> (r: Self)
        requires
            valid_precision(prec as int),
        ensures
            r == Self::marcum(order as nat, *a, *b, prec as nat),
    ;

    fn is_zero(&self) -> (r: bool)
        ensures
            r == Self::zero_valued(*self),
    ;

    fn lt(&self, other: &Self) -> (r: bool)
        ensures
            r == Self::below(*self, *other),
    ;
}

} // verus!
