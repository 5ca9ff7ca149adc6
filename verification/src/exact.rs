//! Exact scalar boundary.
//!
//! Every circuit scalar is a `hyperreal::Real`. Its arithmetic and its
//! structural queries are computed by `hyperreal`; this module declares the
//! type to Verus and gives each operation used by the library one trusted
//! wrapper. Arithmetic results are named by uninterpreted specification
//! functions of the arguments. Sign, zero and order queries are named only
//! for exact rationals: for other values hyperreal consults approximations
//! that other calls refine (and that an abort flag can cut short), so their
//! answers are not functions of the values and nothing is stated of them.

use vstd::prelude::*;

verus! {

/// `hyperreal::Real`, carried through verified code as an opaque value.
#[verifier::external_type_specification]
#[verifier::external_body]
pub struct ExReal(hyperreal::Real);

/// `hyperreal::Problem`, the error of a partial real operation.
#[verifier::external_type_specification]
#[verifier::external_body]
pub struct ExProblem(hyperreal::Problem);

/// What cheap structural inspection proves about zero-ness.
#[derive(Clone, Copy, Debug, PartialEq, Eq, Structural)]
pub enum ZeroFact {
    /// Structurally exactly zero.
    Zero,
    /// Structurally nonzero.
    NonZero,
    /// Not decided by structural inspection.
    Unknown,
}

/// Sign of a real value.
#[derive(Clone, Copy, Debug, PartialEq, Eq, Structural)]
pub enum SignFact {
    /// Strictly negative.
    Negative,
    /// Exactly zero.
    Zero,
    /// Strictly positive.
    Positive,
}

/// Outcome of an exact comparison that may be undecided.
#[derive(Clone, Copy, Debug, PartialEq, Eq, Structural)]
pub enum CmpOutcome {
    /// Left is smaller.
    Less,
    /// Both are equal.
    Equal,
    /// Left is larger.
    Greater,
}

/// Exact sum as computed by `hyperreal`.
pub uninterp spec fn real_sum(a: hyperreal::Real, b: hyperreal::Real) -> hyperreal::Real;

/// Exact difference as computed by `hyperreal`.
pub uninterp spec fn real_difference(a: hyperreal::Real, b: hyperreal::Real) -> hyperreal::Real;

/// Exact product as computed by `hyperreal`.
pub uninterp spec fn real_product(a: hyperreal::Real, b: hyperreal::Real) -> hyperreal::Real;

/// The integer `value` as a `hyperreal::Real`.
pub uninterp spec fn real_of_int(value: int) -> hyperreal::Real;

/// `hyperreal`'s structural zero status of an exact rational value. For
/// other values `Real::zero_status` may read approximation caches that change
/// between calls, so no result is named for them.
pub uninterp spec fn real_zero_status(x: hyperreal::Real) -> ZeroFact;

/// Whether a value is one of hyperreal's exact rationals (`Real::is_rational`:
/// its symbolic class is the rational one). The class is part of the value's
/// structure, not of its approximation caches.
pub uninterp spec fn real_rational_class(x: hyperreal::Real) -> bool;

/// `hyperreal`'s structural sign of an exact rational value (for other
/// values no result is named).
pub uninterp spec fn real_structural_sign(x: hyperreal::Real) -> Option<SignFact>;

/// `hyperreal`'s exact comparison of two exact rational values (for other
/// values no result is named).
pub uninterp spec fn real_order(a: hyperreal::Real, b: hyperreal::Real) -> Option<CmpOutcome>;

/// `<Real as Clone>::clone`: the copy may rebuild internal approximation
/// caches but carries the same exact value.
pub assume_specification[ <hyperreal::Real as Clone>::clone ](x: &hyperreal::Real) -> (r: hyperreal::Real)
    ensures
        r == *x,
;

/// Structural sign (`Real::structural_facts().sign` in hyperreal). Of an
/// exact rational it is the rational's own sign, always known. Of any other
/// value hyperreal may read approximation caches that other calls refine, so
/// two calls may answer differently: nothing is stated of such a result.
#[verifier::external_body]
pub(crate) fn real_sign_fact(x: &hyperreal::Real) -> (r: Option<SignFact>)
    ensures
        real_rational_class(*x) ==> r == real_structural_sign(*x) && r is Some,
{
    match x.structural_facts().sign {
        Some(hyperreal::RealSign::Negative) => Some(SignFact::Negative),
        Some(hyperreal::RealSign::Zero) => Some(SignFact::Zero),
        Some(hyperreal::RealSign::Positive) => Some(SignFact::Positive),
        None => None,
    }
}

/// Exact comparison with hyperreal's bounded refinement
/// (`<Real as PartialOrd>::partial_cmp`). Structurally equal values compare
/// equal, and two exact rationals are compared as rationals, always with a
/// decision. Any other pair is compared by refining approximations, which
/// caches and an abort flag outside the values influence: nothing is stated
/// of such a result.
#[verifier::external_body]
pub(crate) fn real_compare(a: &hyperreal::Real, b: &hyperreal::Real) -> (r: Option<CmpOutcome>)
    ensures
        real_identical(*a, *b) ==> r == Some(CmpOutcome::Equal),
        real_rational_class(*a) && real_rational_class(*b) ==> r == real_order(*a, *b) && r is Some,
{
    match a.partial_cmp(b) {
        Some(std::cmp::Ordering::Less) => Some(CmpOutcome::Less),
        Some(std::cmp::Ordering::Equal) => Some(CmpOutcome::Equal),
        Some(std::cmp::Ordering::Greater) => Some(CmpOutcome::Greater),
        None => None,
    }
}

/// Adds two reals (`&Real + &Real` in hyperreal).
#[verifier::external_body]
pub(crate) fn real_add(a: &hyperreal::Real, b: &hyperreal::Real) -> (r: hyperreal::Real)
    ensures
        r == real_sum(*a, *b),
        real_rational_class(*a) && real_rational_class(*b) ==> real_rational_class(r),
{
    a + b
}

/// Subtracts two reals (`&Real - &Real` in hyperreal).
#[verifier::external_body]
pub(crate) fn real_sub(a: &hyperreal::Real, b: &hyperreal::Real) -> (r: hyperreal::Real)
    ensures
        r == real_difference(*a, *b),
        real_rational_class(*a) && real_rational_class(*b) ==> real_rational_class(r),
{
    a - b
}

/// Multiplies two reals (`&Real * &Real` in hyperreal).
#[verifier::external_body]
pub(crate) fn real_mul(a: &hyperreal::Real, b: &hyperreal::Real) -> (r: hyperreal::Real)
    ensures
        r == real_product(*a, *b),
        real_rational_class(*a) && real_rational_class(*b) ==> real_rational_class(r),
{
    a * b
}

/// Exact quotient as computed by `hyperreal`, or `None` when hyperreal
/// reports a problem (such as division by zero).
pub uninterp spec fn real_quotient(a: hyperreal::Real, b: hyperreal::Real) -> Option<hyperreal::Real>;

/// Divides two reals (`&Real / &Real` in hyperreal), keeping hyperreal's error.
/// Of two exact rationals the quotient is an exact rational, and it fails
/// exactly when the divisor is zero.
#[verifier::external_body]
pub(crate) fn real_div(a: &hyperreal::Real, b: &hyperreal::Real) -> (r: Result<hyperreal::Real, hyperreal::Problem>)
    ensures
        r is Ok <==> real_quotient(*a, *b) is Some,
        r matches Ok(q) ==> real_quotient(*a, *b) == Some(q),
        real_rational_class(*a) && real_rational_class(*b) ==> (r is Ok <==> real_zero_status(*b) == ZeroFact::NonZero),
        r matches Ok(q) ==> (real_rational_class(*a) && real_rational_class(*b) ==> real_rational_class(q)),
{
    a / b
}

/// Builds a real from an integer (`Real::from(i64)` in hyperreal): an exact
/// rational whose zero status and sign are those of the integer.
#[verifier::external_body]
pub(crate) fn real_from_i64(value: i64) -> (r: hyperreal::Real)
    ensures
        r == real_of_int(value as int),
        real_rational_class(r),
        (value == 0) == (real_zero_status(r) == ZeroFact::Zero),
        real_structural_sign(r) == Some(
            if value < 0 {
                SignFact::Negative
            } else if value == 0 {
                SignFact::Zero
            } else {
                SignFact::Positive
            },
        ),
{
    hyperreal::Real::from(value)
}

/// Structural zero status (`Real::zero_status` in hyperreal). Of an exact
/// rational it is decided from the rational itself (zero or nonzero, never
/// unknown). Of any other value hyperreal may consult approximations that
/// other calls refine, so two calls may answer differently: nothing is
/// stated of such a result.
#[verifier::external_body]
pub(crate) fn real_zero_knowledge(x: &hyperreal::Real) -> (r: ZeroFact)
    ensures
        real_rational_class(*x) ==> r == real_zero_status(*x) && r != ZeroFact::Unknown,
{
    match x.zero_status() {
        hyperreal::ZeroKnowledge::Zero => ZeroFact::Zero,
        hyperreal::ZeroKnowledge::NonZero => ZeroFact::NonZero,
        hyperreal::ZeroKnowledge::Unknown => ZeroFact::Unknown,
    }
}

/// Whether hyperreal's structural equality (`<Real as PartialEq>::eq`, the
/// same exact rational part and the same symbolic class) holds of two values.
pub uninterp spec fn real_identical(a: hyperreal::Real, b: hyperreal::Real) -> bool;

/// Structural equality of two reals (`<Real as PartialEq>::eq` in hyperreal).
#[verifier::external_body]
pub(crate) fn real_equal(a: &hyperreal::Real, b: &hyperreal::Real) -> (r: bool)
    ensures
        r == real_identical(*a, *b),
{
    a == b
}


/// Exact negation as computed by `hyperreal`.
pub uninterp spec fn real_negation(x: hyperreal::Real) -> hyperreal::Real;

/// Negates a real (`-&Real` in hyperreal).
#[verifier::external_body]
pub(crate) fn real_neg(x: &hyperreal::Real) -> (r: hyperreal::Real)
    ensures
        r == real_negation(*x),
{
    -x
}

/// Degrees converted to radians (`degrees * pi / 180`) as computed by `hyperreal`.
pub uninterp spec fn real_radians(degrees: hyperreal::Real) -> hyperreal::Real;

/// Converts degrees to radians (`Real::to_radians` in hyperreal; its division
/// by the nonzero constant 180 cannot fail).
#[verifier::external_body]
pub(crate) fn real_to_radians(degrees: &hyperreal::Real) -> (r: hyperreal::Real)
    ensures
        r == real_radians(*degrees),
{
    degrees.to_radians()
}

/// Exact sine as computed by `hyperreal`.
pub uninterp spec fn real_sine(x: hyperreal::Real) -> hyperreal::Real;

/// Sine of a real (`Real::sin` in hyperreal, applied to a copy).
#[verifier::external_body]
pub(crate) fn real_sin(x: &hyperreal::Real) -> (r: hyperreal::Real)
    ensures
        r == real_sine(*x),
{
    x.clone().sin()
}

/// Exact cosine as computed by `hyperreal`.
pub uninterp spec fn real_cosine(x: hyperreal::Real) -> hyperreal::Real;

/// Cosine of a real (`Real::cos` in hyperreal, applied to a copy).
#[verifier::external_body]
pub(crate) fn real_cos(x: &hyperreal::Real) -> (r: hyperreal::Real)
    ensures
        r == real_cosine(*x),
{
    x.clone().cos()
}
} // verus!
