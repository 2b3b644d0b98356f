//! Two-dimensional vector algebra over a floating-point scalar.
//!
//! The scalar type is any `T: Float`. Contracts speak of scalars through the
//! specification functions that `vstd` attaches to the operator traits
//! (`add_spec`, `mul_spec`, `eq_spec`, ...), and hold for scalar
//! types whose operators obey those specifications: see [`lawful`].
//! `vstd` grants those laws to no float type, so `f32` and `f64` are not
//! known to be lawful: of them a verified caller has the clauses that say
//! what a call leaves unchanged, and the clauses that say from which
//! operation on which operands a scalar came. The basic operations of
//! [`Vector2d`] have such clauses for every scalar type.
//! Square roots, trigonometry and the scalar constants have no such
//! specification functions; where a result depends on one of them, the
//! contract says that it was computed from a scalar that the scalar type
//! gave for it: see [`is_root`], [`is_zero`] and their like.
use core::ops::{Add, Div, Mul, Neg, Sub};
use num_traits::{Float, FloatConst};
use vstd::prelude::*;
use vstd::std_specs::cmp::{PartialEqSpec, PartialEqSpecImpl, PartialOrdIs, PartialOrdSpec};
use vstd::std_specs::ops::{
    AddSpec, AddSpecImpl, DivSpec, DivSpecImpl, MulSpec, MulSpecImpl, NegSpec, NegSpecImpl,
    SubSpec, SubSpecImpl,
};

verus! {

/// The scalar type's operators are defined on all scalars, and they and
/// the comparisons compute what their specification functions say.
pub open spec fn lawful<T: Float>() -> bool {
    &&& T::obeys_add_spec()
    &&& T::obeys_sub_spec()
    &&& T::obeys_mul_spec()
    &&& T::obeys_div_spec()
    &&& T::obeys_neg_spec()
    &&& T::obeys_eq_spec()
    &&& T::obeys_partial_cmp_spec()
    &&& forall|a: T, b: T| #[trigger] a.add_req(b)
    &&& forall|a: T, b: T| #[trigger] a.sub_req(b)
    &&& forall|a: T, b: T| #[trigger] a.mul_req(b)
    &&& forall|a: T, b: T| #[trigger] a.div_req(b)
    &&& forall|a: T| #[trigger] a.neg_req()
}

/// `a > b` by the scalar type's comparison.
pub open spec fn exceeds<T: Float>(a: T, b: T) -> bool {
    a.is_gt(&b)
}

/// `a < b` by the scalar type's comparison.
pub open spec fn precedes<T: Float>(a: T, b: T) -> bool {
    a.is_lt(&b)
}

/// The scalar type's `>` and `<` are strict orders: no scalar exceeds or
/// precedes itself, and both relations are transitive. (Floats are ordered
/// so: a comparison with not-a-number is false.)
pub open spec fn strictly_ordered<T: Float>() -> bool {
    &&& forall|a: T| !#[trigger] exceeds(a, a)
    &&& forall|a: T, b: T, c: T|
        #[trigger] exceeds(a, b) && #[trigger] exceeds(b, c) ==> exceeds(a, c)
    &&& forall|a: T| !#[trigger] precedes(a, a)
    &&& forall|a: T, b: T, c: T|
        #[trigger] precedes(a, b) && #[trigger] precedes(b, c) ==> precedes(a, c)
}

/// `a == b` by the scalar type's comparison.
pub open spec fn alike<T: Float>(a: T, b: T) -> bool {
    a.eq_spec(&b)
}

/// No scalar exceeds one of two scalars that compare equal, and not the
/// other. (Floats agree so: `==` compares the numbers.)
pub open spec fn equals_agree<T: Float>() -> bool {
    forall|a: T, b: T, c: T| #[trigger] alike(a, b) && #[trigger] exceeds(c, a) ==> exceeds(c, b)
}

/// The scalar type's sum does not depend on the order of its operands, and
/// its negation goes through difference, square and quotient:
/// `b - a = -(a - b)`, `(-a) * (-a) = a * a` and `(-a) / b = -(a / b)`.
/// (Exact scalars are so. Floats are not, to the bit: where `a == b`, `b - a`
/// is zero and `-(a - b)` is negative zero, and a not-a-number may differ
/// in its sign. What is proved under this law holds of floats only up to
/// the sign of a zero.)
pub open spec fn signs_commute<T: Float>() -> bool {
    &&& forall|a: T, b: T| #[trigger] a.add_spec(b) == b.add_spec(a)
    &&& forall|a: T, b: T| #[trigger] b.sub_spec(a) == a.sub_spec(b).neg_spec()
    &&& forall|a: T| #[trigger] a.neg_spec().mul_spec(a.neg_spec()) == a.mul_spec(a)
    &&& forall|a: T, b: T| #[trigger] a.neg_spec().div_spec(b) == a.div_spec(b).neg_spec()
}

/// `a + b` of the scalar type (`core::ops::Add::add`). For a float the call
/// cannot fail. The result is the operator's specified sum wherever the type
/// obeys that specification and the specification admits the operands.
#[verifier::external_body]
pub(crate) fn sum<T: Float>(a: T, b: T) -> (r: T)
    ensures
        T::obeys_add_spec() && a.add_req(b) ==> r == a.add_spec(b),
{
    a + b
}

/// `a - b` of the scalar type (`core::ops::Sub::sub`); the operator's
/// specified difference wherever the type obeys that specification and the
/// specification admits the operands.
#[verifier::external_body]
pub(crate) fn difference<T: Float>(a: T, b: T) -> (r: T)
    ensures
        T::obeys_sub_spec() && a.sub_req(b) ==> r == a.sub_spec(b),
{
    a - b
}

/// `a * b` of the scalar type (`core::ops::Mul::mul`); the operator's
/// specified product wherever the type obeys that specification and the
/// specification admits the operands.
#[verifier::external_body]
pub(crate) fn product<T: Float>(a: T, b: T) -> (r: T)
    ensures
        T::obeys_mul_spec() && a.mul_req(b) ==> r == a.mul_spec(b),
{
    a * b
}

/// `a / b` of the scalar type (`core::ops::Div::div`). A float division does
/// not fail on a zero divisor. The result is the operator's specified
/// quotient wherever the type obeys that specification and the
/// specification admits the operands.
#[verifier::external_body]
pub(crate) fn quotient<T: Float>(a: T, b: T) -> (r: T)
    ensures
        T::obeys_div_spec() && a.div_req(b) ==> r == a.div_spec(b),
{
    a / b
}

/// `-a` of the scalar type (`core::ops::Neg::neg`); the operator's specified
/// negation wherever the type obeys that specification and the
/// specification admits the operand.
#[verifier::external_body]
pub(crate) fn negated<T: Float>(a: T) -> (r: T)
    ensures
        T::obeys_neg_spec() && a.neg_req() ==> r == a.neg_spec(),
{
    -a
}

/// `num_traits::Float::sqrt`. Nothing is claimed of the result.
#[verifier::external_body]
fn scalar_sqrt<T: Float>(a: T) -> (r: T) {
    a.sqrt()
}

/// `num_traits::Float::sin`. Nothing is claimed of the result.
#[verifier::external_body]
fn scalar_sin<T: Float>(a: T) -> (r: T) {
    a.sin()
}

/// `num_traits::Float::cos`. Nothing is claimed of the result.
#[verifier::external_body]
fn scalar_cos<T: Float>(a: T) -> (r: T) {
    a.cos()
}

/// `num_traits::Float::abs`. Nothing is claimed of the result.
#[verifier::external_body]
fn scalar_abs<T: Float>(a: T) -> (r: T) {
    a.abs()
}

/// `num_traits::Float::min`. Nothing is claimed of the result.
#[verifier::external_body]
fn scalar_min<T: Float>(a: T, b: T) -> (r: T) {
    a.min(b)
}

/// `num_traits::Float::max`. Nothing is claimed of the result.
#[verifier::external_body]
fn scalar_max<T: Float>(a: T, b: T) -> (r: T) {
    a.max(b)
}

/// `num_traits::Zero::zero`. Nothing is claimed of the result.
#[verifier::external_body]
fn scalar_zero<T: Float>() -> (r: T) {
    T::zero()
}

/// `num_traits::One::one`. Nothing is claimed of the result.
#[verifier::external_body]
fn scalar_one<T: Float>() -> (r: T) {
    T::one()
}

/// `num_traits::Float::infinity`. Nothing is claimed of the result.
#[verifier::external_body]
fn scalar_infinity<T: Float>() -> (r: T) {
    T::infinity()
}

/// `num_traits::Float::neg_infinity`. Nothing is claimed of the result.
#[verifier::external_body]
fn scalar_neg_infinity<T: Float>() -> (r: T) {
    T::neg_infinity()
}

/// `num_traits::Float::nan`. Nothing is claimed of the result.
#[verifier::external_body]
fn scalar_nan<T: Float>() -> (r: T) {
    T::nan()
}

/// `num_traits::FloatConst::PI`. Nothing is claimed of the result.
#[verifier::external_body]
fn scalar_pi<T: Float + FloatConst>() -> (r: T) {
    T::PI()
}

/// `num_traits::NumCast::from` on an integer: the scalar nearest to `n`, or
/// `None` where the scalar type cannot hold it. Nothing is claimed of the
/// result.
#[verifier::external_body]
fn scalar_from<T: Float>(n: i64) -> (r: Option<T>) {
    T::from(n)
}

/// `r` is what the scalar type gave as `a + b`.
pub closed spec fn is_sum<T: Float>(a: T, b: T, r: T) -> bool {
    call_ensures(sum::<T>, (a, b), r)
}

/// `r` is what the scalar type gave as `a - b`.
pub closed spec fn is_difference<T: Float>(a: T, b: T, r: T) -> bool {
    call_ensures(difference::<T>, (a, b), r)
}

/// `r` is what the scalar type gave as `a * b`.
pub closed spec fn is_product<T: Float>(a: T, b: T, r: T) -> bool {
    call_ensures(product::<T>, (a, b), r)
}

/// `r` is what the scalar type gave as `a / b`.
pub closed spec fn is_quotient<T: Float>(a: T, b: T, r: T) -> bool {
    call_ensures(quotient::<T>, (a, b), r)
}

/// `r` is what the scalar type gave as `-a`.
pub closed spec fn is_negation<T: Float>(a: T, r: T) -> bool {
    call_ensures(negated::<T>, (a,), r)
}

/// `r` is what the scalar type gave as the square root of `a`.
pub closed spec fn is_root<T: Float>(a: T, r: T) -> bool {
    call_ensures(scalar_sqrt::<T>, (a,), r)
}

/// `r` is what the scalar type gave as the sine of `a`.
pub closed spec fn is_sine<T: Float>(a: T, r: T) -> bool {
    call_ensures(scalar_sin::<T>, (a,), r)
}

/// `r` is what the scalar type gave as the cosine of `a`.
pub closed spec fn is_cosine<T: Float>(a: T, r: T) -> bool {
    call_ensures(scalar_cos::<T>, (a,), r)
}

/// `r` is what the scalar type gave as the absolute value of `a`.
pub closed spec fn is_magnitude<T: Float>(a: T, r: T) -> bool {
    call_ensures(scalar_abs::<T>, (a,), r)
}

/// `r` is what the scalar type gave as the lesser of `a` and `b`.
pub closed spec fn is_lesser<T: Float>(a: T, b: T, r: T) -> bool {
    call_ensures(scalar_min::<T>, (a, b), r)
}

/// `r` is what the scalar type gave as the greater of `a` and `b`.
pub closed spec fn is_greater<T: Float>(a: T, b: T, r: T) -> bool {
    call_ensures(scalar_max::<T>, (a, b), r)
}

/// `r` is what the scalar type gave as its zero.
pub closed spec fn is_zero<T: Float>(r: T) -> bool {
    call_ensures(scalar_zero::<T>, (), r)
}

/// `r` is what the scalar type gave as its one.
pub closed spec fn is_one<T: Float>(r: T) -> bool {
    call_ensures(scalar_one::<T>, (), r)
}

/// `r` is what the scalar type gave as its positive infinity.
pub closed spec fn is_infinity<T: Float>(r: T) -> bool {
    call_ensures(scalar_infinity::<T>, (), r)
}

/// `r` is what the scalar type gave as its negative infinity.
pub closed spec fn is_neg_infinity<T: Float>(r: T) -> bool {
    call_ensures(scalar_neg_infinity::<T>, (), r)
}

/// `r` is what the scalar type gave as pi.
pub closed spec fn is_pi<T: Float + FloatConst>(r: T) -> bool {
    call_ensures(scalar_pi::<T>, (), r)
}

/// `r` is what the scalar type gave for the integer `n`: its conversion, or
/// the type's not-a-number where it has none.
pub closed spec fn is_scalar<T: Float>(n: i64, r: T) -> bool {
    exists|o: Option<T>| #[trigger]
        call_ensures(scalar_from::<T>, (n,), o) && match o {
            Some(v) => r == v,
            None => call_ensures(scalar_nan::<T>, (), r),
        }
}

/// `r` is the scalar for `num / den`: the quotient of what the scalar type
/// gave for the two integers.
pub open spec fn is_ratio<T: Float>(num: i64, den: i64, r: T) -> bool {
    exists|n: T, d: T| #[trigger]
        is_scalar(num, n) && #[trigger] is_scalar(den, d) && is_quotient(n, d, r) && (lawful::<T>()
            ==> r == n.div_spec(d))
}

/// `a == b` of the scalar type (`core::cmp::PartialEq::eq`). The result is
/// the comparison's specified one wherever the type obeys that
/// specification. And it is true of two scalars that the type gave as its
/// zero: `num_traits::Zero::zero` gives a float the literal `0.0` whenever it
/// is asked, and a float's `==` finds that equal to itself.
#[verifier::external_body]
pub(crate) fn equal<T: Float>(a: T, b: T) -> (r: bool)
    ensures
        T::obeys_eq_spec() ==> r == a.eq_spec(&b),
        is_zero(a) && is_zero(b) ==> r,
{
    a == b
}

/// The scalar type has one zero, and it compares equal to itself. (Floats
/// are so: `zero` gives positive zero whenever it is asked.)
pub open spec fn one_zero<T: Float>() -> bool {
    forall|a: T, b: T| #[trigger] is_zero(a) && #[trigger] is_zero(b) ==> a == b && alike(a, b)
}

/// `r` is what the scalar type said of `a > b`.
pub open spec fn said_above<T: Float>(a: T, b: T, r: bool) -> bool {
    call_ensures(<T as PartialOrd>::gt, (&a, &b), r)
}

/// `r` is what the scalar type said of `a >= b`.
pub open spec fn said_at_least<T: Float>(a: T, b: T, r: bool) -> bool {
    call_ensures(<T as PartialOrd>::ge, (&a, &b), r)
}

/// Whether `a > b`.
pub fn above<T: Float>(a: T, b: T) -> (r: bool)
    ensures
        said_above(a, b, r),
        lawful::<T>() ==> r == exceeds(a, b),
{
    a > b
}

/// Whether `a >= b`.
pub fn at_least<T: Float>(a: T, b: T) -> (r: bool)
    ensures
        said_at_least(a, b, r),
        lawful::<T>() ==> r == a.is_ge(&b),
{
    a >= b
}

/// `a + b`.
pub fn added<T: Float>(a: T, b: T) -> (r: T)
    ensures
        is_sum(a, b, r),
        lawful::<T>() ==> r == a.add_spec(b),
{
    sum(a, b)
}

/// `a * b`.
pub fn multiplied<T: Float>(a: T, b: T) -> (r: T)
    ensures
        is_product(a, b, r),
        lawful::<T>() ==> r == a.mul_spec(b),
{
    product(a, b)
}

/// The square root of `a`.
pub fn square_root<T: Float>(a: T) -> (r: T)
    ensures
        is_root(a, r),
{
    scalar_sqrt(a)
}

/// The sine of `a`.
pub fn sine<T: Float>(a: T) -> (r: T)
    ensures
        is_sine(a, r),
{
    scalar_sin(a)
}

/// The cosine of `a`.
pub fn cosine<T: Float>(a: T) -> (r: T)
    ensures
        is_cosine(a, r),
{
    scalar_cos(a)
}

/// The absolute value of `a`.
pub fn magnitude<T: Float>(a: T) -> (r: T)
    ensures
        is_magnitude(a, r),
{
    scalar_abs(a)
}

/// The lesser of `a` and `b`.
pub fn lesser<T: Float>(a: T, b: T) -> (r: T)
    ensures
        is_lesser(a, b, r),
{
    scalar_min(a, b)
}

/// The greater of `a` and `b`.
pub fn greater<T: Float>(a: T, b: T) -> (r: T)
    ensures
        is_greater(a, b, r),
{
    scalar_max(a, b)
}

/// The scalar type's zero.
pub fn zero<T: Float>() -> (r: T)
    ensures
        is_zero(r),
{
    scalar_zero()
}

/// The scalar type's one.
pub fn one<T: Float>() -> (r: T)
    ensures
        is_one(r),
{
    scalar_one()
}

/// The scalar type's positive infinity.
pub fn infinity<T: Float>() -> (r: T)
    ensures
        is_infinity(r),
{
    scalar_infinity()
}

/// The scalar type's negative infinity.
pub fn neg_infinity<T: Float>() -> (r: T)
    ensures
        is_neg_infinity(r),
{
    scalar_neg_infinity()
}

/// The scalar type's pi.
pub fn pi<T: Float + FloatConst>() -> (r: T)
    ensures
        is_pi(r),
{
    scalar_pi()
}

/// The scalar for the integer `n`; not-a-number where the scalar type has no
/// value for it (a float has one for every `i64`).
pub fn scalar<T: Float>(n: i64) -> (r: T)
    ensures
        is_scalar(n, r),
{
    match scalar_from::<T>(n) {
        Some(v) => v,
        None => scalar_nan(),
    }
}

/// The scalar for `num / den`, by one division of the two converted
/// integers.
pub fn ratio<T: Float>(num: i64, den: i64) -> (r: T)
    ensures
        is_ratio(num, den, r),
{
    let n: T = scalar(num);
    let d: T = scalar(den);
    quotient(n, d)
}

/// The scalar constants that the simulation works with.
#[derive(Clone, Copy)]
pub struct Constants<T> {
    /// Zero.
    pub nothing: T,
    /// One.
    pub unit: T,
    /// Negative infinity.
    pub floor: T,
    /// Positive infinity.
    pub ceiling: T,
    /// 0.01: below it a quantity counts as nothing.
    pub margin: T,
    /// 0.05: the penetration that is left uncorrected.
    pub slop: T,
    /// 0.4: the share of the remaining penetration that one step corrects.
    pub percent: T,
}

impl<T: Float> Constants<T> {
    /// Every constant is what the scalar type gave for it: zero, one and the
    /// two infinities as such, the margin as 1/100, the slop as 5/100 and the
    /// share as 4/10.
    pub open spec fn genuine(self) -> bool {
        &&& is_zero(self.nothing)
        &&& is_one(self.unit)
        &&& is_neg_infinity(self.floor)
        &&& is_infinity(self.ceiling)
        &&& is_ratio(1, 100, self.margin)
        &&& is_ratio(5, 100, self.slop)
        &&& is_ratio(4, 10, self.percent)
    }

    pub fn new() -> (k: Self)
        ensures
            k.genuine(),
    {
        Constants {
            nothing: zero(),
            unit: one(),
            floor: neg_infinity(),
            ceiling: infinity(),
            margin: ratio(1, 100),
            slop: ratio(5, 100),
            percent: ratio(4, 10),
        }
    }
}

/// The cosine and the sine of an angle.
#[derive(Clone, Copy)]
pub struct Rotation<T> {
    pub cos: T,
    pub sin: T,
}

impl<T: Float> Rotation<T> {
    /// The two scalars are what the scalar type gave as the cosine and the
    /// sine of `radians`.
    pub open spec fn is_of(self, radians: T) -> bool {
        is_cosine(radians, self.cos) && is_sine(radians, self.sin)
    }

    /// The rotation by `radians`.
    pub fn of(radians: T) -> (r: Self)
        ensures
            r.is_of(radians),
    {
        Rotation { cos: cosine(radians), sin: sine(radians) }
    }

    /// The rotation by `-radians`.
    pub fn back(radians: T) -> (r: Self)
        ensures
            lawful::<T>() ==> r.is_of(radians.neg_spec()),
    {
        let opposite = negated(radians);
        Rotation { cos: cosine(opposite), sin: sine(opposite) }
    }
}

#[derive(Clone, Copy)]
pub struct Vector2d<T> {
    pub x: T,
    pub y: T,
}

impl<T: Float> Vector2d<T> {
    /// `self . rhs`: `x * rhs.x + y * rhs.y`.
    pub open spec fn dot(self, rhs: Self) -> T {
        self.x.mul_spec(rhs.x).add_spec(self.y.mul_spec(rhs.y))
    }

    /// `self x rhs`: `x * rhs.y - y * rhs.x`.
    pub open spec fn cross(self, rhs: Self) -> T {
        self.x.mul_spec(rhs.y).sub_spec(self.y.mul_spec(rhs.x))
    }

    /// Both components multiplied by `s`.
    pub open spec fn scaled(self, s: T) -> Self {
        Vector2d { x: self.x.mul_spec(s), y: self.y.mul_spec(s) }
    }

    /// Both components divided by `s`.
    pub open spec fn shrunk(self, s: T) -> Self {
        Vector2d { x: self.x.div_spec(s), y: self.y.div_spec(s) }
    }

    /// The componentwise sum.
    pub open spec fn plus(self, rhs: Self) -> Self {
        Vector2d { x: self.x.add_spec(rhs.x), y: self.y.add_spec(rhs.y) }
    }

    /// The componentwise difference.
    pub open spec fn minus(self, rhs: Self) -> Self {
        Vector2d { x: self.x.sub_spec(rhs.x), y: self.y.sub_spec(rhs.y) }
    }

    /// Both components negated.
    pub open spec fn opposite(self) -> Self {
        Vector2d { x: self.x.neg_spec(), y: self.y.neg_spec() }
    }

    /// The squared Euclidean length, `x * x + y * y`.
    pub open spec fn len_square_spec(self) -> T {
        self.dot(self)
    }

    /// The vector turned by an angle of cosine `c` and sine `s`:
    /// `(x * c - y * s, x * s + y * c)`.
    pub open spec fn turned(self, c: T, s: T) -> Self {
        Vector2d {
            x: self.x.mul_spec(c).sub_spec(self.y.mul_spec(s)),
            y: self.x.mul_spec(s).add_spec(self.y.mul_spec(c)),
        }
    }

    /// The vector a quarter turn clockwise of this one: `(y, -x)`.
    pub open spec fn perp(self) -> Self {
        Vector2d { x: self.y, y: self.x.neg_spec() }
    }

    /// `r` is what the scalar type gave as `x * x + y * y`.
    pub open spec fn squares_to(self, r: T) -> bool {
        exists|xx: T, yy: T| #[trigger]
            is_product(self.x, self.x, xx) && #[trigger] is_product(self.y, self.y, yy) && is_sum(
                xx,
                yy,
                r,
            )
    }

    /// `r` is what the scalar type gave as the square root of
    /// `x * x + y * y`.
    pub open spec fn measures(self, r: T) -> bool {
        exists|square: T| #[trigger] self.squares_to(square) && is_root(square, r)
    }

    /// `r` is what the scalar type gave as this vector divided by its
    /// length.
    pub open spec fn points_as(self, r: Self) -> bool {
        exists|length: T| #[trigger]
            self.measures(length) && is_quotient(self.x, length, r.x) && is_quotient(
                self.y,
                length,
                r.y,
            )
    }

    /// `r` is what the scalar type gave as
    /// `(x * c - y * s, x * s + y * c)`.
    pub open spec fn turns_to(self, c: T, s: T, r: Self) -> bool {
        exists|xc: T, ys: T, xs: T, yc: T| #[trigger]
            is_product(self.x, c, xc) && #[trigger] is_product(self.y, s, ys) && is_difference(
                xc,
                ys,
                r.x,
            ) && #[trigger] is_product(self.x, s, xs) && #[trigger] is_product(self.y, c, yc)
                && is_sum(xs, yc, r.y)
    }

    /// `r` is this vector divided by what the scalar type gave as its
    /// length, the square root of its squared length.
    pub open spec fn unit_of(self, r: Self) -> bool {
        exists|length: T| #[trigger]
            is_root(self.len_square_spec(), length) && r == self.shrunk(length)
    }

    /// Both components compare equal by the scalar's `==`.
    pub open spec fn same(self, rhs: Self) -> bool {
        self.x.eq_spec(&rhs.x) && self.y.eq_spec(&rhs.y)
    }

    pub fn new(x: T, y: T) -> (r: Self)
        ensures
            r.x == x,
            r.y == y,
    {
        Self { x, y }
    }

    /// The vector whose two components are the scalar type's zero.
    pub fn zero() -> (r: Self)
        ensures
            is_zero(r.x),
            r.y == r.x,
    {
        let z: T = zero();
        Self { x: z, y: z }
    }

    /// The Euclidean length: the square root of the squared length.
    pub fn len(&self) -> (r: T)
        ensures
            self.measures(r),
            lawful::<T>() ==> is_root(self.len_square_spec(), r),
    {
        let square = self.len_square();
        let r = square_root(square);
        assert(self.squares_to(square) && is_root(square, r));
        r
    }

    /// The squared Euclidean length, `x * x + y * y`.
    pub fn len_square(&self) -> (r: T)
        ensures
            self.squares_to(r),
            lawful::<T>() ==> r == self.len_square_spec(),
    {
        let xx = product(self.x, self.x);
        let yy = product(self.y, self.y);
        let r = sum(xx, yy);
        assert(is_product(self.x, self.x, xx) && is_product(self.y, self.y, yy) && is_sum(
            xx,
            yy,
            r,
        ));
        r
    }

    /// The vector divided by its own length. A zero vector is not guarded
    /// against: the division then yields what the scalar type yields.
    pub fn normalize(&self) -> (r: Vector2d<T>)
        ensures
            self.points_as(r),
            lawful::<T>() ==> self.unit_of(r),
    {
        let length = self.len();
        let r = self.over(length);
        assert(self.measures(length) && is_quotient(self.x, length, r.x) && is_quotient(
            self.y,
            length,
            r.y,
        ));
        assert(lawful::<T>() ==> is_root(self.len_square_spec(), length) && r == self.shrunk(
            length,
        ));
        r
    }

    pub fn set(&mut self, x: T, y: T)
        ensures
            final(self).x == x,
            final(self).y == y,
    {
        self.x = x;
        self.y = y;
    }

    /// The vector turned counter-clockwise by `radians`.
    pub fn rotate(&self, radians: T) -> (r: Vector2d<T>)
        ensures
            exists|turn: Rotation<T>|
                #[trigger] turn.is_of(radians) && self.turns_to(turn.cos, turn.sin, r) && (
                lawful::<T>() ==> r == self.turned(turn.cos, turn.sin)),
    {
        let turn = Rotation::of(radians);
        let r = self.turn(turn.cos, turn.sin);
        assert(turn.is_of(radians) && self.turns_to(turn.cos, turn.sin, r) && (lawful::<T>()
            ==> r == self.turned(turn.cos, turn.sin)));
        r
    }

    /// The vector turned by `by`.
    pub fn rotated(&self, by: &Rotation<T>) -> (r: Vector2d<T>)
        ensures
            lawful::<T>() ==> r == self.turned(by.cos, by.sin),
    {
        self.turn(by.cos, by.sin)
    }

    /// The vector turned by an angle whose cosine is `c` and whose sine is
    /// `s`.
    pub fn turn(&self, c: T, s: T) -> (r: Vector2d<T>)
        ensures
            self.turns_to(c, s, r),
            lawful::<T>() ==> r == self.turned(c, s),
    {
        let xc = product(self.x, c);
        let ys = product(self.y, s);
        let xs = product(self.x, s);
        let yc = product(self.y, c);
        let r = Self { x: difference(xc, ys), y: sum(xs, yc) };
        assert(is_product(self.x, c, xc) && is_product(self.y, s, ys) && is_difference(
            xc,
            ys,
            r.x,
        ) && is_product(self.x, s, xs) && is_product(self.y, c, yc) && is_sum(xs, yc, r.y));
        r
    }

    /// Both components divided by `s`.
    pub fn over(&self, s: T) -> (r: Vector2d<T>)
        ensures
            is_quotient(self.x, s, r.x),
            is_quotient(self.y, s, r.y),
            lawful::<T>() ==> r == self.shrunk(s),
    {
        Self { x: quotient(self.x, s), y: quotient(self.y, s) }
    }

    /// Both components multiplied by `s`.
    pub fn times(&self, s: T) -> (r: Vector2d<T>)
        ensures
            is_product(self.x, s, r.x),
            is_product(self.y, s, r.y),
            lawful::<T>() ==> r == self.scaled(s),
    {
        Self { x: product(self.x, s), y: product(self.y, s) }
    }

    /// The dot product with `rhs`.
    pub fn dot_with(&self, rhs: &Self) -> (r: T)
        ensures
            exists|xx: T, yy: T| #[trigger]
                is_product(self.x, rhs.x, xx) && #[trigger] is_product(self.y, rhs.y, yy)
                    && is_sum(xx, yy, r),
            lawful::<T>() ==> r == self.dot(*rhs),
    {
        let xx = product(self.x, rhs.x);
        let yy = product(self.y, rhs.y);
        let r = sum(xx, yy);
        assert(is_product(self.x, rhs.x, xx) && is_product(self.y, rhs.y, yy) && is_sum(
            xx,
            yy,
            r,
        ));
        r
    }

    /// The componentwise sum with `rhs`.
    pub fn add_to(&self, rhs: &Self) -> (r: Vector2d<T>)
        ensures
            is_sum(self.x, rhs.x, r.x),
            is_sum(self.y, rhs.y, r.y),
            lawful::<T>() ==> r == self.plus(*rhs),
    {
        Self { x: sum(self.x, rhs.x), y: sum(self.y, rhs.y) }
    }

    /// The componentwise difference from `rhs`.
    pub fn less(&self, rhs: &Self) -> (r: Vector2d<T>)
        ensures
            is_difference(self.x, rhs.x, r.x),
            is_difference(self.y, rhs.y, r.y),
            lawful::<T>() ==> r == self.minus(*rhs),
    {
        Self { x: difference(self.x, rhs.x), y: difference(self.y, rhs.y) }
    }

    /// The vector with both components negated.
    pub fn reversed(&self) -> (r: Vector2d<T>)
        ensures
            is_negation(self.x, r.x),
            is_negation(self.y, r.y),
            lawful::<T>() ==> r == self.opposite(),
    {
        Self { x: negated(self.x), y: negated(self.y) }
    }

    /// The cross product with `rhs`, a scalar.
    pub fn cross_with(&self, rhs: &Self) -> (r: T)
        ensures
            exists|xy: T, yx: T| #[trigger]
                is_product(self.x, rhs.y, xy) && #[trigger] is_product(self.y, rhs.x, yx)
                    && is_difference(xy, yx, r),
            lawful::<T>() ==> r == self.cross(*rhs),
    {
        let xy = product(self.x, rhs.y);
        let yx = product(self.y, rhs.x);
        let r = difference(xy, yx);
        assert(is_product(self.x, rhs.y, xy) && is_product(self.y, rhs.x, yx) && is_difference(
            xy,
            yx,
            r,
        ));
        r
    }

    /// The quarter turn clockwise, `(y, -x)`.
    pub fn quarter_turn(&self) -> (r: Vector2d<T>)
        ensures
            r.x == self.y,
            is_negation(self.x, r.y),
            lawful::<T>() ==> r == self.perp(),
    {
        Self { x: self.y, y: negated(self.x) }
    }

    /// Whether both components compare equal by the scalar's `==`.
    pub fn equals(&self, rhs: &Self) -> (r: bool)
        ensures
            lawful::<T>() ==> r == self.same(*rhs),
    {
        self.x == rhs.x && self.y == rhs.y
    }
}

impl<T: PartialEq> PartialEq for Vector2d<T> {
    fn eq(&self, other: &Self) -> (r: bool) {
        self.x == other.x && self.y == other.y
    }
}

impl<T: PartialEq> PartialEqSpecImpl for Vector2d<T> {
    open spec fn obeys_eq_spec() -> bool {
        T::obeys_eq_spec()
    }

    open spec fn eq_spec(&self, other: &Self) -> bool {
        self.x.eq_spec(&other.x) && self.y.eq_spec(&other.y)
    }
}

impl<T: Copy + Add<Output = T> + Mul<Output = T>> MulSpecImpl for Vector2d<T> {
    open spec fn obeys_mul_spec() -> bool {
        T::obeys_add_spec() && T::obeys_mul_spec()
    }

    open spec fn mul_req(self, rhs: Self) -> bool {
        &&& T::obeys_mul_spec()
        &&& self.x.mul_req(rhs.x)
        &&& self.y.mul_req(rhs.y)
        &&& self.x.mul_spec(rhs.x).add_req(self.y.mul_spec(rhs.y))
    }

    open spec fn mul_spec(self, rhs: Self) -> T {
        self.x.mul_spec(rhs.x).add_spec(self.y.mul_spec(rhs.y))
    }
}

/// The dot product.
impl<T: Copy + Add<Output = T> + Mul<Output = T>> Mul for Vector2d<T> {
    type Output = T;

    fn mul(self, rhs: Self) -> (r: T) {
        self.x.mul(rhs.x).add(self.y.mul(rhs.y))
    }
}

impl<T: Copy + Mul<Output = T>> MulSpecImpl<T> for Vector2d<T> {
    open spec fn obeys_mul_spec() -> bool {
        T::obeys_mul_spec()
    }

    open spec fn mul_req(self, rhs: T) -> bool {
        self.x.mul_req(rhs) && self.y.mul_req(rhs)
    }

    open spec fn mul_spec(self, rhs: T) -> Self {
        Vector2d { x: self.x.mul_spec(rhs), y: self.y.mul_spec(rhs) }
    }
}

/// Scaling by a scalar.
impl<T: Copy + Mul<Output = T>> Mul<T> for Vector2d<T> {
    type Output = Self;

    fn mul(self, rhs: T) -> (r: Self) {
        Self { x: self.x.mul(rhs), y: self.y.mul(rhs) }
    }
}

impl<T: Copy + Div<Output = T>> DivSpecImpl<T> for Vector2d<T> {
    open spec fn obeys_div_spec() -> bool {
        T::obeys_div_spec()
    }

    open spec fn div_req(self, rhs: T) -> bool {
        self.x.div_req(rhs) && self.y.div_req(rhs)
    }

    open spec fn div_spec(self, rhs: T) -> Self {
        Vector2d { x: self.x.div_spec(rhs), y: self.y.div_spec(rhs) }
    }
}

/// Division of both components by a scalar.
impl<T: Copy + Div<Output = T>> Div<T> for Vector2d<T> {
    type Output = Self;

    fn div(self, rhs: T) -> (r: Self) {
        Self { x: self.x.div(rhs), y: self.y.div(rhs) }
    }
}

impl<T: Add<Output = T>> AddSpecImpl for Vector2d<T> {
    open spec fn obeys_add_spec() -> bool {
        T::obeys_add_spec()
    }

    open spec fn add_req(self, rhs: Self) -> bool {
        self.x.add_req(rhs.x) && self.y.add_req(rhs.y)
    }

    open spec fn add_spec(self, rhs: Self) -> Self {
        Vector2d { x: self.x.add_spec(rhs.x), y: self.y.add_spec(rhs.y) }
    }
}

impl<T: Add<Output = T>> Add for Vector2d<T> {
    type Output = Self;

    fn add(self, rhs: Self) -> (r: Self) {
        Self { x: self.x.add(rhs.x), y: self.y.add(rhs.y) }
    }
}

impl<T: Sub<Output = T>> SubSpecImpl for Vector2d<T> {
    open spec fn obeys_sub_spec() -> bool {
        T::obeys_sub_spec()
    }

    open spec fn sub_req(self, rhs: Self) -> bool {
        self.x.sub_req(rhs.x) && self.y.sub_req(rhs.y)
    }

    open spec fn sub_spec(self, rhs: Self) -> Self {
        Vector2d { x: self.x.sub_spec(rhs.x), y: self.y.sub_spec(rhs.y) }
    }
}

impl<T: Sub<Output = T>> Sub for Vector2d<T> {
    type Output = Self;

    fn sub(self, rhs: Self) -> (r: Self) {
        Self { x: self.x.sub(rhs.x), y: self.y.sub(rhs.y) }
    }
}

impl<T: Neg<Output = T>> NegSpecImpl for Vector2d<T> {
    open spec fn obeys_neg_spec() -> bool {
        T::obeys_neg_spec()
    }

    open spec fn neg_req(self) -> bool {
        self.x.neg_req() && self.y.neg_req()
    }

    open spec fn neg_spec(self) -> Self {
        Vector2d { x: self.x.neg_spec(), y: self.y.neg_spec() }
    }
}

impl<T: Neg<Output = T>> Neg for Vector2d<T> {
    type Output = Vector2d<T>;

    fn neg(self) -> (r: Vector2d<T>) {
        Vector2d { x: self.x.neg(), y: self.y.neg() }
    }
}

/// The two-dimensional cross product, in its three forms: vector by vector
/// (a scalar), vector by scalar and scalar by vector (a vector).
pub trait CrossProduct<RHS>: Sized {
    type Output;

    /// The scalar operations that the product makes are all permitted.
    spec fn cross_req(self, rhs: RHS) -> bool;

    /// The scalar operators that the product uses obey their specifications.
    spec fn cross_obeys() -> bool;

    /// The product, over the scalar operators' specification functions.
    spec fn cross_spec(self, rhs: RHS) -> Self::Output;

    fn cross_product(self, rhs: RHS) -> (r: Self::Output)
        requires
            self.cross_req(rhs),
        ensures
            Self::cross_obeys() ==> r == self.cross_spec(rhs),
    ;
}

/// `a x b = a.x * b.y - a.y * b.x`.
impl<T: Mul<Output = T> + Sub<Output = T>> CrossProduct<Vector2d<T>> for Vector2d<T> {
    type Output = T;

    open spec fn cross_req(self, rhs: Vector2d<T>) -> bool {
        &&& T::obeys_mul_spec()
        &&& self.x.mul_req(rhs.y)
        &&& self.y.mul_req(rhs.x)
        &&& self.x.mul_spec(rhs.y).sub_req(self.y.mul_spec(rhs.x))
    }

    open spec fn cross_obeys() -> bool {
        T::obeys_mul_spec() && T::obeys_sub_spec()
    }

    open spec fn cross_spec(self, rhs: Vector2d<T>) -> T {
        self.x.mul_spec(rhs.y).sub_spec(self.y.mul_spec(rhs.x))
    }

    fn cross_product(self, rhs: Vector2d<T>) -> (r: T) {
        self.x.mul(rhs.y).sub(self.y.mul(rhs.x))
    }
}

/// `v x s = (s * v.y, -s * v.x)`.
impl<T: Copy + Mul<Output = T> + Neg<Output = T>> CrossProduct<T> for Vector2d<T> {
    type Output = Vector2d<T>;

    open spec fn cross_req(self, rhs: T) -> bool {
        &&& rhs.mul_req(self.y)
        &&& rhs.neg_req()
        &&& rhs.neg_spec().mul_req(self.x)
        &&& T::obeys_neg_spec()
    }

    open spec fn cross_obeys() -> bool {
        T::obeys_mul_spec() && T::obeys_neg_spec()
    }

    open spec fn cross_spec(self, rhs: T) -> Vector2d<T> {
        Vector2d { x: rhs.mul_spec(self.y), y: rhs.neg_spec().mul_spec(self.x) }
    }

    fn cross_product(self, rhs: T) -> (r: Vector2d<T>) {
        Vector2d { x: rhs.mul(self.y), y: rhs.neg().mul(self.x) }
    }
}

/// `s x v = (-s * v.y, s * v.x)`.
impl<T: Copy + Mul<Output = T> + Neg<Output = T>> CrossProduct<Vector2d<T>> for T {
    type Output = Vector2d<T>;

    open spec fn cross_req(self, rhs: Vector2d<T>) -> bool {
        &&& self.neg_req()
        &&& self.neg_spec().mul_req(rhs.y)
        &&& self.mul_req(rhs.x)
        &&& T::obeys_neg_spec()
    }

    open spec fn cross_obeys() -> bool {
        T::obeys_mul_spec() && T::obeys_neg_spec()
    }

    open spec fn cross_spec(self, rhs: Vector2d<T>) -> Vector2d<T> {
        Vector2d { x: self.neg_spec().mul_spec(rhs.y), y: self.mul_spec(rhs.x) }
    }

    fn cross_product(self, rhs: Vector2d<T>) -> (r: Vector2d<T>) {
        Vector2d { x: self.neg().mul(rhs.y), y: self.mul(rhs.x) }
    }
}

} // verus!
