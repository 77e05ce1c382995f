use vstd::prelude::*;

verus! {

/// The scalars that a matrix holds.
///
/// Matrix arithmetic uses the two constants, addition, multiplication and subtraction.
/// The laws those operations obey (those of a commutative ring in which one is not zero and
/// subtraction undoes addition) are proof obligations of every implementation.
pub trait Field: Sized + Copy {
    /// The additive identity, as a mathematical value.
    spec fn zero_spec() -> Self;

    /// The multiplicative identity, as a mathematical value.
    spec fn one_spec() -> Self;

    /// Addition, as a mathematical operation.
    spec fn add_spec(self, other: Self) -> Self;

    /// Multiplication, as a mathematical operation.
    spec fn mul_spec(self, other: Self) -> Self;

    /// Subtraction, as a mathematical operation.
    spec fn sub_spec(self, other: Self) -> Self;

    fn zero() -> (r: Self)
        ensures
            r == Self::zero_spec(),
    ;

    fn one() -> (r: Self)
        ensures
            r == Self::one_spec(),
    ;

    fn add(&self, other: &Self) -> (r: Self)
        ensures
            r == self.add_spec(*other),
    ;

    fn mul(&self, other: &Self) -> (r: Self)
        ensures
            r == self.mul_spec(*other),
    ;

    fn sub(&self, other: &Self) -> (r: Self)
        ensures
            r == self.sub_spec(*other),
    ;

    proof fn lemma_add_assoc(a: Self, b: Self, c: Self)
        ensures
            a.add_spec(b.add_spec(c)) == a.add_spec(b).add_spec(c),
    ;

    proof fn lemma_add_comm(a: Self, b: Self)
        ensures
            a.add_spec(b) == b.add_spec(a),
    ;

    proof fn lemma_add_zero(a: Self)
        ensures
            a.add_spec(Self::zero_spec()) == a,
    ;

    proof fn lemma_mul_assoc(a: Self, b: Self, c: Self)
        ensures
            a.mul_spec(b.mul_spec(c)) == a.mul_spec(b).mul_spec(c),
    ;

    proof fn lemma_mul_comm(a: Self, b: Self)
        ensures
            a.mul_spec(b) == b.mul_spec(a),
    ;

    proof fn lemma_mul_one(a: Self)
        ensures
            Self::one_spec().mul_spec(a) == a,
    ;

    proof fn lemma_mul_zero(a: Self)
        ensures
            Self::zero_spec().mul_spec(a) == Self::zero_spec(),
    ;

    proof fn lemma_distrib(a: Self, b: Self, c: Self)
        ensures
            a.mul_spec(b.add_spec(c)) == a.mul_spec(b).add_spec(a.mul_spec(c)),
    ;

    proof fn lemma_sub_add(a: Self, b: Self)
        ensures
            a.sub_spec(b).add_spec(b) == a,
    ;

    proof fn lemma_one_ne_zero()
        ensures
            Self::one_spec() != Self::zero_spec(),
    ;
}

/// The two-element field GF(2): addition is exclusive or, multiplication is
/// conjunction.
impl Field for bool {
    open spec fn zero_spec() -> bool {
        false
    }

    open spec fn one_spec() -> bool {
        true
    }

    open spec fn add_spec(self, other: bool) -> bool {
        self != other
    }

    open spec fn mul_spec(self, other: bool) -> bool {
        self && other
    }

    open spec fn sub_spec(self, other: bool) -> bool {
        self != other
    }

    fn zero() -> (r: bool) {
        false
    }

    fn one() -> (r: bool) {
        true
    }

    fn add(&self, other: &bool) -> (r: bool) {
        *self != *other
    }

    fn mul(&self, other: &bool) -> (r: bool) {
        *self && *other
    }

    fn sub(&self, other: &bool) -> (r: bool) {
        *self != *other
    }

    proof fn lemma_add_assoc(a: bool, b: bool, c: bool) {
    }

    proof fn lemma_add_comm(a: bool, b: bool) {
    }

    proof fn lemma_add_zero(a: bool) {
    }

    proof fn lemma_mul_assoc(a: bool, b: bool, c: bool) {
    }

    proof fn lemma_mul_comm(a: bool, b: bool) {
    }

    proof fn lemma_mul_one(a: bool) {
    }

    proof fn lemma_mul_zero(a: bool) {
    }

    proof fn lemma_distrib(a: bool, b: bool, c: bool) {
    }

    proof fn lemma_sub_add(a: bool, b: bool) {
    }

    proof fn lemma_one_ne_zero() {
    }
}

} // verus!
