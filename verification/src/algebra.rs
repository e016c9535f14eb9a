//! The algebra of units: inversion, multiplication and division.
//!
//! Products built by these operations are chains that nest to the left,
//! `Mult(Mult(a, b), c)`, whose outer slots each hold a single factor and
//! in which no base unit occurs together with its reciprocal: such a unit
//! is *reduced*. Multiplying puts a new factor next to the head of the
//! chain, so the slots of a reduced unit show the order in which it was
//! built. Two units are convertible when the canonical form of their
//! quotient is `Unitless`, which is the case exactly when they have the
//! same dimension; the quotient of two reduced units is then `Unitless`
//! as it stands.

use crate::base::{BaseUnit, Inverse, Invert, Mult, Unit};
use crate::canonical::{lemma_convertible, lemma_invert_canonical};
use crate::reduced::{
    lemma_divide, lemma_invert_exponent, lemma_invert_reduced, lemma_multiply_exponent,
    lemma_multiply_reduced, lemma_quotient,
};
use core::ops::{Div, Mul};
use vstd::prelude::*;
use vstd::std_specs::ops::{DivSpecImpl, MulSpecImpl};

verus! {

impl Unit {
    /// A factor is a base unit or the reciprocal of one.
    pub open spec fn is_factor(self) -> bool {
        self is Base || self is Inverse
    }

    /// The reciprocal: every factor of the expression is inverted in place.
    pub open spec fn spec_invert(self) -> Unit
        decreases self,
    {
        match self {
            Unit::Unitless(_) => self,
            Unit::Base(a) => Unit::inverse(a),
            Unit::Inverse(Inverse(a)) => Unit::base(a),
            Unit::Mult(Mult(u, v)) => Unit::mult(u.spec_invert(), v.spec_invert()),
        }
    }

    /// `self` is a factor and `other` is its exact reciprocal.
    pub open spec fn cancels(self, other: Unit) -> bool {
        self.is_factor() && other == self.spec_invert()
    }

    /// `self` with `outer` put in a new outer slot; an empty `self` leaves
    /// `outer` alone.
    pub open spec fn spec_join(self, outer: Unit) -> Unit {
        if self is Unitless {
            outer
        } else {
            Unit::mult(self, outer)
        }
    }

    /// The product of `self` and one factor.
    ///
    /// The outer slots are searched from the outside in. The first slot that
    /// holds the reciprocal of `factor` is removed. Where there is none, the
    /// factor is placed in the innermost slot, next to the head of the chain.
    pub open spec fn spec_insert(self, factor: Unit) -> Unit
        decreases self,
    {
        match self {
            Unit::Unitless(_) => factor,
            Unit::Mult(Mult(u, v)) => {
                if v.cancels(factor) {
                    *u
                } else {
                    u.spec_insert(factor).spec_join(*v)
                }
            },
            _ => {
                if self.cancels(factor) {
                    Unit::unitless()
                } else {
                    Unit::mult(self, factor)
                }
            },
        }
    }

    /// The product of two units.
    ///
    /// `Unitless` on either side leaves the other operand as it is. A factor
    /// on the right is inserted. A product on the right is distributed into
    /// the left operand one factor at a time: outer slot first where the left
    /// operand is a product too, in written order where it is a single
    /// factor, so that `a * (b * c)` is `(a * b) * c` for base units.
    pub open spec fn spec_multiply(self, rhs: Unit) -> Unit
        decreases rhs,
    {
        match rhs {
            Unit::Unitless(_) => self,
            Unit::Mult(Mult(a, b)) => {
                match self {
                    Unit::Unitless(_) => rhs,
                    Unit::Mult(_) => self.spec_multiply(*b).spec_multiply(*a),
                    _ => self.spec_multiply(*a).spec_multiply(*b),
                }
            },
            _ => self.spec_insert(rhs),
        }
    }

    /// The quotient: the product with the reciprocal of `rhs`.
    pub open spec fn spec_divide(self, rhs: Unit) -> Unit {
        self.spec_multiply(rhs.spec_invert())
    }

    /// Two units are convertible when the canonical form of their quotient
    /// is `Unitless`.
    pub open spec fn spec_convertible(self, other: Unit) -> bool {
        self.spec_divide(other).spec_normalize() is Unitless
    }

    /// `factor` occurs somewhere in the expression.
    pub open spec fn has(self, factor: Unit) -> bool
        decreases self,
    {
        match self {
            Unit::Unitless(_) => false,
            Unit::Mult(Mult(u, v)) => u.has(factor) || v.has(factor),
            _ => self == factor,
        }
    }

    /// A reduced unit: `Unitless`, a single factor, or a chain
    /// `Mult(chain, factor)` in which no factor meets its reciprocal. The
    /// operations of the algebra give reduced units from reduced units. Two
    /// reduced units of one dimension may hold their factors in different
    /// slots.
    pub open spec fn reduced(self) -> bool
        decreases self,
    {
        match self {
            Unit::Mult(Mult(u, v)) => {
                &&& v.is_factor()
                &&& !(*u is Unitless)
                &&& u.reduced()
                &&& !u.has(v.spec_invert())
            },
            _ => true,
        }
    }

    /// The power to which `atom` is raised in the expression.
    pub open spec fn exponent(self, atom: BaseUnit) -> int
        decreases self,
    {
        match self {
            Unit::Unitless(_) => 0,
            Unit::Base(a) => if a == atom { 1 } else { 0 },
            Unit::Inverse(Inverse(a)) => if a == atom { -1 } else { 0 },
            Unit::Mult(Mult(u, v)) => u.exponent(atom) + v.exponent(atom),
        }
    }

    /// Both units raise every base unit to the same power.
    pub open spec fn same_dimension(self, other: Unit) -> bool {
        forall|atom: BaseUnit| self.exponent(atom) == other.exponent(atom)
    }

    pub(crate) fn cancel(&self, other: &Unit) -> (r: bool)
        ensures
            r == self.cancels(*other),
    {
        match (self, other) {
            (Unit::Base(a), Unit::Inverse(Inverse(b))) => *a == *b,
            (Unit::Inverse(Inverse(a)), Unit::Base(b)) => *a == *b,
            _ => false,
        }
    }

    pub(crate) fn join(self, outer: Unit) -> (r: Unit)
        ensures
            r == self.spec_join(outer),
    {
        match self {
            Unit::Unitless(_) => outer,
            inner => Unit::mult(inner, outer),
        }
    }

    fn insert(self, factor: Unit) -> (r: Unit)
        ensures
            r == self.spec_insert(factor),
        decreases self,
    {
        match self {
            Unit::Unitless(_) => factor,
            Unit::Mult(Mult(u, v)) => {
                if v.cancel(&factor) {
                    *u
                } else {
                    (*u).insert(factor).join(*v)
                }
            },
            single => {
                if single.cancel(&factor) {
                    Unit::unitless()
                } else {
                    Unit::mult(single, factor)
                }
            },
        }
    }

    /// Multiplies two units. Reduced operands give a reduced product,
    /// and the product raises each base unit to the sum of their powers.
    pub fn multiply(self, rhs: Unit) -> (r: Unit)
        ensures
            r == self.spec_multiply(rhs),
            self.reduced() && rhs.reduced() ==> r.reduced(),
            forall|atom: BaseUnit| #[trigger]
                r.exponent(atom) == self.exponent(atom) + rhs.exponent(atom),
        decreases rhs,
    {
        proof {
            if self.reduced() && rhs.reduced() {
                lemma_multiply_reduced(self, rhs);
            }
            assert forall|atom: BaseUnit| #[trigger]
                self.spec_multiply(rhs).exponent(atom) == self.exponent(atom) + rhs.exponent(
                    atom,
                ) by {
                lemma_multiply_exponent(self, rhs, atom);
            }
        }
        match rhs {
            Unit::Unitless(_) => self,
            Unit::Mult(Mult(a, b)) => {
                match self {
                    Unit::Unitless(_) => Unit::Mult(Mult(a, b)),
                    Unit::Mult(m) => Unit::Mult(m).multiply(*b).multiply(*a),
                    single => single.multiply(*a).multiply(*b),
                }
            },
            factor => self.insert(factor),
        }
    }

    /// Divides one unit by another: multiplies by the reciprocal.
    pub fn divide(self, rhs: Unit) -> (r: Unit)
        ensures
            r == self.spec_divide(rhs),
            self.reduced() && rhs.reduced() ==> r.reduced(),
            forall|atom: BaseUnit| #[trigger]
                r.exponent(atom) == self.exponent(atom) - rhs.exponent(atom),
    {
        proof {
            lemma_divide(self, rhs);
        }
        self.multiply(rhs.invert())
    }

    /// Tells whether the two units are convertible: whether the canonical
    /// form of their quotient is `Unitless`. That is the case exactly when
    /// both have the same dimension. The quotient of reduced units is then
    /// `Unitless` as it stands.
    pub fn convertible(&self, other: &Unit) -> (r: bool)
        ensures
            r == self.spec_convertible(*other),
            r == self.same_dimension(*other),
            self.reduced() && other.reduced() ==> r == (self.spec_divide(*other) is Unitless),
    {
        proof {
            lemma_convertible(*self, *other);
            if self.reduced() && other.reduced() {
                lemma_quotient(*self, *other);
            }
        }
        match self.clone().divide(other.clone()).normalize() {
            Unit::Unitless(_) => true,
            _ => false,
        }
    }

    fn same_factor(&self, other: &Unit) -> (r: bool)
        ensures
            self.is_factor() ==> r == (*self == *other),
    {
        match (self, other) {
            (Unit::Base(a), Unit::Base(b)) => *a == *b,
            (Unit::Inverse(Inverse(a)), Unit::Inverse(Inverse(b))) => *a == *b,
            _ => false,
        }
    }

    fn contains(&self, factor: &Unit) -> (r: bool)
        ensures
            r == self.has(*factor),
        decreases *self,
    {
        match self {
            Unit::Unitless(_) => false,
            Unit::Mult(Mult(u, v)) => u.contains(factor) || v.contains(factor),
            single => single.same_factor(factor),
        }
    }

    /// Tells whether the unit is reduced.
    pub fn is_reduced(&self) -> (r: bool)
        ensures
            r == self.reduced(),
        decreases *self,
    {
        match self {
            Unit::Mult(Mult(u, v)) => {
                let outer_is_factor = match **v {
                    Unit::Base(_) => true,
                    Unit::Inverse(_) => true,
                    _ => false,
                };
                let inner_is_empty = match **u {
                    Unit::Unitless(_) => true,
                    _ => false,
                };
                outer_is_factor && !inner_is_empty && u.is_reduced() && !u.contains(
                    &(**v).clone().invert(),
                )
            },
            _ => true,
        }
    }
}

impl Invert for BaseUnit {
    type Inverse = Inverse;

    /// The reciprocal of the base unit.
    fn invert(self) -> (r: Inverse)
        ensures
            r == Inverse(self),
    {
        Inverse(self)
    }
}

impl Invert for Inverse {
    type Inverse = BaseUnit;

    /// The base unit whose reciprocal this is: inverting a reciprocal
    /// cancels it.
    fn invert(self) -> (r: BaseUnit)
        ensures
            r == self.0,
            Unit::inverse(r) == Unit::Inverse(self),
    {
        self.0
    }
}

impl Invert for Mult {
    type Inverse = Mult;

    /// The pair of the reciprocals of both slots.
    fn invert(self) -> (r: Mult)
        ensures
            Unit::Mult(r) == Unit::Mult(self).spec_invert(),
        decreases self,
    {
        Mult(Box::new((*self.0).invert()), Box::new((*self.1).invert()))
    }
}

impl Invert for Unit {
    type Inverse = Unit;

    /// Inverts the unit: `Unitless` stays, a base unit and its reciprocal
    /// change places, and a product is inverted slot by slot.
    fn invert(self) -> (r: Unit)
        ensures
            r == self.spec_invert(),
            self.reduced() ==> r.reduced(),
            self.canonical() ==> r.canonical(),
            forall|atom: BaseUnit| #[trigger] r.exponent(atom) == -self.exponent(atom),
        decreases self,
    {
        proof {
            if self.reduced() {
                lemma_invert_reduced(self);
            }
            if self.canonical() {
                lemma_invert_canonical(self);
            }
            assert forall|atom: BaseUnit| #[trigger]
                self.spec_invert().exponent(atom) == -self.exponent(atom) by {
                lemma_invert_exponent(self, atom);
            }
        }
        match self {
            Unit::Unitless(one) => Unit::Unitless(one),
            Unit::Base(a) => Unit::Inverse(a.invert()),
            Unit::Inverse(i) => Unit::Base(i.invert()),
            Unit::Mult(m) => Unit::Mult(m.invert()),
        }
    }
}

impl Mul for Unit {
    type Output = Unit;

    /// `self * rhs` is `self.multiply(rhs)`.
    fn mul(self, rhs: Unit) -> (r: Unit) {
        self.multiply(rhs)
    }
}

impl MulSpecImpl for Unit {
    open spec fn obeys_mul_spec() -> bool {
        true
    }

    open spec fn mul_req(self, rhs: Unit) -> bool {
        true
    }

    open spec fn mul_spec(self, rhs: Unit) -> Unit {
        self.spec_multiply(rhs)
    }
}

impl Div for Unit {
    type Output = Unit;

    /// `self / rhs` is `self.divide(rhs)`.
    fn div(self, rhs: Unit) -> (r: Unit) {
        self.divide(rhs)
    }
}

impl DivSpecImpl for Unit {
    open spec fn obeys_div_spec() -> bool {
        true
    }

    open spec fn div_req(self, rhs: Unit) -> bool {
        true
    }

    open spec fn div_spec(self, rhs: Unit) -> Unit {
        self.spec_divide(rhs)
    }
}

} // verus!
