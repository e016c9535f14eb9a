//! The canonical form of a unit.
//!
//! In the canonical form the factors of a chain stand in the order of
//! their base units, the lowest innermost, and no factor stands next to
//! its reciprocal. All expressions of one dimension have the same
//! canonical form.

use crate::base::{BaseUnit, Dimension, Inverse, Mult, Unit};
use crate::canonical::{lemma_base_dimension, lemma_normalize};
use vstd::prelude::*;

verus! {

impl Unit {
    /// The base unit of a factor.
    pub open spec fn atom(self) -> BaseUnit {
        match self {
            Unit::Base(a) => a,
            Unit::Inverse(Inverse(a)) => a,
            _ => BaseUnit::Second,
        }
    }

    /// The place of a factor in the order of the canonical form: the rank
    /// of its base unit.
    pub open spec fn order(self) -> nat {
        self.atom().spec_rank()
    }

    /// The factor in the outermost slot of a chain; a unit that is no
    /// product is its own outermost slot.
    pub open spec fn outer(self) -> Unit {
        match self {
            Unit::Mult(Mult(_, v)) => *v,
            _ => self,
        }
    }

    /// The canonical form: a chain whose factors stand in the order of their
    /// base units, the lowest innermost, and in which no factor stands next
    /// to its reciprocal. There is exactly one canonical unit of each
    /// dimension.
    pub open spec fn canonical(self) -> bool
        decreases self,
    {
        match self {
            Unit::Mult(Mult(u, v)) => {
                &&& v.is_factor()
                &&& !(*u is Unitless)
                &&& u.canonical()
                &&& u.outer().order() <= v.order()
                &&& !u.outer().cancels(*v)
            },
            _ => true,
        }
    }

    /// A canonical chain with one more factor, put where the order asks for
    /// it, or with the reciprocal of the factor taken out.
    pub open spec fn spec_place(self, factor: Unit) -> Unit
        decreases self,
    {
        match self {
            Unit::Unitless(_) => factor,
            Unit::Mult(Mult(u, v)) => {
                if v.cancels(factor) {
                    *u
                } else if v.order() <= factor.order() {
                    Unit::mult(self, factor)
                } else {
                    u.spec_place(factor).spec_join(*v)
                }
            },
            _ => {
                if self.cancels(factor) {
                    Unit::unitless()
                } else if self.order() <= factor.order() {
                    Unit::mult(self, factor)
                } else {
                    Unit::mult(factor, self)
                }
            },
        }
    }

    /// `self` with every factor of `expr` placed into it.
    pub open spec fn spec_absorb(self, expr: Unit) -> Unit
        decreases expr,
    {
        match expr {
            Unit::Unitless(_) => self,
            Unit::Mult(Mult(a, b)) => self.spec_absorb(*a).spec_absorb(*b),
            _ => self.spec_place(expr),
        }
    }

    /// The canonical form of any expression.
    pub open spec fn spec_normalize(self) -> Unit {
        Unit::unitless().spec_absorb(self)
    }

    fn rank(&self) -> (r: u8)
        ensures
            r == self.order(),
    {
        match self {
            Unit::Base(a) => a.rank(),
            Unit::Inverse(Inverse(a)) => a.rank(),
            _ => BaseUnit::Second.rank(),
        }
    }

    /// Tells whether the unit is in canonical form.
    pub fn is_canonical(&self) -> (r: bool)
        ensures
            r == self.canonical(),
        decreases *self,
    {
        match self {
            Unit::Mult(Mult(u, v)) => {
                let outer_is_factor = match **v {
                    Unit::Base(_) => true,
                    Unit::Inverse(_) => true,
                    _ => false,
                };
                match &**u {
                    Unit::Unitless(_) => false,
                    Unit::Mult(Mult(_, last)) => {
                        outer_is_factor && u.is_canonical() && last.rank() <= v.rank()
                            && !last.cancel(v)
                    },
                    single => {
                        proof {
                            assert(single.canonical());
                        }
                        outer_is_factor && single.rank() <= v.rank() && !single.cancel(v)
                    },
                }
            },
            _ => true,
        }
    }

    fn place(self, factor: Unit) -> (r: Unit)
        ensures
            r == self.spec_place(factor),
        decreases self,
    {
        match self {
            Unit::Unitless(_) => factor,
            Unit::Mult(Mult(u, v)) => {
                if v.cancel(&factor) {
                    *u
                } else if v.rank() <= factor.rank() {
                    Unit::mult(Unit::Mult(Mult(u, v)), factor)
                } else {
                    (*u).place(factor).join(*v)
                }
            },
            single => {
                if single.cancel(&factor) {
                    Unit::unitless()
                } else if single.rank() <= factor.rank() {
                    Unit::mult(single, factor)
                } else {
                    Unit::mult(factor, single)
                }
            },
        }
    }

    fn absorb(self, expr: Unit) -> (r: Unit)
        ensures
            r == self.spec_absorb(expr),
        decreases expr,
    {
        match expr {
            Unit::Unitless(_) => self,
            Unit::Mult(Mult(a, b)) => self.absorb(*a).absorb(*b),
            factor => self.place(factor),
        }
    }

    /// Brings any expression into canonical form. The result has the
    /// dimension of the expression, and two expressions have the same
    /// canonical form exactly when they have the same dimension.
    pub fn normalize(self) -> (r: Unit)
        ensures
            r == self.spec_normalize(),
            r.canonical(),
            r.same_dimension(self),
            self.canonical() ==> r == self,
    {
        proof {
            lemma_normalize(self);
        }
        Unit::unitless().absorb(self)
    }

    /// The dimension that the unit measures: that of the base unit whose
    /// dimension it has, if there is one.
    pub fn dimension(&self) -> (r: Option<Dimension>)
        ensures
            r matches Some(d) ==> self.same_dimension(Unit::base(d.spec_base())),
            r is None ==> forall|d: Dimension|
                !self.same_dimension(Unit::base(#[trigger] d.spec_base())),
    {
        let normal = self.clone().normalize();
        proof {
            assert forall|d: Dimension|
                self.same_dimension(Unit::base(#[trigger] d.spec_base())) == (normal
                    == Unit::base(d.spec_base())) by {
                lemma_base_dimension(*self, d.spec_base());
            }
        }
        match normal {
            Unit::Base(atom) => Some(atom.dimension()),
            _ => None,
        }
    }
}

} // verus!
