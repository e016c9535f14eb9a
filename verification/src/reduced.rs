//! Lemmas on reduced chains: the operations keep units reduced, they add
//! and negate exponents, and a reduced unit without dimension is
//! `Unitless`.

use crate::base::{BaseUnit, Inverse, Mult, Unit};
use vstd::prelude::*;

verus! {

/// `f` cancels `g` exactly when `g` cancels `f`.
pub proof fn lemma_cancels_symmetric(f: Unit, g: Unit)
    requires
        f.is_factor(),
        g.is_factor(),
    ensures
        f.cancels(g) == g.cancels(f),
        f.cancels(g) == (f == g.spec_invert()),
{
}

/// Inserting `f` brings no factor but `f` into the expression.
pub proof fn lemma_insert_has(u: Unit, f: Unit, g: Unit)
    requires
        f.is_factor(),
    ensures
        u.spec_insert(f).has(g) ==> u.has(g) || g == f,
    decreases u,
{
    match u {
        Unit::Mult(Mult(p, q)) => {
            if !q.cancels(f) {
                lemma_insert_has(*p, f, g);
                let inner = p.spec_insert(f);
                assert(u.spec_insert(f) == inner.spec_join(*q));
                assert(inner.spec_join(*q).has(g) ==> inner.has(g) || q.has(g));
            } else {
                assert(u.spec_insert(f) == *p);
            }
        },
        Unit::Unitless(_) => {},
        _ => {
            if !u.cancels(f) {
                assert(u.spec_insert(f) == Unit::mult(u, f));
                assert(u.spec_insert(f).has(g) == (u.has(g) || f.has(g)));
            }
        },
    }
}

/// Inserting a factor into a reduced unit gives a reduced unit.
pub proof fn lemma_insert_reduced(u: Unit, f: Unit)
    requires
        u.reduced(),
        f.is_factor(),
    ensures
        u.spec_insert(f).reduced(),
    decreases u,
{
    match u {
        Unit::Mult(Mult(p, q)) => {
            if !q.cancels(f) {
                lemma_insert_reduced(*p, f);
                lemma_insert_has(*p, f, q.spec_invert());
                lemma_cancels_symmetric(*q, f);
            }
        },
        Unit::Unitless(_) => {},
        _ => {
            lemma_cancels_symmetric(u, f);
        },
    }
}

/// Inserting a factor adds its exponents.
pub proof fn lemma_insert_exponent(u: Unit, f: Unit, atom: BaseUnit)
    requires
        f.is_factor(),
    ensures
        u.spec_insert(f).exponent(atom) == u.exponent(atom) + f.exponent(atom),
    decreases u,
{
    match u {
        Unit::Mult(Mult(p, q)) => {
            if !q.cancels(f) {
                lemma_insert_exponent(*p, f, atom);
                let inner = p.spec_insert(f);
                assert(u.spec_insert(f) == inner.spec_join(*q));
                assert(inner.spec_join(*q).exponent(atom) == inner.exponent(atom) + q.exponent(
                    atom,
                ));
            } else {
                assert(u.spec_insert(f) == *p);
                assert(q.exponent(atom) + f.exponent(atom) == 0);
            }
        },
        Unit::Unitless(_) => {},
        _ => {
            if !u.cancels(f) {
                assert(u.spec_insert(f) == Unit::mult(u, f));
            } else {
                assert(u.exponent(atom) + f.exponent(atom) == 0);
            }
        },
    }
}

/// The product of reduced units is reduced.
pub proof fn lemma_multiply_reduced(u: Unit, w: Unit)
    requires
        u.reduced(),
        w.reduced(),
    ensures
        u.spec_multiply(w).reduced(),
    decreases w,
{
    match w {
        Unit::Unitless(_) => {},
        Unit::Mult(Mult(a, b)) => {
            match u {
                Unit::Unitless(_) => {},
                Unit::Mult(_) => {
                    lemma_multiply_reduced(u, *b);
                    lemma_multiply_reduced(u.spec_multiply(*b), *a);
                },
                _ => {
                    lemma_multiply_reduced(u, *a);
                    lemma_multiply_reduced(u.spec_multiply(*a), *b);
                },
            }
        },
        _ => {
            lemma_insert_reduced(u, w);
        },
    }
}

/// A product raises each base unit to the sum of the operands' powers.
pub proof fn lemma_multiply_exponent(u: Unit, w: Unit, atom: BaseUnit)
    ensures
        u.spec_multiply(w).exponent(atom) == u.exponent(atom) + w.exponent(atom),
    decreases w,
{
    match w {
        Unit::Unitless(_) => {},
        Unit::Mult(Mult(a, b)) => {
            match u {
                Unit::Unitless(_) => {},
                Unit::Mult(_) => {
                    lemma_multiply_exponent(u, *b, atom);
                    lemma_multiply_exponent(u.spec_multiply(*b), *a, atom);
                },
                _ => {
                    lemma_multiply_exponent(u, *a, atom);
                    lemma_multiply_exponent(u.spec_multiply(*a), *b, atom);
                },
            }
        },
        _ => {
            lemma_insert_exponent(u, w, atom);
        },
    }
}

/// The reciprocal holds the reciprocal of `g` exactly where the unit holds `g`.
pub proof fn lemma_invert_has(u: Unit, g: Unit)
    requires
        g.is_factor(),
    ensures
        u.spec_invert().has(g.spec_invert()) == u.has(g),
    decreases u,
{
    match u {
        Unit::Mult(Mult(p, q)) => {
            lemma_invert_has(*p, g);
            lemma_invert_has(*q, g);
        },
        _ => {},
    }
}

/// The reciprocal of a reduced unit is reduced.
pub proof fn lemma_invert_reduced(u: Unit)
    requires
        u.reduced(),
    ensures
        u.spec_invert().reduced(),
    decreases u,
{
    match u {
        Unit::Mult(Mult(p, q)) => {
            lemma_invert_reduced(*p);
            lemma_invert_has(*p, q.spec_invert());
        },
        _ => {},
    }
}

/// The reciprocal negates every exponent.
pub proof fn lemma_invert_exponent(u: Unit, atom: BaseUnit)
    ensures
        u.spec_invert().exponent(atom) == -u.exponent(atom),
    decreases u,
{
    match u {
        Unit::Mult(Mult(p, q)) => {
            lemma_invert_exponent(*p, atom);
            lemma_invert_exponent(*q, atom);
        },
        _ => {},
    }
}

/// Where a base unit never occurs inverted its exponent is not negative,
/// and where it never occurs plain its exponent is not positive.
pub proof fn lemma_exponent_sign(u: Unit, atom: BaseUnit)
    ensures
        !u.has(Unit::inverse(atom)) ==> u.exponent(atom) >= 0,
        !u.has(Unit::base(atom)) ==> u.exponent(atom) <= 0,
    decreases u,
{
    match u {
        Unit::Mult(Mult(p, q)) => {
            lemma_exponent_sign(*p, atom);
            lemma_exponent_sign(*q, atom);
        },
        _ => {},
    }
}

/// A reduced unit that raises every base unit to the power zero is
/// `Unitless`.
pub proof fn lemma_dimensionless_is_unitless(u: Unit)
    requires
        u.reduced(),
        u.same_dimension(Unit::unitless()),
    ensures
        u is Unitless,
{
    match u {
        Unit::Unitless(_) => {},
        Unit::Base(a) => {
            assert(u.exponent(a) == Unit::unitless().exponent(a));
        },
        Unit::Inverse(Inverse(a)) => {
            assert(u.exponent(a) == Unit::unitless().exponent(a));
        },
        Unit::Mult(Mult(p, q)) => {
            assert(q.is_factor());
            match *q {
                Unit::Base(a) => {
                    assert(q.spec_invert() == Unit::inverse(a));
                    lemma_exponent_sign(*p, a);
                    assert(q.exponent(a) == 1);
                    assert(u.exponent(a) == Unit::unitless().exponent(a));
                },
                Unit::Inverse(Inverse(a)) => {
                    assert(q.spec_invert() == Unit::base(a));
                    lemma_exponent_sign(*p, a);
                    assert(q.exponent(a) == -1);
                    assert(u.exponent(a) == Unit::unitless().exponent(a));
                },
                _ => {},
            }
        },
    }
}

/// The quotient of reduced units is reduced and raises each base unit
/// to the difference of the operands' powers.
pub proof fn lemma_divide(u: Unit, w: Unit)
    ensures
        u.reduced() && w.reduced() ==> u.spec_divide(w).reduced(),
        forall|atom: BaseUnit| #[trigger]
            u.spec_divide(w).exponent(atom) == u.exponent(atom) - w.exponent(atom),
{
    if u.reduced() && w.reduced() {
        lemma_invert_reduced(w);
        lemma_multiply_reduced(u, w.spec_invert());
    }
    assert forall|atom: BaseUnit| #[trigger]
        u.spec_divide(w).exponent(atom) == u.exponent(atom) - w.exponent(atom) by {
        lemma_invert_exponent(w, atom);
        lemma_multiply_exponent(u, w.spec_invert(), atom);
    }
}

/// The quotient of reduced units is `Unitless` exactly when they have the
/// same dimension.
pub proof fn lemma_quotient(u: Unit, w: Unit)
    requires
        u.reduced(),
        w.reduced(),
    ensures
        (u.spec_divide(w) is Unitless) == u.same_dimension(w),
{
    let d = u.spec_divide(w);
    lemma_divide(u, w);
    if u.same_dimension(w) {
        assert forall|atom: BaseUnit| d.exponent(atom) == Unit::unitless().exponent(atom) by {
            assert(d.exponent(atom) == u.exponent(atom) - w.exponent(atom));
        }
        lemma_dimensionless_is_unitless(d);
    }
    if d is Unitless {
        assert forall|atom: BaseUnit| u.exponent(atom) == w.exponent(atom) by {
            assert(d.exponent(atom) == u.exponent(atom) - w.exponent(atom));
        }
    }
}

} // verus!
