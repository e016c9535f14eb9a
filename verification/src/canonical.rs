//! Lemmas on the canonical form: placing a factor keeps a chain canonical,
//! normalizing keeps the dimension, and there is only one canonical unit of
//! each dimension.

use crate::base::{BaseUnit, Mult, Unit};
use crate::reduced::{lemma_dimensionless_is_unitless, lemma_divide, lemma_exponent_sign};
use vstd::prelude::*;

verus! {

/// Base units of the same rank are the same base unit.
pub proof fn lemma_rank_injective(a: BaseUnit, b: BaseUnit)
    ensures
        a.spec_rank() == b.spec_rank() ==> a == b,
{
}

/// Two factors on the same base unit are equal or cancel each other.
pub proof fn lemma_same_atom(f: Unit, g: Unit)
    requires
        f.is_factor(),
        g.is_factor(),
        f.atom() == g.atom(),
    ensures
        f == g || f.cancels(g),
        f.cancels(g) == g.cancels(f),
{
}

/// Whatever a canonical chain holds is a factor that does not come after
/// the outermost one, and if it is on the same base unit it is equal to it.
pub proof fn lemma_canonical_bound(u: Unit, g: Unit)
    requires
        u.canonical(),
        u.has(g),
    ensures
        g.is_factor(),
        u.outer().is_factor(),
        g.order() <= u.outer().order(),
        g.atom() == u.outer().atom() ==> g == u.outer(),
    decreases u,
{
    match u {
        Unit::Mult(Mult(p, q)) => {
            assert(u.outer() == *q);
            if p.has(g) {
                lemma_canonical_bound(*p, g);
                if g.atom() == q.atom() {
                    lemma_rank_injective(p.outer().atom(), q.atom());
                    lemma_same_atom(p.outer(), *q);
                }
            } else {
                assert(q.has(g));
                assert(*q == g);
            }
        },
        Unit::Unitless(_) => {},
        _ => {
            assert(u == g);
        },
    }
}

/// A canonical chain that is not empty holds its outermost factor.
pub proof fn lemma_has_outer(u: Unit)
    requires
        u.canonical(),
        !(u is Unitless),
    ensures
        u.outer().is_factor(),
        u.has(u.outer()),
{
    match u {
        Unit::Mult(Mult(p, q)) => {
            assert(q.has(*q));
        },
        _ => {},
    }
}

/// A canonical unit is reduced.
pub proof fn lemma_canonical_reduced(u: Unit)
    requires
        u.canonical(),
    ensures
        u.reduced(),
    decreases u,
{
    match u {
        Unit::Mult(Mult(p, q)) => {
            lemma_canonical_reduced(*p);
            let g = q.spec_invert();
            if p.has(g) {
                lemma_canonical_bound(*p, g);
                lemma_rank_injective(p.outer().atom(), q.atom());
                lemma_same_atom(p.outer(), *q);
                assert(false);
            }
        },
        _ => {},
    }
}

/// The reciprocal of a canonical unit is canonical.
pub proof fn lemma_invert_canonical(u: Unit)
    requires
        u.canonical(),
    ensures
        u.spec_invert().canonical(),
        u.spec_invert().outer() == u.outer().spec_invert(),
    decreases u,
{
    match u {
        Unit::Mult(Mult(p, q)) => {
            lemma_invert_canonical(*p);
            let g = p.outer();
            if !(*p is Unitless) {
                lemma_has_outer(*p);
            }
            assert(u.spec_invert() == Unit::mult(p.spec_invert(), q.spec_invert()));
            assert(g.spec_invert().order() == g.order());
            assert(q.spec_invert().order() == q.order());
            assert(g.spec_invert().cancels(q.spec_invert()) == g.cancels(*q));
        },
        _ => {},
    }
}

/// Placing `f` brings no factor but `f` into the chain.
pub proof fn lemma_place_has(u: Unit, f: Unit, g: Unit)
    requires
        f.is_factor(),
    ensures
        u.spec_place(f).has(g) ==> u.has(g) || g == f,
    decreases u,
{
    match u {
        Unit::Mult(Mult(p, q)) => {
            if q.cancels(f) {
                assert(u.spec_place(f) == *p);
            } else if q.order() <= f.order() {
                assert(u.spec_place(f) == Unit::mult(u, f));
                assert(u.spec_place(f).has(g) == (u.has(g) || f.has(g)));
            } else {
                lemma_place_has(*p, f, g);
                let inner = p.spec_place(f);
                assert(u.spec_place(f) == inner.spec_join(*q));
                assert(inner.spec_join(*q).has(g) ==> inner.has(g) || q.has(g));
            }
        },
        Unit::Unitless(_) => {},
        _ => {
            if u.cancels(f) {
            } else if u.order() <= f.order() {
                assert(u.spec_place(f) == Unit::mult(u, f));
                assert(u.spec_place(f).has(g) == (u.has(g) || f.has(g)));
            } else {
                assert(u.spec_place(f) == Unit::mult(f, u));
                assert(u.spec_place(f).has(g) == (f.has(g) || u.has(g)));
            }
        },
    }
}

/// Placing a factor into a canonical chain gives a canonical chain.
pub proof fn lemma_place_canonical(u: Unit, f: Unit)
    requires
        u.canonical(),
        f.is_factor(),
    ensures
        u.spec_place(f).canonical(),
    decreases u,
{
    match u {
        Unit::Mult(Mult(p, q)) => {
            if q.cancels(f) {
                assert(u.spec_place(f) == *p);
            } else if q.order() <= f.order() {
                assert(u.spec_place(f) == Unit::mult(u, f));
                assert(u.outer() == *q);
                assert(Unit::mult(u, f).canonical());
            } else {
                lemma_place_canonical(*p, f);
                let inner = p.spec_place(f);
                assert(u.spec_place(f) == inner.spec_join(*q));
                if inner is Unitless {
                    assert(inner.spec_join(*q) == *q);
                    assert(q.canonical());
                } else {
                    let g = inner.outer();
                    lemma_has_outer(inner);
                    lemma_place_has(*p, f, g);
                    if p.has(g) {
                        lemma_canonical_bound(*p, g);
                        if g.cancels(*q) {
                            lemma_rank_injective(p.outer().atom(), q.atom());
                        }
                    }
                    assert(g.order() <= q.order());
                    assert(!g.cancels(*q));
                    assert(inner.spec_join(*q) == Unit::mult(inner, *q));
                    assert(Unit::mult(inner, *q).canonical());
                }
            }
        },
        Unit::Unitless(_) => {
            assert(u.spec_place(f) == f);
        },
        _ => {
            if u.cancels(f) {
                assert(u.spec_place(f) == Unit::unitless());
            } else if u.order() <= f.order() {
                assert(u.spec_place(f) == Unit::mult(u, f));
                assert(Unit::mult(u, f).canonical());
            } else {
                assert(u.spec_place(f) == Unit::mult(f, u));
                assert(f.atom() != u.atom());
                assert(!f.cancels(u));
                assert(f.canonical());
                assert(Unit::mult(f, u).canonical());
            }
        },
    }
}

/// Placing a factor adds its exponents.
pub proof fn lemma_place_exponent(u: Unit, f: Unit, atom: BaseUnit)
    requires
        f.is_factor(),
    ensures
        u.spec_place(f).exponent(atom) == u.exponent(atom) + f.exponent(atom),
    decreases u,
{
    match u {
        Unit::Mult(Mult(p, q)) => {
            if q.cancels(f) {
                assert(u.spec_place(f) == *p);
                assert(q.exponent(atom) + f.exponent(atom) == 0);
            } else if q.order() <= f.order() {
                assert(u.spec_place(f) == Unit::mult(u, f));
            } else {
                lemma_place_exponent(*p, f, atom);
                let inner = p.spec_place(f);
                assert(u.spec_place(f) == inner.spec_join(*q));
                assert(inner.spec_join(*q).exponent(atom) == inner.exponent(atom) + q.exponent(
                    atom,
                ));
            }
        },
        Unit::Unitless(_) => {},
        _ => {
            if u.cancels(f) {
                assert(u.exponent(atom) + f.exponent(atom) == 0);
            } else if u.order() <= f.order() {
                assert(u.spec_place(f) == Unit::mult(u, f));
            } else {
                assert(u.spec_place(f) == Unit::mult(f, u));
            }
        },
    }
}

/// Absorbing any expression into a canonical chain gives a canonical chain.
pub proof fn lemma_absorb_canonical(u: Unit, expr: Unit)
    requires
        u.canonical(),
    ensures
        u.spec_absorb(expr).canonical(),
    decreases expr,
{
    match expr {
        Unit::Unitless(_) => {},
        Unit::Mult(Mult(a, b)) => {
            lemma_absorb_canonical(u, *a);
            lemma_absorb_canonical(u.spec_absorb(*a), *b);
        },
        _ => {
            lemma_place_canonical(u, expr);
        },
    }
}

/// Absorbing an expression adds its exponents.
pub proof fn lemma_absorb_exponent(u: Unit, expr: Unit, atom: BaseUnit)
    ensures
        u.spec_absorb(expr).exponent(atom) == u.exponent(atom) + expr.exponent(atom),
    decreases expr,
{
    match expr {
        Unit::Unitless(_) => {},
        Unit::Mult(Mult(a, b)) => {
            lemma_absorb_exponent(u, *a, atom);
            lemma_absorb_exponent(u.spec_absorb(*a), *b, atom);
        },
        _ => {
            lemma_place_exponent(u, expr, atom);
        },
    }
}

/// In a canonical chain that is not empty, the base unit of the outermost
/// factor has an exponent of that factor's sign, and every base unit that
/// comes after it has the exponent zero.
pub proof fn lemma_canonical_top(u: Unit, later: BaseUnit)
    requires
        u.canonical(),
        !(u is Unitless),
    ensures
        u.outer().is_factor(),
        u.outer() is Base ==> u.exponent(u.outer().atom()) > 0,
        u.outer() is Inverse ==> u.exponent(u.outer().atom()) < 0,
        later.spec_rank() > u.outer().order() ==> u.exponent(later) == 0,
{
    let q = u.outer();
    let x = q.atom();
    lemma_has_outer(u);
    if later.spec_rank() > q.order() {
        if u.has(Unit::base(later)) {
            lemma_canonical_bound(u, Unit::base(later));
        }
        if u.has(Unit::inverse(later)) {
            lemma_canonical_bound(u, Unit::inverse(later));
        }
        lemma_exponent_sign(u, later);
    }
    match u {
        Unit::Mult(Mult(p, _)) => {
            lemma_canonical_reduced(u);
            lemma_exponent_sign(*p, x);
            if q is Base {
                assert(q.spec_invert() == Unit::inverse(x));
                assert(q.exponent(x) == 1);
            } else {
                assert(q.spec_invert() == Unit::base(x));
                assert(q.exponent(x) == -1);
            }
        },
        _ => {},
    }
}

/// There is only one canonical unit of each dimension.
pub proof fn lemma_canonical_unique(a: Unit, b: Unit)
    requires
        a.canonical(),
        b.canonical(),
        a.same_dimension(b),
    ensures
        a == b,
    decreases a,
{
    let one = Unit::unitless();
    if a is Unitless {
        lemma_canonical_reduced(b);
        assert forall|atom: BaseUnit| b.exponent(atom) == one.exponent(atom) by {
            assert(a.exponent(atom) == b.exponent(atom));
        }
        lemma_dimensionless_is_unitless(b);
    } else if b is Unitless {
        lemma_canonical_reduced(a);
        assert forall|atom: BaseUnit| a.exponent(atom) == one.exponent(atom) by {
            assert(a.exponent(atom) == b.exponent(atom));
        }
        lemma_dimensionless_is_unitless(a);
    } else {
        let qa = a.outer();
        let qb = b.outer();
        let xa = qa.atom();
        let xb = qb.atom();
        lemma_canonical_top(a, xb);
        lemma_canonical_top(b, xa);
        assert(a.exponent(xa) == b.exponent(xa));
        assert(a.exponent(xb) == b.exponent(xb));
        lemma_rank_injective(xa, xb);
        assert(xa == xb);
        assert(qa == qb);
        match (a, b) {
            (Unit::Mult(Mult(pa, _)), Unit::Mult(Mult(pb, _))) => {
                assert forall|atom: BaseUnit| pa.exponent(atom) == pb.exponent(atom) by {
                    assert(a.exponent(atom) == b.exponent(atom));
                }
                lemma_canonical_unique(*pa, *pb);
            },
            (Unit::Mult(Mult(pa, _)), _) => {
                lemma_canonical_reduced(*pa);
                assert forall|atom: BaseUnit| pa.exponent(atom) == one.exponent(atom) by {
                    assert(a.exponent(atom) == b.exponent(atom));
                }
                lemma_dimensionless_is_unitless(*pa);
            },
            (_, Unit::Mult(Mult(pb, _))) => {
                lemma_canonical_reduced(*pb);
                assert forall|atom: BaseUnit| pb.exponent(atom) == one.exponent(atom) by {
                    assert(a.exponent(atom) == b.exponent(atom));
                }
                lemma_dimensionless_is_unitless(*pb);
            },
            _ => {},
        }
    }
}

/// The canonical form of an expression is canonical and has the dimension
/// of the expression; a canonical unit is its own canonical form.
pub proof fn lemma_normalize(u: Unit)
    ensures
        u.spec_normalize().canonical(),
        u.spec_normalize().same_dimension(u),
        u.canonical() ==> u.spec_normalize() == u,
{
    let one = Unit::unitless();
    lemma_absorb_canonical(one, u);
    assert forall|atom: BaseUnit| u.spec_normalize().exponent(atom) == u.exponent(atom) by {
        lemma_absorb_exponent(one, u, atom);
    }
    if u.canonical() {
        lemma_canonical_unique(u.spec_normalize(), u);
    }
}

/// Two units are convertible exactly when they have the same dimension.
pub proof fn lemma_convertible(u: Unit, w: Unit)
    ensures
        u.spec_convertible(w) == u.same_dimension(w),
{
    let one = Unit::unitless();
    let d = u.spec_divide(w);
    let n = d.spec_normalize();
    lemma_divide(u, w);
    lemma_normalize(d);
    if u.same_dimension(w) {
        assert forall|atom: BaseUnit| n.exponent(atom) == one.exponent(atom) by {
            assert(n.exponent(atom) == d.exponent(atom));
            assert(d.exponent(atom) == u.exponent(atom) - w.exponent(atom));
        }
        lemma_canonical_reduced(n);
        lemma_dimensionless_is_unitless(n);
    }
    if n is Unitless {
        assert forall|atom: BaseUnit| u.exponent(atom) == w.exponent(atom) by {
            assert(n.exponent(atom) == d.exponent(atom));
            assert(d.exponent(atom) == u.exponent(atom) - w.exponent(atom));
        }
    }
}

/// A unit has the dimension of a base unit exactly when that base unit is
/// its canonical form.
pub proof fn lemma_base_dimension(u: Unit, atom: BaseUnit)
    ensures
        u.same_dimension(Unit::base(atom)) == (u.spec_normalize() == Unit::base(atom)),
{
    let b = Unit::base(atom);
    lemma_normalize(u);
    lemma_normalize(b);
    let n = u.spec_normalize();
    if u.same_dimension(b) {
        assert forall|x: BaseUnit| n.exponent(x) == b.exponent(x) by {
            assert(n.exponent(x) == u.exponent(x));
            assert(u.exponent(x) == b.exponent(x));
        }
        lemma_canonical_unique(n, b);
    }
    if n == b {
        assert forall|x: BaseUnit| u.exponent(x) == b.exponent(x) by {
            assert(n.exponent(x) == u.exponent(x));
        }
    }
}

} // verus!
