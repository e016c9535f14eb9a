//! Laws of the unit algebra and of the prefixes.

use crate::base::{BaseUnit, Mult, Unit};
use crate::canonical::{
    lemma_canonical_reduced, lemma_canonical_unique, lemma_convertible, lemma_normalize,
};
use crate::reduced::{
    lemma_divide, lemma_invert_exponent, lemma_multiply_exponent, lemma_quotient,
};
use crate::prefix::Prefix;
use vstd::prelude::*;

verus! {

/// `Unitless` is the identity: multiplying a base unit by it, on either
/// side, gives the base unit, and a base unit divided by itself is
/// `Unitless`.
pub proof fn law_identity(atom: BaseUnit)
    ensures
        Unit::base(atom).spec_multiply(Unit::unitless()) == Unit::base(atom),
        Unit::unitless().spec_multiply(Unit::base(atom)) == Unit::base(atom),
        Unit::base(atom).spec_divide(Unit::base(atom)) == Unit::unitless(),
        Unit::base(atom).spec_convertible(Unit::base(atom)),
{
    lemma_convertible(Unit::base(atom), Unit::base(atom));
}

/// `Unitless` is the identity for every unit, and dividing it by a unit
/// gives the reciprocal of that unit.
pub proof fn law_unitless(u: Unit)
    ensures
        u.spec_multiply(Unit::unitless()) == u,
        Unit::unitless().spec_multiply(u) == u,
        Unit::unitless().spec_divide(u) == u.spec_invert(),
{
    let r = u.spec_invert();
    assert(Unit::unitless().spec_multiply(r) == r);
}

/// Inverting twice gives back the same expression, slot for slot.
pub proof fn law_double_inversion(u: Unit)
    ensures
        u.spec_invert().spec_invert() == u,
    decreases u,
{
    match u {
        Unit::Mult(Mult(p, q)) => {
            law_double_inversion(*p);
            law_double_inversion(*q);
        },
        _ => {},
    }
}

/// The reciprocal of a base unit cancels it, in either order.
pub proof fn law_reciprocal_cancels(atom: BaseUnit)
    ensures
        Unit::base(atom).spec_multiply(Unit::inverse(atom)) == Unit::unitless(),
        Unit::inverse(atom).spec_multiply(Unit::base(atom)) == Unit::unitless(),
{
}

/// Two base units multiply to the pair of them, in the order given.
pub proof fn law_base_product(a: BaseUnit, b: BaseUnit)
    ensures
        Unit::base(a).spec_multiply(Unit::base(b)) == Unit::mult(Unit::base(a), Unit::base(b)),
{
}

/// A factor multiplied into a product goes to the inner slot, unless the
/// outer slot holds its reciprocal, which is then removed.
pub proof fn law_insertion(u: Unit, v: Unit, w: Unit)
    requires
        w.is_factor(),
        !(u is Unitless),
    ensures
        v.cancels(w) ==> Unit::mult(u, v).spec_multiply(w) == u,
        !v.cancels(w) && !(u.spec_multiply(w) is Unitless) ==> Unit::mult(u, v).spec_multiply(w)
            == Unit::mult(u.spec_multiply(w), v),
        !v.cancels(w) && u.spec_multiply(w) is Unitless ==> Unit::mult(u, v).spec_multiply(w)
            == v,
{
}

/// A product multiplied by a product takes in the outer slot of the right
/// operand first and what is left of it afterwards.
pub proof fn law_distribution(u: Unit, v: Unit, a: Unit, b: Unit)
    ensures
        Unit::mult(u, v).spec_multiply(Unit::mult(a, b))
            == Unit::mult(u, v).spec_multiply(b).spec_multiply(a),
{
}

/// Regrouping a product of three base units does not change the result:
/// `(a * b) * c` and `a * (b * c)` are the same expression.
pub proof fn law_regrouping(a: BaseUnit, b: BaseUnit, c: BaseUnit)
    ensures
        Unit::base(a).spec_multiply(Unit::base(b)).spec_multiply(Unit::base(c)) == Unit::base(
            a,
        ).spec_multiply(Unit::base(b).spec_multiply(Unit::base(c))),
{
    let ab = Unit::base(a).spec_multiply(Unit::base(b));
    let bc = Unit::base(b).spec_multiply(Unit::base(c));
    assert(bc == Unit::mult(Unit::base(b), Unit::base(c)));
    assert(Unit::base(a).spec_multiply(bc) == ab.spec_multiply(Unit::base(c)));
}

/// However a product of three units is grouped, and in whatever order its
/// operands come, it has the same dimension.
pub proof fn law_regrouping_dimension(x: Unit, y: Unit, z: Unit)
    ensures
        x.spec_multiply(y).spec_multiply(z).same_dimension(x.spec_multiply(y.spec_multiply(z))),
        x.spec_multiply(y).same_dimension(y.spec_multiply(x)),
{
    assert forall|atom: BaseUnit|
        x.spec_multiply(y).spec_multiply(z).exponent(atom) == x.spec_multiply(
            y.spec_multiply(z),
        ).exponent(atom) by {
        lemma_multiply_exponent(x, y, atom);
        lemma_multiply_exponent(x.spec_multiply(y), z, atom);
        lemma_multiply_exponent(y, z, atom);
        lemma_multiply_exponent(x, y.spec_multiply(z), atom);
    }
    assert forall|atom: BaseUnit|
        x.spec_multiply(y).exponent(atom) == y.spec_multiply(x).exponent(atom) by {
        lemma_multiply_exponent(x, y, atom);
        lemma_multiply_exponent(y, x, atom);
    }
}

/// A reduced unit divided by itself is `Unitless`. Every unit that the
/// operations build from base units is reduced.
pub proof fn law_self_quotient(x: Unit)
    requires
        x.reduced(),
    ensures
        x.spec_divide(x) == Unit::unitless(),
{
    lemma_quotient(x, x);
}

/// Any expression built from base units, reciprocals and products, divided
/// by itself, has the canonical form `Unitless`.
pub proof fn law_self_quotient_normalized(x: Unit)
    ensures
        x.spec_divide(x).spec_normalize() == Unit::unitless(),
        Unit::mult(x, x.spec_invert()).spec_normalize() == Unit::unitless(),
        x.spec_normalize().spec_divide(x.spec_normalize()) == Unit::unitless(),
{
    let whole = Unit::mult(x, x.spec_invert());
    let quotient = x.spec_divide(x);
    lemma_divide(x, x);
    assert forall|atom: BaseUnit| whole.exponent(atom) == Unit::unitless().exponent(atom) by {
        lemma_invert_exponent(x, atom);
    }
    assert forall|atom: BaseUnit| quotient.exponent(atom) == Unit::unitless().exponent(
        atom,
    ) by {
        assert(quotient.exponent(atom) == x.exponent(atom) - x.exponent(atom));
    }
    law_normal_form(quotient, Unit::unitless());
    law_normal_form(whole, Unit::unitless());
    lemma_normalize(Unit::unitless());
    lemma_normalize(x);
    lemma_canonical_reduced(x.spec_normalize());
    law_self_quotient(x.spec_normalize());
}

/// Two expressions have the same canonical form exactly when they have the
/// same dimension: the canonical form is the one representation that all
/// expressions of a dimension share.
pub proof fn law_normal_form(x: Unit, y: Unit)
    ensures
        (x.spec_normalize() == y.spec_normalize()) == x.same_dimension(y),
        x.spec_normalize().spec_normalize() == x.spec_normalize(),
{
    let nx = x.spec_normalize();
    let ny = y.spec_normalize();
    lemma_normalize(x);
    lemma_normalize(y);
    lemma_normalize(nx);
    if x.same_dimension(y) {
        assert forall|atom: BaseUnit| nx.exponent(atom) == ny.exponent(atom) by {
            assert(nx.exponent(atom) == x.exponent(atom));
            assert(ny.exponent(atom) == y.exponent(atom));
            assert(x.exponent(atom) == y.exponent(atom));
        }
        lemma_canonical_unique(nx, ny);
    }
    if nx == ny {
        assert forall|atom: BaseUnit| x.exponent(atom) == y.exponent(atom) by {
            assert(nx.exponent(atom) == x.exponent(atom));
            assert(ny.exponent(atom) == y.exponent(atom));
        }
    }
}

/// The canonical form of a product does not depend on the order or the
/// grouping of its operands, and that of a quotient of products does not
/// depend on the order in which the divisors are applied.
pub proof fn law_order_independence(x: Unit, y: Unit, z: Unit)
    ensures
        x.spec_multiply(y).spec_normalize() == y.spec_multiply(x).spec_normalize(),
        x.spec_multiply(y).spec_multiply(z).spec_normalize() == x.spec_multiply(
            y.spec_multiply(z),
        ).spec_normalize(),
        x.spec_divide(y).spec_divide(z).spec_normalize() == x.spec_divide(z).spec_divide(
            y,
        ).spec_normalize(),
        x.spec_multiply(y).spec_divide(z).spec_normalize() == x.spec_divide(z).spec_multiply(
            y,
        ).spec_normalize(),
{
    law_regrouping_dimension(x, y, z);
    law_normal_form(x.spec_multiply(y), y.spec_multiply(x));
    law_normal_form(
        x.spec_multiply(y).spec_multiply(z),
        x.spec_multiply(y.spec_multiply(z)),
    );
    let dd1 = x.spec_divide(y).spec_divide(z);
    let dd2 = x.spec_divide(z).spec_divide(y);
    let md = x.spec_multiply(y).spec_divide(z);
    let dm = x.spec_divide(z).spec_multiply(y);
    lemma_divide(x, y);
    lemma_divide(x, z);
    lemma_divide(x.spec_divide(y), z);
    lemma_divide(x.spec_divide(z), y);
    lemma_divide(x.spec_multiply(y), z);
    assert forall|atom: BaseUnit| dd1.exponent(atom) == dd2.exponent(atom) by {
        assert(dd1.exponent(atom) == x.spec_divide(y).exponent(atom) - z.exponent(atom));
        assert(dd2.exponent(atom) == x.spec_divide(z).exponent(atom) - y.exponent(atom));
        assert(x.spec_divide(y).exponent(atom) == x.exponent(atom) - y.exponent(atom));
        assert(x.spec_divide(z).exponent(atom) == x.exponent(atom) - z.exponent(atom));
    }
    assert forall|atom: BaseUnit| md.exponent(atom) == dm.exponent(atom) by {
        assert(md.exponent(atom) == x.spec_multiply(y).exponent(atom) - z.exponent(atom));
        assert(x.spec_divide(z).exponent(atom) == x.exponent(atom) - z.exponent(atom));
        lemma_multiply_exponent(x, y, atom);
        lemma_multiply_exponent(x.spec_divide(z), y, atom);
    }
    law_normal_form(dd1, dd2);
    law_normal_form(md, dm);
}

/// Convertibility is the equality of dimensions, which is the equality of
/// canonical forms, and so it is reflexive, symmetric and transitive.
pub proof fn law_convertibility(x: Unit, y: Unit, z: Unit)
    ensures
        x.spec_convertible(y) == x.same_dimension(y),
        x.spec_convertible(y) == (x.spec_normalize() == y.spec_normalize()),
        x.spec_convertible(x),
        x.spec_convertible(y) == y.spec_convertible(x),
        x.spec_convertible(y) && y.spec_convertible(z) ==> x.spec_convertible(z),
{
    law_normal_form(x, y);
    lemma_convertible(x, y);
    lemma_convertible(x, x);
    lemma_convertible(y, x);
    lemma_convertible(y, z);
    lemma_convertible(x, z);
    if x.same_dimension(y) {
        assert forall|atom: BaseUnit| y.exponent(atom) == x.exponent(atom) by {
            assert(x.exponent(atom) == y.exponent(atom));
        }
        if y.same_dimension(z) {
            assert forall|atom: BaseUnit| x.exponent(atom) == z.exponent(atom) by {
                assert(x.exponent(atom) == y.exponent(atom));
                assert(y.exponent(atom) == z.exponent(atom));
            }
        }
    }
    if y.same_dimension(x) {
        assert forall|atom: BaseUnit| x.exponent(atom) == y.exponent(atom) by {
            assert(y.exponent(atom) == x.exponent(atom));
        }
    }
}

/// The quotient of two reduced units is `Unitless` as it stands exactly
/// when the units are convertible.
pub proof fn law_structural_check(x: Unit, y: Unit)
    requires
        x.reduced(),
        y.reduced(),
    ensures
        (x.spec_divide(y) is Unitless) == x.spec_convertible(y),
{
    lemma_quotient(x, y);
    lemma_convertible(x, y);
}

/// Multiplying or dividing both sides by one more unit keeps two units
/// convertible.
pub proof fn law_convertibility_chain(x: Unit, y: Unit, w: Unit)
    requires
        x.spec_convertible(y),
    ensures
        x.spec_multiply(w).spec_convertible(y.spec_multiply(w)),
        x.spec_divide(w).spec_convertible(y.spec_divide(w)),
{
    lemma_convertible(x, y);
    lemma_divide(x, w);
    lemma_divide(y, w);
    lemma_convertible(x.spec_multiply(w), y.spec_multiply(w));
    lemma_convertible(x.spec_divide(w), y.spec_divide(w));
    assert forall|atom: BaseUnit|
        x.spec_multiply(w).exponent(atom) == y.spec_multiply(w).exponent(atom) by {
        lemma_multiply_exponent(x, w, atom);
        lemma_multiply_exponent(y, w, atom);
        assert(x.exponent(atom) == y.exponent(atom));
    }
    assert forall|atom: BaseUnit|
        x.spec_divide(w).exponent(atom) == y.spec_divide(w).exponent(atom) by {
        assert(x.spec_divide(w).exponent(atom) == x.exponent(atom) - w.exponent(atom));
        assert(y.spec_divide(w).exponent(atom) == y.exponent(atom) - w.exponent(atom));
        assert(x.exponent(atom) == y.exponent(atom));
    }
}

/// Different base units are never convertible, and each base unit is
/// the base unit of its own dimension.
pub proof fn law_distinct_atoms(a: BaseUnit, b: BaseUnit)
    ensures
        Unit::base(a).spec_convertible(Unit::base(b)) == (a == b),
        a.spec_dimension().spec_base() == a,
        (a.spec_dimension() == b.spec_dimension()) == (a == b),
{
    lemma_convertible(Unit::base(a), Unit::base(b));
    if a != b {
        assert(Unit::base(a).exponent(a) != Unit::base(b).exponent(a));
    }
}

/// The product of two prefixed units carries the sum of their exponents
/// and the product of their units.
pub proof fn law_prefix_product(a: Prefix, b: Prefix)
    requires
        i32::MIN <= a.exponent + b.exponent <= i32::MAX,
    ensures
        a.spec_multiply(b).exponent == a.exponent + b.exponent,
        a.spec_multiply(b).unit == a.unit.spec_multiply(b.unit),
{
}

/// A payload `p` at the exponent `E` stands for `p` times ten to the power
/// `-E`. A conversion scales the payload by the power of ten that keeps
/// this product: the powers of ten before and after are the same.
pub proof fn law_conversion_keeps_magnitude(a: Prefix, b: Prefix)
    ensures
        a.scale_to(b) + -b.exponent == -a.exponent,
{
}

/// A conversion and the conversion back scale by opposite powers of ten,
/// so that together they scale by ten to the power zero. Conversions in a
/// row scale by the sum of their powers.
pub proof fn law_round_trip_scale(a: Prefix, b: Prefix, c: Prefix)
    ensures
        a.scale_to(b) + b.scale_to(a) == 0,
        a.scale_to(a) == 0,
        a.scale_to(b) + b.scale_to(c) == a.scale_to(c),
{
}

} // verus!
