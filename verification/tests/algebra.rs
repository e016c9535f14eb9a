use unit_algebra::base::{BaseUnit, Dimension, Inverse, Invert, Mult, Unit, Unitless};

const ATOMS: [BaseUnit; 7] = [
    BaseUnit::Second,
    BaseUnit::Meter,
    BaseUnit::Gram,
    BaseUnit::Ampere,
    BaseUnit::Kelvin,
    BaseUnit::Mole,
    BaseUnit::Candela,
];

fn atom(a: BaseUnit) -> Unit {
    Unit::base(a)
}

fn inv(a: BaseUnit) -> Unit {
    Unit::inverse(a)
}

fn pair(u: Unit, v: Unit) -> Unit {
    Unit::mult(u, v)
}

fn second() -> Unit {
    atom(BaseUnit::Second)
}

fn meter() -> Unit {
    atom(BaseUnit::Meter)
}

fn gram() -> Unit {
    atom(BaseUnit::Gram)
}

#[test]
fn useability() {
    let a = second();
    let b = second();
    let d = second();
    let c = (a * b) / d;
    assert_eq!(c, second());
    assert_eq!(Unit::unitless() / second(), Unit::Inverse(Inverse(BaseUnit::Second)));
}

#[test]
fn constructors_build_the_four_forms() {
    assert_eq!(Unit::unitless(), Unit::Unitless(Unitless));
    assert_eq!(atom(BaseUnit::Mole), Unit::Base(BaseUnit::Mole));
    assert_eq!(inv(BaseUnit::Mole), Unit::Inverse(Inverse(BaseUnit::Mole)));
    assert_eq!(
        pair(meter(), second()),
        Unit::Mult(Mult(Box::new(meter()), Box::new(second())))
    );
}

#[test]
fn unitless_is_the_identity_for_every_atom() {
    for a in ATOMS {
        assert_eq!(atom(a).multiply(Unit::unitless()), atom(a));
        assert_eq!(Unit::unitless().multiply(atom(a)), atom(a));
        assert_eq!(atom(a).divide(atom(a)), Unit::unitless());
    }
}

#[test]
fn unitless_leaves_compound_units_unchanged() {
    let speed = meter().divide(second());
    assert_eq!(speed.clone().multiply(Unit::unitless()), speed);
    assert_eq!(Unit::unitless().multiply(speed.clone()), speed);
    assert_eq!(speed.clone().divide(Unit::unitless()), speed);
    assert_eq!(Unit::unitless().multiply(Unit::unitless()), Unit::unitless());
}

#[test]
fn unitless_divided_by_a_unit_is_its_reciprocal() {
    for a in ATOMS {
        assert_eq!(Unit::unitless().divide(atom(a)), inv(a));
        assert_eq!(Unit::unitless().divide(inv(a)), atom(a));
    }
    assert_eq!(
        Unit::unitless().divide(pair(meter(), second())),
        pair(inv(BaseUnit::Meter), inv(BaseUnit::Second))
    );
}

#[test]
fn double_inversion_gives_the_unit_back() {
    let units = vec![
        Unit::unitless(),
        meter(),
        inv(BaseUnit::Kelvin),
        pair(meter(), inv(BaseUnit::Second)),
        pair(pair(gram(), meter()), pair(inv(BaseUnit::Second), inv(BaseUnit::Second))),
    ];
    for u in units {
        assert_eq!(u.clone().invert().invert(), u);
    }
}

#[test]
fn invert_swaps_atoms_and_reciprocals_slot_by_slot() {
    assert_eq!(Unit::unitless().invert(), Unit::unitless());
    assert_eq!(meter().invert(), inv(BaseUnit::Meter));
    assert_eq!(inv(BaseUnit::Meter).invert(), meter());
    assert_eq!(
        pair(meter(), inv(BaseUnit::Second)).invert(),
        pair(inv(BaseUnit::Meter), second())
    );
}

#[test]
fn typed_inversions() {
    assert_eq!(BaseUnit::Ampere.invert(), Inverse(BaseUnit::Ampere));
    assert_eq!(Inverse(BaseUnit::Ampere).invert(), BaseUnit::Ampere);
    assert_eq!(BaseUnit::Ampere.invert().invert(), BaseUnit::Ampere);
    let m = Mult(Box::new(meter()), Box::new(inv(BaseUnit::Second)));
    assert_eq!(
        m.invert(),
        Mult(Box::new(inv(BaseUnit::Meter)), Box::new(second()))
    );
}

#[test]
fn two_atoms_multiply_to_their_pair_in_order() {
    assert_eq!(meter().multiply(second()), pair(meter(), second()));
    assert_eq!(second().multiply(meter()), pair(second(), meter()));
    assert_eq!(meter().multiply(meter()), pair(meter(), meter()));
}

#[test]
fn a_unit_times_its_reciprocal_is_unitless() {
    for a in ATOMS {
        assert_eq!(atom(a).multiply(inv(a)), Unit::unitless());
        assert_eq!(inv(a).multiply(atom(a)), Unit::unitless());
    }
}

#[test]
fn a_new_factor_goes_to_the_inner_slot() {
    // Mult(U, V) * W is Mult(U * W, V)
    let uv = pair(second(), meter());
    assert_eq!(uv.multiply(gram()), pair(pair(second(), gram()), meter()));
    let chain = pair(pair(second(), gram()), meter());
    assert_eq!(
        chain.multiply(inv(BaseUnit::Kelvin)),
        pair(pair(pair(second(), inv(BaseUnit::Kelvin)), gram()), meter())
    );
}

#[test]
fn a_reciprocal_cancels_where_it_is_found() {
    let chain = pair(pair(second(), gram()), meter());
    // in the outer slot
    assert_eq!(chain.clone().multiply(inv(BaseUnit::Meter)), pair(second(), gram()));
    // in an inner slot
    assert_eq!(chain.clone().multiply(inv(BaseUnit::Gram)), pair(second(), meter()));
    // at the head
    assert_eq!(chain.clone().multiply(inv(BaseUnit::Second)), pair(gram(), meter()));
    // the head of a pair
    assert_eq!(pair(second(), meter()).multiply(inv(BaseUnit::Second)), meter());
    // a reciprocal in the chain meets the plain unit
    assert_eq!(pair(meter(), inv(BaseUnit::Second)).multiply(second()), meter());
}

#[test]
fn the_outermost_match_is_the_one_that_cancels() {
    let chain = pair(pair(meter(), second()), meter());
    assert_eq!(chain.multiply(inv(BaseUnit::Meter)), pair(meter(), second()));
}

#[test]
fn a_product_on_the_right_is_distributed() {
    // Mult(U, V) * Mult(A, B) is (Mult(U, V) * B) * A
    let left = pair(second(), meter());
    let right = pair(gram(), atom(BaseUnit::Kelvin));
    let expected = left
        .clone()
        .multiply(atom(BaseUnit::Kelvin))
        .multiply(gram());
    assert_eq!(left.multiply(right), expected);
    assert_eq!(
        expected,
        pair(pair(pair(second(), gram()), atom(BaseUnit::Kelvin)), meter())
    );
}

#[test]
fn regrouping_three_atoms_gives_the_same_unit() {
    for a in ATOMS {
        for b in ATOMS {
            for c in ATOMS {
                let left = atom(a).multiply(atom(b)).multiply(atom(c));
                let right = atom(a).multiply(atom(b).multiply(atom(c)));
                assert_eq!(left, right);
            }
        }
    }
    assert_eq!(
        second().multiply(meter().multiply(gram())),
        pair(pair(second(), gram()), meter())
    );
}

#[test]
fn the_order_of_the_factors_shows_in_the_shape_not_in_the_dimension() {
    let one = second().multiply(meter()).multiply(gram());
    let other = second().multiply(gram()).multiply(meter());
    assert_ne!(one, other);
    assert!(one.convertible(&other));
    assert!(other.convertible(&one));
    assert_eq!(one.divide(other), Unit::unitless());
}

#[test]
fn a_unit_divided_by_itself_is_unitless() {
    let units = vec![
        Unit::unitless(),
        meter(),
        inv(BaseUnit::Second),
        meter().divide(second()),
        gram().multiply(meter()).multiply(meter()).divide(second()).divide(second()),
        Unit::unitless().divide(second()).divide(second()).multiply(atom(BaseUnit::Candela)),
    ];
    for u in units {
        assert!(u.is_reduced());
        assert_eq!(u.clone().divide(u), Unit::unitless());
    }
}

#[test]
fn any_expression_over_itself_normalizes_to_unitless() {
    let raw = pair(meter(), pair(second(), pair(inv(BaseUnit::Meter), gram())));
    assert!(!raw.is_reduced());
    let whole = pair(raw.clone(), raw.clone().invert());
    assert_eq!(whole.normalize(), Unit::unitless());
    let n = raw.normalize();
    assert_eq!(n.clone().divide(n), Unit::unitless());
}

#[test]
fn normalize_orders_the_factors_by_base_unit() {
    let raw = pair(gram(), pair(meter(), second()));
    assert_eq!(raw.normalize(), pair(pair(second(), meter()), gram()));
    let force = gram().multiply(meter()).divide(second()).divide(second());
    assert_eq!(
        force.normalize(),
        pair(
            pair(pair(inv(BaseUnit::Second), inv(BaseUnit::Second)), meter()),
            gram()
        )
    );
    assert_eq!(pair(meter(), inv(BaseUnit::Meter)).normalize(), Unit::unitless());
    assert_eq!(pair(Unit::unitless(), meter()).normalize(), meter());
    assert_eq!(pair(meter(), Unit::unitless()).normalize(), meter());
    assert_eq!(
        pair(pair(meter(), second()), pair(inv(BaseUnit::Second), meter())).normalize(),
        pair(meter(), meter())
    );
    assert_eq!(Unit::unitless().normalize(), Unit::unitless());
    assert_eq!(inv(BaseUnit::Candela).normalize(), inv(BaseUnit::Candela));
}

#[test]
fn normalize_leaves_canonical_units_as_they_are() {
    let units = vec![
        Unit::unitless(),
        meter(),
        pair(second(), meter()),
        pair(pair(inv(BaseUnit::Second), inv(BaseUnit::Second)), meter()),
        pair(pair(second(), meter()), gram()),
    ];
    for u in units {
        assert!(u.is_canonical());
        assert_eq!(u.clone().normalize(), u);
    }
    let raw = pair(gram(), pair(meter(), second()));
    let n = raw.normalize();
    assert!(n.is_canonical());
    assert_eq!(n.clone().normalize(), n);
}

#[test]
fn the_canonical_form_does_not_depend_on_the_order_of_operations() {
    let one = second().multiply(meter()).multiply(gram());
    let other = gram().multiply(second()).multiply(meter());
    let third = meter().multiply(gram().multiply(second()));
    assert_ne!(one, other);
    assert_eq!(one.clone().normalize(), other.clone().normalize());
    assert_eq!(one.clone().normalize(), third.normalize());
    let a = meter().divide(second()).divide(second()).multiply(gram());
    let b = gram().divide(second()).multiply(meter()).divide(second());
    assert_eq!(a.normalize(), b.normalize());
    for x in ATOMS {
        for y in ATOMS {
            assert_eq!(
                atom(x).multiply(atom(y)).normalize(),
                atom(y).multiply(atom(x)).normalize()
            );
        }
    }
}

#[test]
fn canonical_forms_are_equal_exactly_for_equal_dimensions() {
    let units = vec![
        Unit::unitless(),
        meter(),
        second(),
        meter().divide(second()),
        Unit::unitless().divide(second()).multiply(meter()),
        meter().multiply(meter()),
        meter().multiply(second()),
        second().multiply(meter()),
        inv(BaseUnit::Meter),
    ];
    for x in &units {
        for y in &units {
            assert_eq!(
                x.clone().normalize() == y.clone().normalize(),
                x.convertible(y)
            );
        }
    }
}

#[test]
fn canonical_form_is_recognised() {
    assert!(Unit::unitless().is_canonical());
    assert!(meter().is_canonical());
    assert!(inv(BaseUnit::Meter).is_canonical());
    assert!(pair(meter(), meter()).is_canonical());
    assert!(pair(second(), meter()).is_canonical());
    assert!(pair(pair(inv(BaseUnit::Second), inv(BaseUnit::Second)), meter()).is_canonical());
    // out of order
    assert!(!pair(meter(), second()).is_canonical());
    assert!(!pair(pair(second(), gram()), meter()).is_canonical());
    assert!(!pair(pair(meter(), second()), meter()).is_canonical());
    // a factor beside its reciprocal
    assert!(!pair(meter(), inv(BaseUnit::Meter)).is_canonical());
    assert!(!pair(pair(second(), meter()), inv(BaseUnit::Meter)).is_canonical());
    // an outer slot that is no factor
    assert!(!pair(second(), pair(meter(), gram())).is_canonical());
    assert!(!pair(meter(), Unit::unitless()).is_canonical());
    // an empty inner part
    assert!(!pair(Unit::unitless(), meter()).is_canonical());
    // an inner part that is not canonical
    assert!(!pair(pair(meter(), second()), gram()).is_canonical());
}

#[test]
fn a_canonical_unit_is_reduced() {
    let units = vec![
        Unit::unitless(),
        meter(),
        pair(second(), meter()),
        pair(pair(inv(BaseUnit::Second), inv(BaseUnit::Second)), meter()),
    ];
    for u in units {
        assert!(u.is_canonical());
        assert!(u.is_reduced());
    }
    // reduced, but not in order
    assert!(pair(meter(), second()).is_reduced());
    assert!(!pair(meter(), second()).is_canonical());
}

#[test]
fn base_units_are_ranked_in_order() {
    for (i, a) in ATOMS.iter().enumerate() {
        assert_eq!(a.rank() as usize, i);
    }
}

#[test]
fn reduced_form_is_recognised() {
    assert!(Unit::unitless().is_reduced());
    assert!(meter().is_reduced());
    assert!(inv(BaseUnit::Meter).is_reduced());
    assert!(pair(meter(), meter()).is_reduced());
    assert!(pair(pair(meter(), inv(BaseUnit::Second)), inv(BaseUnit::Second)).is_reduced());
    // a factor beside its reciprocal
    assert!(!pair(meter(), inv(BaseUnit::Meter)).is_reduced());
    assert!(!pair(pair(inv(BaseUnit::Meter), second()), meter()).is_reduced());
    // an outer slot that is no factor
    assert!(!pair(meter(), pair(second(), gram())).is_reduced());
    assert!(!pair(meter(), Unit::unitless()).is_reduced());
    // an empty inner part
    assert!(!pair(Unit::unitless(), meter()).is_reduced());
}

#[test]
fn the_operations_keep_units_reduced() {
    let speed = meter().divide(second());
    let force = gram().multiply(meter()).divide(second()).divide(second());
    assert!(speed.is_reduced());
    assert!(force.is_reduced());
    assert!(force.clone().multiply(speed.clone()).is_reduced());
    assert!(force.clone().divide(speed.clone()).is_reduced());
    assert!(force.invert().is_reduced());
}

#[test]
fn convertible_means_same_dimension() {
    let speed = meter().divide(second());
    let also_speed = Unit::unitless().divide(second()).multiply(meter());
    assert_ne!(speed, also_speed);
    assert!(speed.convertible(&also_speed));
    assert!(also_speed.convertible(&speed));
    assert!(speed.convertible(&speed));
    assert!(!speed.convertible(&meter()));
    assert!(!meter().convertible(&speed));
    assert!(!meter().convertible(&Unit::unitless()));
    assert!(Unit::unitless().convertible(&Unit::unitless()));
    assert!(!meter().convertible(&pair(meter(), meter())));
}

#[test]
fn convertible_units_stay_convertible_under_one_more_factor() {
    let speed = meter().divide(second());
    let also_speed = Unit::unitless().divide(second()).multiply(meter());
    let factors = vec![gram(), inv(BaseUnit::Second), meter().multiply(meter()), speed.clone()];
    for w in factors {
        let left = speed.clone().multiply(w.clone());
        let right = also_speed.clone().multiply(w.clone());
        assert!(left.convertible(&right));
        let left = speed.clone().divide(w.clone());
        let right = also_speed.clone().divide(w.clone());
        assert!(left.convertible(&right));
    }
}

#[test]
fn convertibility_is_an_equivalence() {
    let units = vec![
        meter().divide(second()),
        Unit::unitless().divide(second()).multiply(meter()),
        meter(),
        second().multiply(meter()),
        meter().multiply(second()),
        Unit::unitless(),
    ];
    for x in &units {
        assert!(x.convertible(x));
        for y in &units {
            assert_eq!(x.convertible(y), y.convertible(x));
            for z in &units {
                if x.convertible(y) && y.convertible(z) {
                    assert!(x.convertible(z));
                }
            }
        }
    }
}

#[test]
fn distinct_atoms_are_not_convertible() {
    for a in ATOMS {
        for b in ATOMS {
            assert_eq!(atom(a).convertible(&atom(b)), a == b);
        }
    }
}

#[test]
fn each_atom_is_the_base_of_its_dimension() {
    let dimensions = [
        Dimension::Time,
        Dimension::Length,
        Dimension::Mass,
        Dimension::Current,
        Dimension::Temperature,
        Dimension::Amount,
        Dimension::LuminousIntensity,
    ];
    for (a, d) in ATOMS.iter().zip(dimensions.iter()) {
        assert_eq!(a.dimension(), *d);
        assert_eq!(d.base(), *a);
        assert_eq!(atom(*a).dimension(), Some(*d));
    }
    assert_eq!(Unit::unitless().dimension(), None);
    assert_eq!(inv(BaseUnit::Meter).dimension(), None);
    assert_eq!(pair(meter(), meter()).dimension(), None);
    assert_eq!(meter().divide(second()).dimension(), None);
}

#[test]
fn a_unit_measures_the_dimension_it_reduces_to() {
    let length = meter().multiply(second()).divide(second());
    assert_eq!(length.dimension(), Some(Dimension::Length));
    assert_eq!(pair(meter(), Unit::unitless()).dimension(), Some(Dimension::Length));
    assert_eq!(
        pair(inv(BaseUnit::Second), pair(second(), second())).dimension(),
        Some(Dimension::Time)
    );
    assert_eq!(
        pair(meter(), pair(meter(), inv(BaseUnit::Meter))).dimension(),
        Some(Dimension::Length)
    );
}

#[test]
fn convertibility_does_not_depend_on_the_shape() {
    let raw = pair(meter(), pair(second(), gram()));
    let built = second().multiply(meter()).multiply(gram());
    assert!(!raw.is_reduced());
    assert!(raw.convertible(&built));
    assert!(built.convertible(&raw));
    assert!(pair(meter(), inv(BaseUnit::Meter)).convertible(&Unit::unitless()));
    assert!(!raw.convertible(&meter()));
}

#[test]
fn units_render_as_text() {
    assert_eq!(Unit::unitless().render(), "Unitless");
    assert_eq!(meter().render(), "Meters");
    assert_eq!(inv(BaseUnit::Second).render(), "1/Seconds");
    assert_eq!(pair(meter(), meter()).render(), "Meters * Meters");
    assert_eq!(
        meter().divide(second()).divide(second()).render(),
        "Meters * 1/Seconds * 1/Seconds"
    );
}

#[test]
fn atoms_have_names() {
    let names = ["Second", "Meter", "Gram", "Ampere", "Kelvin", "Mole", "Candela"];
    for (a, n) in ATOMS.iter().zip(names.iter()) {
        assert_eq!(a.name(), *n);
        assert_eq!(a.plural(), format!("{}s", n));
    }
}

#[test]
fn a_clone_is_equal_to_its_source() {
    let force = gram().multiply(meter()).divide(second()).divide(second());
    assert_eq!(force.clone(), force);
    let m = Mult(Box::new(meter()), Box::new(second()));
    assert_eq!(m.clone(), m);
}

fn exponents(u: &Unit) -> [i32; 7] {
    match u {
        Unit::Unitless(_) => [0; 7],
        Unit::Base(a) => {
            let mut e = [0; 7];
            e[a.rank() as usize] = 1;
            e
        }
        Unit::Inverse(Inverse(a)) => {
            let mut e = [0; 7];
            e[a.rank() as usize] = -1;
            e
        }
        Unit::Mult(Mult(u, v)) => {
            let a = exponents(u);
            let b = exponents(v);
            let mut e = [0; 7];
            for i in 0..7 {
                e[i] = a[i] + b[i];
            }
            e
        }
    }
}

fn next(seed: &mut u64) -> u64 {
    *seed = seed
        .wrapping_mul(6364136223846793005)
        .wrapping_add(1442695040888963407);
    *seed >> 33
}

fn sample(seed: &mut u64, depth: u32) -> Unit {
    let pick = next(seed) % 5;
    if depth == 0 || pick < 2 {
        let a = ATOMS[(next(seed) % 7) as usize];
        match next(seed) % 5 {
            0 => Unit::unitless(),
            1 | 2 => atom(a),
            _ => inv(a),
        }
    } else {
        let left = sample(seed, depth - 1);
        let right = sample(seed, depth - 1);
        match pick {
            2 => left.multiply(right),
            3 => left.divide(right),
            _ => left.invert().multiply(right),
        }
    }
}

#[test]
fn products_and_quotients_add_and_subtract_exponents() {
    let mut seed = 7;
    for _ in 0..300 {
        let x = sample(&mut seed, 4);
        let y = sample(&mut seed, 4);
        assert!(x.is_reduced());
        assert!(y.is_reduced());
        let ex = exponents(&x);
        let ey = exponents(&y);
        let product = x.clone().multiply(y.clone());
        let quotient = x.clone().divide(y.clone());
        let reciprocal = x.clone().invert();
        assert!(product.is_reduced());
        assert!(quotient.is_reduced());
        assert!(reciprocal.is_reduced());
        for i in 0..7 {
            assert_eq!(exponents(&product)[i], ex[i] + ey[i]);
            assert_eq!(exponents(&quotient)[i], ex[i] - ey[i]);
            assert_eq!(exponents(&reciprocal)[i], -ex[i]);
        }
        assert_eq!(x.clone().divide(x.clone()), Unit::unitless());
        assert_eq!(x.convertible(&y), ex == ey);
        assert_eq!(quotient == Unit::unitless(), ex == ey);
    }
}

#[test]
fn the_canonical_form_is_decided_by_the_exponents() {
    let mut seed = 11;
    let mut seen: Vec<([i32; 7], Unit)> = Vec::new();
    for _ in 0..300 {
        let x = sample(&mut seed, 3);
        let raw = pair(sample(&mut seed, 2), pair(x.clone(), sample(&mut seed, 2)));
        for u in [x, raw] {
            let e = exponents(&u);
            let n = u.clone().normalize();
            assert!(n.is_canonical());
            assert!(n.is_reduced());
            assert_eq!(exponents(&n), e);
            assert_eq!(n.clone().normalize(), n);
            for (other, form) in &seen {
                assert_eq!(*form == n, *other == e);
            }
            seen.push((e, n));
        }
    }
}

#[test]
fn an_unreduced_expression_over_itself_needs_the_canonical_form() {
    let raw = pair(meter(), pair(second(), gram()));
    let quotient = raw.clone().divide(raw.clone());
    assert_ne!(quotient, Unit::unitless());
    assert_eq!(quotient.normalize(), Unit::unitless());
    assert!(raw.convertible(&raw));
}
