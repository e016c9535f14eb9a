use typenum::consts::{U1, U12, U15, U18, U2, U21, U24, U3, U6, U9, Z0};
use typenum::{NInt, PInt, ToInt};
use unit_algebra::base::{BaseUnit, Unit};
use unit_algebra::prefix::Prefix;
use unit_algebra::text::decimal_text;
use unit_algebra::UnitValue;

/// A payload that records the power of ten it was scaled by.
#[derive(Clone, Copy, Debug, PartialEq)]
struct Probe(i64);

impl UnitValue for Probe {
    fn apply_prefix(&self, power_of_ten: i32) -> Self {
        Probe(self.0 + power_of_ten as i64)
    }
}

#[derive(Clone, Copy, Debug, PartialEq)]
struct Real(f64);

impl UnitValue for Real {
    fn apply_prefix(&self, power_of_ten: i32) -> Self {
        Real(self.0 * 10f64.powi(power_of_ten))
    }
}

fn meter() -> Unit {
    Unit::base(BaseUnit::Meter)
}

fn second() -> Unit {
    Unit::base(BaseUnit::Second)
}

fn name_of(exponent: i32) -> Option<&'static str> {
    Prefix::of(exponent, meter()).name()
}

#[test]
fn every_named_exponent_has_its_name() {
    let table = [
        (-24, "Yotta"),
        (-21, "Zetta"),
        (-18, "Exa"),
        (-15, "Peta"),
        (-12, "Tera"),
        (-9, "Giga"),
        (-6, "Mega"),
        (-3, "Kilo"),
        (-2, "Hecta"),
        (-1, "Deka"),
        (0, ""),
        (1, "Deci"),
        (2, "Centi"),
        (3, "Milli"),
        (6, "Micro"),
        (9, "Nano"),
        (12, "Pico"),
        (15, "Fempto"),
        (18, "Atto"),
        (21, "Zepto"),
        (24, "Yocto"),
    ];
    for (exponent, name) in table {
        assert_eq!(name_of(exponent), Some(name));
    }
}

#[test]
fn other_exponents_have_no_name() {
    let named = [
        -24, -21, -18, -15, -12, -9, -6, -3, -2, -1, 0, 1, 2, 3, 6, 9, 12, 15, 18, 21, 24,
    ];
    for exponent in -30..=30 {
        if !named.contains(&exponent) {
            assert_eq!(name_of(exponent), None);
        }
    }
    assert_eq!(name_of(i32::MAX), None);
    assert_eq!(name_of(i32::MIN), None);
}

#[test]
fn a_negative_exponent_names_the_larger_scale() {
    assert_eq!(name_of(-3), Some("Kilo"));
    assert_eq!(name_of(3), Some("Milli"));
    assert_eq!(name_of(2), Some("Centi"));
}

#[test]
fn type_level_exponents_name_their_prefixes() {
    assert_eq!(name_of(<NInt<U24> as ToInt<i32>>::to_int()), Some("Yotta"));
    assert_eq!(name_of(<NInt<U21> as ToInt<i32>>::to_int()), Some("Zetta"));
    assert_eq!(name_of(<NInt<U18> as ToInt<i32>>::to_int()), Some("Exa"));
    assert_eq!(name_of(<NInt<U15> as ToInt<i32>>::to_int()), Some("Peta"));
    assert_eq!(name_of(<NInt<U12> as ToInt<i32>>::to_int()), Some("Tera"));
    assert_eq!(name_of(<NInt<U9> as ToInt<i32>>::to_int()), Some("Giga"));
    assert_eq!(name_of(<NInt<U6> as ToInt<i32>>::to_int()), Some("Mega"));
    assert_eq!(name_of(<NInt<U3> as ToInt<i32>>::to_int()), Some("Kilo"));
    assert_eq!(name_of(<NInt<U2> as ToInt<i32>>::to_int()), Some("Hecta"));
    assert_eq!(name_of(<NInt<U1> as ToInt<i32>>::to_int()), Some("Deka"));
    assert_eq!(name_of(<Z0 as ToInt<i32>>::to_int()), Some(""));
    assert_eq!(name_of(<PInt<U1> as ToInt<i32>>::to_int()), Some("Deci"));
    assert_eq!(name_of(<PInt<U2> as ToInt<i32>>::to_int()), Some("Centi"));
    assert_eq!(name_of(<PInt<U3> as ToInt<i32>>::to_int()), Some("Milli"));
    assert_eq!(name_of(<PInt<U6> as ToInt<i32>>::to_int()), Some("Micro"));
    assert_eq!(name_of(<PInt<U9> as ToInt<i32>>::to_int()), Some("Nano"));
    assert_eq!(name_of(<PInt<U12> as ToInt<i32>>::to_int()), Some("Pico"));
    assert_eq!(name_of(<PInt<U15> as ToInt<i32>>::to_int()), Some("Fempto"));
    assert_eq!(name_of(<PInt<U18> as ToInt<i32>>::to_int()), Some("Atto"));
    assert_eq!(name_of(<PInt<U21> as ToInt<i32>>::to_int()), Some("Zepto"));
    assert_eq!(name_of(<PInt<U24> as ToInt<i32>>::to_int()), Some("Yocto"));
}

#[test]
fn power_is_the_exponent() {
    assert_eq!(Prefix::of(-3, meter()).power(), -3);
    assert_eq!(Prefix::of(0, meter()).power(), 0);
    assert_eq!(Prefix::of(i32::MIN, meter()).power(), i32::MIN);
    let p = Prefix::of(7, second());
    assert_eq!(p.exponent, 7);
    assert_eq!(p.unit, second());
}

#[test]
fn prefixes_multiply_by_adding_exponents() {
    let kilo_meter = Prefix::of(-3, meter());
    let milli_second = Prefix::of(3, second());
    let centi_meter = Prefix::of(2, meter());
    assert_eq!(
        kilo_meter.clone().multiply(centi_meter.clone()),
        Prefix::of(-1, Unit::mult(meter(), meter()))
    );
    assert_eq!(
        kilo_meter.clone() * milli_second.clone(),
        Prefix::of(0, Unit::mult(meter(), second()))
    );
    assert_eq!(
        Prefix::of(i32::MAX, meter()).multiply(Prefix::of(i32::MIN, Unit::unitless())),
        Prefix::of(-1, meter())
    );
}

#[test]
fn prefixes_divide_by_subtracting_exponents() {
    let kilo_meter = Prefix::of(-3, meter());
    let milli_second = Prefix::of(3, second());
    assert_eq!(
        kilo_meter.clone().divide(milli_second.clone()),
        Prefix::of(-6, Unit::mult(meter(), Unit::inverse(BaseUnit::Second)))
    );
    assert_eq!(
        kilo_meter.clone() / kilo_meter.clone(),
        Prefix::of(0, Unit::unitless())
    );
}

#[test]
fn convert_scales_by_target_less_source() {
    let base = Prefix::of(0, meter());
    let centi = Prefix::of(2, meter());
    let kilo = Prefix::of(-3, meter());
    assert_eq!(base.convert(Probe(0), &centi), Probe(2));
    assert_eq!(centi.convert(Probe(0), &base), Probe(-2));
    assert_eq!(kilo.convert(Probe(0), &base), Probe(3));
    assert_eq!(kilo.convert(Probe(0), &centi), Probe(5));
    assert_eq!(centi.convert(Probe(0), &kilo), Probe(-5));
    assert_eq!(kilo.convert(Probe(0), &kilo), Probe(0));
    assert_eq!(
        Prefix::of(i32::MIN, meter()).convert(Probe(0), &Prefix::of(-1, meter())),
        Probe(i32::MAX as i64)
    );
}

#[test]
fn conversions_in_a_row_scale_by_the_sum_of_their_powers() {
    let exponents = [-24, -3, -1, 0, 2, 5, 24];
    for a in exponents {
        for b in exponents {
            for c in exponents {
                let pa = Prefix::of(a, meter());
                let pb = Prefix::of(b, meter());
                let pc = Prefix::of(c, meter());
                let direct = pa.convert(Probe(0), &pc);
                let in_steps = pb.convert(pa.convert(Probe(0), &pb), &pc);
                assert_eq!(direct, in_steps);
                let back = pb.convert(pa.convert(Probe(0), &pb), &pa);
                assert_eq!(back, Probe(0));
            }
        }
    }
}

#[test]
fn convert_multiplies_the_payload_by_the_power_of_ten() {
    let base = Prefix::of(0, meter());
    let centi = Prefix::of(2, meter());
    let kilo = Prefix::of(-3, meter());
    assert_eq!(base.convert(Real(1.0), &centi), Real(100.0));
    assert_eq!(kilo.convert(Real(1.0), &base), Real(1000.0));
    assert_eq!(kilo.convert(Real(2.5), &centi), Real(250000.0));
}

#[test]
fn prefixes_render_as_text() {
    assert_eq!(Prefix::of(-3, meter()).render(), "Kilo Meters");
    assert_eq!(Prefix::of(0, meter()).render(), "Meters");
    assert_eq!(Prefix::of(2, second()).render(), "Centi Seconds");
    assert_eq!(Prefix::of(4, meter()).render(), "x10^4 Meters");
    assert_eq!(Prefix::of(-4, meter()).render(), "x10^-4 Meters");
    assert_eq!(Prefix::of(100, meter()).render(), "x10^100 Meters");
    assert_eq!(
        Prefix::of(i32::MIN, Unit::unitless()).render(),
        "x10^-2147483648 Unitless"
    );
    assert_eq!(
        Prefix::of(-3, Unit::mult(meter(), Unit::inverse(BaseUnit::Second))).render(),
        "Kilo Meters * 1/Seconds"
    );
}

#[test]
fn integers_are_written_in_decimal() {
    assert_eq!(decimal_text(0), "0");
    assert_eq!(decimal_text(7), "7");
    assert_eq!(decimal_text(10), "10");
    assert_eq!(decimal_text(-1), "-1");
    assert_eq!(decimal_text(1234567890), "1234567890");
    assert_eq!(decimal_text(-908070605), "-908070605");
    assert_eq!(decimal_text(i32::MAX), "2147483647");
    assert_eq!(decimal_text(i32::MIN), "-2147483648");
    for n in -1000..=1000 {
        assert_eq!(decimal_text(n), n.to_string());
    }
}

#[test]
fn a_prefix_clone_is_equal_to_its_source() {
    let p = Prefix::of(-3, Unit::mult(meter(), second()));
    assert_eq!(p.clone(), p);
}
