//! Quantities: a payload tagged with a prefixed unit.

use crate::base::{BaseUnit, Unit, Unitless};
use crate::prefix::Prefix;
use vstd::prelude::*;
use vstd::std_specs::cmp::PartialEqSpec;
use core::ops::{Div, Mul};
use vstd::std_specs::ops::{DivSpec, DivSpecImpl, MulSpec, MulSpecImpl};

verus! {

/// A payload that can be scaled by a power of ten.
pub trait UnitValue: Copy {
    /// What the payload type promises of `apply_prefix`: that `scaled` is
    /// this payload multiplied by ten to the power `power_of_ten`. A type
    /// that does not say anything here promises nothing.
    open spec fn scales_to(&self, power_of_ten: int, scaled: Self) -> bool {
        true
    }

    /// Multiplies the payload by ten to the power `power_of_ten`.
    fn apply_prefix(&self, power_of_ten: i32) -> (r: Self)
        ensures
            self.scales_to(power_of_ten as int, r),
    ;
}

/// A quantity: a payload and the prefixed unit it is measured in. The tag
/// is fixed when the value is made; converting gives a new value.
pub struct Value<V> {
    payload: V,
    prefix: Prefix,
}

impl<V: Copy> Clone for Value<V> {
    fn clone(&self) -> (r: Self)
        ensures
            r == *self,
    {
        Value { payload: self.payload, prefix: self.prefix.clone() }
    }
}

impl<V> Value<V> {
    /// The payload of the quantity.
    pub closed spec fn payload(&self) -> V {
        self.payload
    }

    /// The prefixed unit of the quantity.
    pub closed spec fn tag(&self) -> Prefix {
        self.prefix
    }

    /// A quantity of `v` in the prefixed unit `prefix`.
    pub fn new(v: V, prefix: Prefix) -> (r: Self)
        ensures
            r.payload() == v,
            r.tag() == prefix,
    {
        Value { payload: v, prefix }
    }

    /// The payload.
    pub fn value(&self) -> (r: &V)
        ensures
            *r == self.payload(),
    {
        &self.payload
    }

    /// The prefixed unit.
    pub fn prefix(&self) -> (r: &Prefix)
        ensures
            *r == self.tag(),
    {
        &self.prefix
    }
}

impl<V: UnitValue> Value<V> {
    /// Whether `convert` to `target` is defined: the units are convertible
    /// and the difference of the exponents is an `i32`.
    pub open spec fn converts_to(&self, target: Prefix) -> bool {
        &&& self.tag().unit.spec_convertible(target.unit)
        &&& i32::MIN <= self.tag().scale_to(target) <= i32::MAX
    }

    /// The same quantity in the prefixed unit `target`: the payload is
    /// multiplied by ten to the power of the target's exponent less this
    /// value's.
    pub fn convert(&self, target: Prefix) -> (r: Value<V>)
        requires
            self.converts_to(target),
        ensures
            r.tag() == target,
            self.payload().scales_to(self.tag().scale_to(target), r.payload()),
    {
        let payload = self.prefix.convert(self.payload, &target);
        Value::new(payload, target)
    }

    /// Converts where `convert` is defined and gives `None` where it is not.
    pub fn try_convert(&self, target: Prefix) -> (r: Option<Value<V>>)
        ensures
            r.is_some() == self.converts_to(target),
            r matches Some(v) ==> v.tag() == target && self.payload().scales_to(
                self.tag().scale_to(target),
                v.payload(),
            ),
    {
        if !self.prefix.unit.convertible(&target.unit) {
            return None;
        }
        match target.exponent.checked_sub(self.prefix.exponent) {
            Some(_) => Some(self.convert(target)),
            None => None,
        }
    }
}

impl<V: UnitValue + PartialEq> Value<V> {
    /// Compares two quantities: `other` is converted to the prefixed unit of
    /// `self`, and the payloads are then compared with `==`.
    pub fn equals(&self, other: &Value<V>) -> (r: bool)
        requires
            other.converts_to(self.tag()),
        ensures
            exists|converted: V|
                {
                    &&& #[trigger] other.payload().scales_to(
                        other.tag().scale_to(self.tag()),
                        converted,
                    )
                    &&& V::obeys_eq_spec() ==> r == self.payload().eq_spec(&converted)
                },
    {
        let there = other.convert(self.prefix.clone());
        let same = self.payload == there.payload;
        proof {
            let converted = there.payload();
            assert(other.payload().scales_to(other.tag().scale_to(self.tag()), converted));
            assert(V::obeys_eq_spec() ==> same == self.payload().eq_spec(&converted));
        }
        same
    }

    /// Compares where `equals` is defined and gives `None` where it is not.
    pub fn try_equals(&self, other: &Value<V>) -> (r: Option<bool>)
        ensures
            r.is_some() == other.converts_to(self.tag()),
            r matches Some(same) ==> exists|converted: V|
                {
                    &&& #[trigger] other.payload().scales_to(
                        other.tag().scale_to(self.tag()),
                        converted,
                    )
                    &&& V::obeys_eq_spec() ==> same == self.payload().eq_spec(&converted)
                },
    {
        match other.try_convert(self.prefix.clone()) {
            Some(there) => {
                let same = self.payload == there.payload;
                proof {
                    let converted = there.payload();
                    assert(other.payload().scales_to(
                        other.tag().scale_to(self.tag()),
                        converted,
                    ));
                    assert(V::obeys_eq_spec() ==> same == self.payload().eq_spec(&converted));
                }
                Some(same)
            },
            None => None,
        }
    }
}

impl<V: Mul<Output = V>> Value<V> {
    /// The product of two quantities: the payloads are multiplied, the
    /// exponents added and the units multiplied. Nothing is rescaled.
    pub fn multiply(self, other: Value<V>) -> (r: Value<V>)
        requires
            self.payload().mul_req(other.payload()),
            i32::MIN <= self.tag().exponent + other.tag().exponent <= i32::MAX,
        ensures
            r.tag() == self.tag().spec_multiply(other.tag()),
            V::obeys_mul_spec() ==> r.payload() == self.payload().mul_spec(other.payload()),
    {
        Value { payload: self.payload * other.payload, prefix: self.prefix.multiply(other.prefix) }
    }
}

impl<V: Div<Output = V>> Value<V> {
    /// The quotient of two quantities: the payloads are divided, the
    /// exponents subtracted and the units divided. Nothing is rescaled.
    pub fn divide(self, other: Value<V>) -> (r: Value<V>)
        requires
            self.payload().div_req(other.payload()),
            i32::MIN <= self.tag().exponent - other.tag().exponent <= i32::MAX,
        ensures
            r.tag() == self.tag().spec_divide(other.tag()),
            V::obeys_div_spec() ==> r.payload() == self.payload().div_spec(other.payload()),
    {
        Value { payload: self.payload / other.payload, prefix: self.prefix.divide(other.prefix) }
    }
}

impl<V: Mul<Output = V>> Mul for Value<V> {
    type Output = Value<V>;

    /// `self * rhs` is `self.multiply(rhs)`.
    fn mul(self, rhs: Value<V>) -> (r: Value<V>)
        ensures
            r.tag() == self.tag().spec_multiply(rhs.tag()),
            V::obeys_mul_spec() ==> r.payload() == self.payload().mul_spec(rhs.payload()),
    {
        self.multiply(rhs)
    }
}

/// When `*` may be used on two values. What it gives is stated on `mul`
/// itself, over the payload and the tag: the fields of a value are not
/// open to specifications, so there is no `mul_spec` to obey.
impl<V: Mul<Output = V>> MulSpecImpl for Value<V> {
    open spec fn obeys_mul_spec() -> bool {
        false
    }

    open spec fn mul_req(self, rhs: Value<V>) -> bool {
        &&& self.payload().mul_req(rhs.payload())
        &&& i32::MIN <= self.tag().exponent + rhs.tag().exponent <= i32::MAX
    }

    open spec fn mul_spec(self, rhs: Value<V>) -> Value<V> {
        self
    }
}

impl<V: Div<Output = V>> Div for Value<V> {
    type Output = Value<V>;

    /// `self / rhs` is `self.divide(rhs)`.
    fn div(self, rhs: Value<V>) -> (r: Value<V>)
        ensures
            r.tag() == self.tag().spec_divide(rhs.tag()),
            V::obeys_div_spec() ==> r.payload() == self.payload().div_spec(rhs.payload()),
    {
        self.divide(rhs)
    }
}

/// When `/` may be used on two values. What it gives is stated on `div`
/// itself, as for `*`.
impl<V: Div<Output = V>> DivSpecImpl for Value<V> {
    open spec fn obeys_div_spec() -> bool {
        false
    }

    open spec fn div_req(self, rhs: Value<V>) -> bool {
        &&& self.payload().div_req(rhs.payload())
        &&& i32::MIN <= self.tag().exponent - rhs.tag().exponent <= i32::MAX
    }

    open spec fn div_spec(self, rhs: Value<V>) -> Value<V> {
        self
    }
}

/// The text that the `Debug` impl of the payload writes, as `format!` with
/// `{:?}` gives it. Nothing is claimed of the text.
#[verifier::external_body]
fn debug_text<V: core::fmt::Debug>(payload: &V) -> String {
    format!("{:?}", payload)
}

impl<V> Value<V> {
    /// The text of the quantity, given the text of its payload: the payload,
    /// a space, and the prefixed unit.
    pub open spec fn spec_render_with(&self, payload_text: Seq<char>) -> Seq<char> {
        payload_text + " "@ + self.tag().spec_render()
    }

    /// Writes the quantity as text, with `payload_text` for its payload.
    pub fn render_with(&self, payload_text: &str) -> (r: String)
        ensures
            r@ == self.spec_render_with(payload_text@),
    {
        let mut text = String::from_str(payload_text);
        text.append(" ");
        text.append(self.prefix.render().as_str());
        text
    }
}

impl<V: core::fmt::Debug> Value<V> {
    /// Writes the quantity as text, with the payload as its `Debug` impl
    /// writes it.
    pub fn render(&self) -> (r: String)
        ensures
            exists|payload_text: Seq<char>| r@ == self.spec_render_with(payload_text),
    {
        let payload_text = debug_text(&self.payload);
        self.render_with(payload_text.as_str())
    }
}

impl BaseUnit {
    /// A quantity of `val` in this base unit, at the base scale.
    pub fn new<V>(self, val: V) -> (r: Value<V>)
        ensures
            r.payload() == val,
            r.tag() == (Prefix { exponent: 0, unit: Unit::base(self) }),
    {
        Value::new(val, Prefix::of(0, Unit::base(self)))
    }
}

impl Unitless {
    /// A quantity of `val` without a unit, at the base scale.
    pub fn new<V>(val: V) -> (r: Value<V>)
        ensures
            r.payload() == val,
            r.tag() == (Prefix { exponent: 0, unit: Unit::unitless() }),
    {
        Value::new(val, Prefix::of(0, Unit::unitless()))
    }
}

} // verus!
