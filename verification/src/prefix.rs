//! Decimal prefixes: a unit together with a power of ten.
//!
//! A payload tagged with exponent `E` stands for the payload times ten to
//! the power `-E`. A negative exponent therefore names a larger scale
//! (`-3` is Kilo) and a positive one a smaller scale (`2` is Centi).

use crate::base::Unit;
use crate::text::{decimal, decimal_text};
use crate::value::{UnitValue, Value};
use core::ops::{Div, Mul};
use vstd::prelude::*;
use vstd::std_specs::ops::{DivSpecImpl, MulSpecImpl};

verus! {

/// A unit scaled by a power of ten.
#[derive(Debug, PartialEq, Eq)]
pub struct Prefix {
    pub exponent: i32,
    pub unit: Unit,
}

impl Clone for Prefix {
    fn clone(&self) -> (r: Self)
        ensures
            r == *self,
    {
        Prefix { exponent: self.exponent, unit: self.unit.clone() }
    }
}

/// The name of the prefix with the given exponent: the empty name for the
/// base scale, and no name where none is registered.
pub open spec fn prefix_name(exponent: int) -> Option<Seq<char>> {
    if exponent == -24 {
        Some("Yotta"@)
    } else if exponent == -21 {
        Some("Zetta"@)
    } else if exponent == -18 {
        Some("Exa"@)
    } else if exponent == -15 {
        Some("Peta"@)
    } else if exponent == -12 {
        Some("Tera"@)
    } else if exponent == -9 {
        Some("Giga"@)
    } else if exponent == -6 {
        Some("Mega"@)
    } else if exponent == -3 {
        Some("Kilo"@)
    } else if exponent == -2 {
        Some("Hecta"@)
    } else if exponent == -1 {
        Some("Deka"@)
    } else if exponent == 0 {
        Some(""@)
    } else if exponent == 1 {
        Some("Deci"@)
    } else if exponent == 2 {
        Some("Centi"@)
    } else if exponent == 3 {
        Some("Milli"@)
    } else if exponent == 6 {
        Some("Micro"@)
    } else if exponent == 9 {
        Some("Nano"@)
    } else if exponent == 12 {
        Some("Pico"@)
    } else if exponent == 15 {
        Some("Fempto"@)
    } else if exponent == 18 {
        Some("Atto"@)
    } else if exponent == 21 {
        Some("Zepto"@)
    } else if exponent == 24 {
        Some("Yocto"@)
    } else {
        None
    }
}

impl Prefix {
    /// The power of ten by which a payload is scaled when it is converted
    /// from this prefix to `target`: the target's exponent less this one.
    pub open spec fn scale_to(self, target: Prefix) -> int {
        target.exponent - self.exponent
    }

    /// The product of two prefixed units: the exponents are added and the
    /// units multiplied.
    pub open spec fn spec_multiply(self, rhs: Prefix) -> Prefix {
        Prefix {
            exponent: (self.exponent + rhs.exponent) as i32,
            unit: self.unit.spec_multiply(rhs.unit),
        }
    }

    /// The quotient of two prefixed units: the exponents are subtracted and
    /// the units divided.
    pub open spec fn spec_divide(self, rhs: Prefix) -> Prefix {
        Prefix {
            exponent: (self.exponent - rhs.exponent) as i32,
            unit: self.unit.spec_divide(rhs.unit),
        }
    }

    /// The text of the prefixed unit: the unit alone at the base scale, the
    /// prefix name and the unit where the exponent has a name, and else the
    /// power of ten written out before the unit.
    pub open spec fn spec_render(self) -> Seq<char> {
        if self.exponent == 0 {
            self.unit.spec_render()
        } else {
            match prefix_name(self.exponent as int) {
                Some(name) => name + " "@ + self.unit.spec_render(),
                None => "x10^"@ + decimal(self.exponent as int) + " "@ + self.unit.spec_render(),
            }
        }
    }

    /// The unit at the scale of ten to the power `-exponent`.
    pub fn of(exponent: i32, unit: Unit) -> (r: Prefix)
        ensures
            r.exponent == exponent,
            r.unit == unit,
    {
        Prefix { exponent, unit }
    }

    /// The exponent of the prefix.
    pub fn power(&self) -> (r: i32)
        ensures
            r == self.exponent,
    {
        self.exponent
    }

    /// The name of the prefix, where its exponent has one.
    pub fn name(&self) -> (r: Option<&'static str>)
        ensures
            r.is_some() == prefix_name(self.exponent as int).is_some(),
            r matches Some(text) ==> Some(text@) == prefix_name(self.exponent as int),
    {
        match self.power() {
            -24 => Some("Yotta"),
            -21 => Some("Zetta"),
            -18 => Some("Exa"),
            -15 => Some("Peta"),
            -12 => Some("Tera"),
            -9 => Some("Giga"),
            -6 => Some("Mega"),
            -3 => Some("Kilo"),
            -2 => Some("Hecta"),
            -1 => Some("Deka"),
            0 => Some(""),
            1 => Some("Deci"),
            2 => Some("Centi"),
            3 => Some("Milli"),
            6 => Some("Micro"),
            9 => Some("Nano"),
            12 => Some("Pico"),
            15 => Some("Fempto"),
            18 => Some("Atto"),
            21 => Some("Zepto"),
            24 => Some("Yocto"),
            _ => None,
        }
    }

    /// A quantity of `val` in this prefixed unit.
    pub fn new<V>(self, val: V) -> (r: Value<V>)
        ensures
            r.payload() == val,
            r.tag() == self,
    {
        Value::new(val, self)
    }

    /// Converts a payload from this prefixed unit to `rhs`: scales it by ten
    /// to the power of the target's exponent less this one.
    pub fn convert<V: UnitValue>(&self, value: V, rhs: &Prefix) -> (r: V)
        requires
            self.unit.spec_convertible(rhs.unit),
            i32::MIN <= self.scale_to(*rhs) <= i32::MAX,
        ensures
            value.scales_to(self.scale_to(*rhs), r),
    {
        let power: i32 = rhs.exponent - self.exponent;
        value.apply_prefix(power)
    }

    /// Multiplies two prefixed units.
    pub fn multiply(self, rhs: Prefix) -> (r: Prefix)
        requires
            i32::MIN <= self.exponent + rhs.exponent <= i32::MAX,
        ensures
            r == self.spec_multiply(rhs),
            r.exponent == self.exponent + rhs.exponent,
    {
        Prefix { exponent: self.exponent + rhs.exponent, unit: self.unit.multiply(rhs.unit) }
    }

    /// Divides one prefixed unit by another.
    pub fn divide(self, rhs: Prefix) -> (r: Prefix)
        requires
            i32::MIN <= self.exponent - rhs.exponent <= i32::MAX,
        ensures
            r == self.spec_divide(rhs),
            r.exponent == self.exponent - rhs.exponent,
    {
        Prefix { exponent: self.exponent - rhs.exponent, unit: self.unit.divide(rhs.unit) }
    }

    /// Writes the prefixed unit as text.
    pub fn render(&self) -> (r: String)
        ensures
            r@ == self.spec_render(),
    {
        let unit = self.unit.render();
        if self.exponent == 0 {
            unit
        } else {
            match self.name() {
                Some(name) => {
                    let mut text = String::from_str(name);
                    text.append(" ");
                    text.append(unit.as_str());
                    text
                },
                None => {
                    let mut text = String::from_str("x10^");
                    text.append(decimal_text(self.exponent).as_str());
                    text.append(" ");
                    text.append(unit.as_str());
                    text
                },
            }
        }
    }
}

impl Mul for Prefix {
    type Output = Prefix;

    /// `self * rhs` is `self.multiply(rhs)`.
    fn mul(self, rhs: Prefix) -> (r: Prefix) {
        self.multiply(rhs)
    }
}

impl MulSpecImpl for Prefix {
    open spec fn obeys_mul_spec() -> bool {
        true
    }

    open spec fn mul_req(self, rhs: Prefix) -> bool {
        i32::MIN <= self.exponent + rhs.exponent <= i32::MAX
    }

    open spec fn mul_spec(self, rhs: Prefix) -> Prefix {
        self.spec_multiply(rhs)
    }
}

impl Div for Prefix {
    type Output = Prefix;

    /// `self / rhs` is `self.divide(rhs)`.
    fn div(self, rhs: Prefix) -> (r: Prefix) {
        self.divide(rhs)
    }
}

impl DivSpecImpl for Prefix {
    open spec fn obeys_div_spec() -> bool {
        true
    }

    open spec fn div_req(self, rhs: Prefix) -> bool {
        i32::MIN <= self.exponent - rhs.exponent <= i32::MAX
    }

    open spec fn div_spec(self, rhs: Prefix) -> Prefix {
        self.spec_divide(rhs)
    }
}

} // verus!
