//! Base units, dimensions and unit expressions.
//!
//! A unit is either `Unitless`, one of the seven base units, the reciprocal
//! of a base unit, or a product.

use vstd::prelude::*;

verus! {

/// The seven irreducible base units, one per physical dimension.
#[derive(Clone, Copy, Debug, PartialEq, Eq, Structural)]
pub enum BaseUnit {
    Second,
    Meter,
    Gram,
    Ampere,
    Kelvin,
    Mole,
    Candela,
}

/// The seven physical dimensions. Each names what a unit measures and is
/// tied to the base unit that stands for it.
#[derive(Clone, Copy, Debug, PartialEq, Eq, Structural)]
pub enum Dimension {
    Time,
    Length,
    Mass,
    Current,
    Temperature,
    Amount,
    LuminousIntensity,
}

/// The identity of multiplication and division.
#[derive(Clone, Copy, Debug, PartialEq, Eq, Structural)]
pub struct Unitless;

/// The reciprocal of a base unit.
#[derive(Clone, Copy, Debug, PartialEq, Eq, Structural)]
pub struct Inverse(pub BaseUnit);

/// The product of two units, as an ordered pair.
#[derive(Debug, PartialEq, Eq)]
pub struct Mult(pub Box<Unit>, pub Box<Unit>);

/// A unit expression: one of the closed set of forms a unit can take.
#[derive(Debug, PartialEq, Eq)]
pub enum Unit {
    Unitless(Unitless),
    Base(BaseUnit),
    Inverse(Inverse),
    Mult(Mult),
}

/// Units that have a reciprocal.
pub trait Invert {
    /// The form that the reciprocal takes.
    type Inverse;

    /// The reciprocal of `self`.
    fn invert(self) -> Self::Inverse;
}

impl Clone for Mult {
    fn clone(&self) -> (r: Self)
        ensures
            r == *self,
        decreases *self,
    {
        Mult(Box::new((*self.0).clone()), Box::new((*self.1).clone()))
    }
}

impl Clone for Unit {
    fn clone(&self) -> (r: Self)
        ensures
            r == *self,
        decreases *self,
    {
        match self {
            Unit::Unitless(_) => Unit::Unitless(Unitless),
            Unit::Base(a) => Unit::Base(*a),
            Unit::Inverse(i) => Unit::Inverse(*i),
            Unit::Mult(m) => Unit::Mult(m.clone()),
        }
    }
}

impl Dimension {
    /// The base unit of the dimension.
    pub open spec fn spec_base(self) -> BaseUnit {
        match self {
            Dimension::Time => BaseUnit::Second,
            Dimension::Length => BaseUnit::Meter,
            Dimension::Mass => BaseUnit::Gram,
            Dimension::Current => BaseUnit::Ampere,
            Dimension::Temperature => BaseUnit::Kelvin,
            Dimension::Amount => BaseUnit::Mole,
            Dimension::LuminousIntensity => BaseUnit::Candela,
        }
    }

    /// The base unit of the dimension.
    pub fn base(self) -> (r: BaseUnit)
        ensures
            r == self.spec_base(),
            r.spec_dimension() == self,
    {
        match self {
            Dimension::Time => BaseUnit::Second,
            Dimension::Length => BaseUnit::Meter,
            Dimension::Mass => BaseUnit::Gram,
            Dimension::Current => BaseUnit::Ampere,
            Dimension::Temperature => BaseUnit::Kelvin,
            Dimension::Amount => BaseUnit::Mole,
            Dimension::LuminousIntensity => BaseUnit::Candela,
        }
    }
}

impl BaseUnit {
    /// The dimension that the base unit measures.
    pub open spec fn spec_dimension(self) -> Dimension {
        match self {
            BaseUnit::Second => Dimension::Time,
            BaseUnit::Meter => Dimension::Length,
            BaseUnit::Gram => Dimension::Mass,
            BaseUnit::Ampere => Dimension::Current,
            BaseUnit::Kelvin => Dimension::Temperature,
            BaseUnit::Mole => Dimension::Amount,
            BaseUnit::Candela => Dimension::LuminousIntensity,
        }
    }

    /// The place of the base unit in the order of the canonical form.
    pub open spec fn spec_rank(self) -> nat {
        match self {
            BaseUnit::Second => 0,
            BaseUnit::Meter => 1,
            BaseUnit::Gram => 2,
            BaseUnit::Ampere => 3,
            BaseUnit::Kelvin => 4,
            BaseUnit::Mole => 5,
            BaseUnit::Candela => 6,
        }
    }

    /// The name of the base unit, in the singular.
    pub open spec fn spec_name(self) -> Seq<char> {
        match self {
            BaseUnit::Second => "Second"@,
            BaseUnit::Meter => "Meter"@,
            BaseUnit::Gram => "Gram"@,
            BaseUnit::Ampere => "Ampere"@,
            BaseUnit::Kelvin => "Kelvin"@,
            BaseUnit::Mole => "Mole"@,
            BaseUnit::Candela => "Candela"@,
        }
    }

    /// The name in the plural: the singular followed by an `s`.
    pub open spec fn spec_plural(self) -> Seq<char> {
        self.spec_name() + "s"@
    }

    /// The dimension that the base unit measures.
    pub fn dimension(self) -> (r: Dimension)
        ensures
            r == self.spec_dimension(),
            r.spec_base() == self,
    {
        match self {
            BaseUnit::Second => Dimension::Time,
            BaseUnit::Meter => Dimension::Length,
            BaseUnit::Gram => Dimension::Mass,
            BaseUnit::Ampere => Dimension::Current,
            BaseUnit::Kelvin => Dimension::Temperature,
            BaseUnit::Mole => Dimension::Amount,
            BaseUnit::Candela => Dimension::LuminousIntensity,
        }
    }

    /// The place of the base unit in the order of the canonical form.
    pub fn rank(self) -> (r: u8)
        ensures
            r == self.spec_rank(),
    {
        match self {
            BaseUnit::Second => 0,
            BaseUnit::Meter => 1,
            BaseUnit::Gram => 2,
            BaseUnit::Ampere => 3,
            BaseUnit::Kelvin => 4,
            BaseUnit::Mole => 5,
            BaseUnit::Candela => 6,
        }
    }

    /// The name of the base unit, in the singular.
    pub fn name(self) -> (r: &'static str)
        ensures
            r@ == self.spec_name(),
    {
        match self {
            BaseUnit::Second => "Second",
            BaseUnit::Meter => "Meter",
            BaseUnit::Gram => "Gram",
            BaseUnit::Ampere => "Ampere",
            BaseUnit::Kelvin => "Kelvin",
            BaseUnit::Mole => "Mole",
            BaseUnit::Candela => "Candela",
        }
    }

    /// The name of the base unit, in the plural.
    pub fn plural(self) -> (r: String)
        ensures
            r@ == self.spec_plural(),
    {
        let mut text = String::from_str(self.name());
        text.append("s");
        text
    }
}

impl Unit {
    /// The identity unit.
    pub open spec fn spec_unitless() -> Unit {
        Unit::Unitless(Unitless)
    }

    /// A base unit as a unit expression.
    pub open spec fn spec_base(atom: BaseUnit) -> Unit {
        Unit::Base(atom)
    }

    /// The reciprocal of a base unit as a unit expression.
    pub open spec fn spec_inverse(atom: BaseUnit) -> Unit {
        Unit::Inverse(Inverse(atom))
    }

    /// The pair `Mult(u, v)` as it stands, with nothing multiplied out.
    pub open spec fn spec_mult(u: Unit, v: Unit) -> Unit {
        Unit::Mult(Mult(Box::new(u), Box::new(v)))
    }

    /// The identity unit.
    #[verifier::when_used_as_spec(spec_unitless)]
    pub fn unitless() -> (r: Unit)
        ensures
            r == Unit::Unitless(Unitless),
    {
        Unit::Unitless(Unitless)
    }

    /// A base unit as a unit expression.
    #[verifier::when_used_as_spec(spec_base)]
    pub fn base(atom: BaseUnit) -> (r: Unit)
        ensures
            r == Unit::Base(atom),
    {
        Unit::Base(atom)
    }

    /// The reciprocal of a base unit as a unit expression.
    #[verifier::when_used_as_spec(spec_inverse)]
    pub fn inverse(atom: BaseUnit) -> (r: Unit)
        ensures
            r == Unit::Inverse(Inverse(atom)),
    {
        Unit::Inverse(Inverse(atom))
    }

    /// The pair `Mult(u, v)` as it stands, with nothing multiplied out.
    #[verifier::when_used_as_spec(spec_mult)]
    pub fn mult(u: Unit, v: Unit) -> (r: Unit)
        ensures
            r == Unit::Mult(Mult(Box::new(u), Box::new(v))),
    {
        Unit::Mult(Mult(Box::new(u), Box::new(v)))
    }

    /// The text of the unit: `Unitless`, a base unit in the plural, `1/`
    /// before an inverted one, and ` * ` between the slots of a product.
    pub open spec fn spec_render(self) -> Seq<char>
        decreases self,
    {
        match self {
            Unit::Unitless(_) => "Unitless"@,
            Unit::Base(a) => a.spec_plural(),
            Unit::Inverse(Inverse(a)) => "1/"@ + a.spec_plural(),
            Unit::Mult(Mult(u, v)) => u.spec_render() + " * "@ + v.spec_render(),
        }
    }

    /// Writes the unit as text.
    pub fn render(&self) -> (r: String)
        ensures
            r@ == self.spec_render(),
        decreases *self,
    {
        match self {
            Unit::Unitless(_) => String::from_str("Unitless"),
            Unit::Base(a) => a.plural(),
            Unit::Inverse(Inverse(a)) => {
                let mut text = String::from_str("1/");
                text.append(a.plural().as_str());
                text
            },
            Unit::Mult(Mult(u, v)) => {
                let mut text = u.render();
                text.append(" * ");
                text.append(v.render().as_str());
                text
            },
        }
    }
}

} // verus!
