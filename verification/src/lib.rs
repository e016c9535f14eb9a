//! Physical units as values: a closed grammar of unit expressions, the
//! algebra that composes them, decimal prefixes, and tagged quantities.

pub mod algebra;
pub mod base;
pub mod canonical;
pub mod laws;
pub mod normal;
pub mod prefix;
pub mod reduced;
pub mod text;
pub mod value;

pub use value::{UnitValue, Value};
