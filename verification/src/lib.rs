//! Conversion between a dynamically typed host value (the kind a scripting
//! runtime exchanges with native code: undefined, null, boolean, number,
//! string, array, object) and a statically typed structured data model
//! (unit, booleans, integers of every width, floating point, characters,
//! strings, byte sequences, options, structs, sequences, tuples, maps and
//! the four enum-variant shapes).
//!
//! The heart of the crate is a serializer that walks a structured value and
//! builds an equivalent dynamic-value tree, and a deserializer that walks a
//! dynamic-value tree and rebuilds a structured value, with exact error
//! reporting on every shape mismatch. Both directions are verified against
//! recursive specification functions, and the round-trip law relating them
//! is proved in [`laws`].

use vstd::prelude::*;

pub mod errors;
pub mod num;
pub mod value;
pub mod ser;
pub mod de;
pub mod laws;

pub use de::from_value;
pub use de::from_value_opt;
pub use ser::to_value;

verus! {

/// Anchor for the crate-level usage examples above; does nothing at run time.
pub fn check_readme()
{
}

} // verus!
