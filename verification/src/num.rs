//! The host's one numeric type, modelled for the engine.
//!
//! The host stores every number as a 64-bit float. The conversion logic only
//! ever asks one question of such a number: is it exactly an integer of
//! magnitude at most 2^53 (the range a 64-bit float represents without loss),
//! and if so which one. [`JsNumber`] therefore keeps a number in one of two
//! canonical forms: [`JsNumber::Int`] for exactly those integers, and
//! [`JsNumber::Bits`] for every other number, carried opaquely as its
//! IEEE-754 bit pattern. The boundary that exchanges values with the host
//! builds numbers in this canonical form and turns them back into host
//! numbers; the engine itself never performs float arithmetic.

use vstd::prelude::*;

verus! {

/// The largest integer magnitude a 64-bit float represents exactly, 2^53.
pub const MAX_EXACT_INT: i64 = 9007199254740992;

/// A host number in canonical form.
#[derive(Clone, Copy, Debug, PartialEq, Eq, Structural)]
pub enum JsNumber {
    /// An integer of magnitude at most 2^53, held exactly.
    Int(i64),
    /// Any other number (fractional, too large, infinite or not a number),
    /// held opaquely as its IEEE-754 bit pattern.
    Bits(u64),
}

impl JsNumber {
    /// A canonical number: the integer form keeps to the exact range.
    pub open spec fn wf(self) -> bool {
        match self {
            JsNumber::Int(i) => -MAX_EXACT_INT <= i <= MAX_EXACT_INT,
            JsNumber::Bits(_) => true,
        }
    }
}

} // verus!
