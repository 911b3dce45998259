//! The error shared by the record conversions of this crate.

use vstd::prelude::*;

verus! {

/// A record lacks a field that the result cannot do without.
#[derive(Debug, Clone, Copy, PartialEq, Eq, Structural)]
pub enum RecordError {
    MissingRequiredField,
}

} // verus!
