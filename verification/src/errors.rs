//! The failures the library reports.
//!
//! Every failure reflects a static defect in the reference data or in the
//! supplied inputs; none is recoverable inside the library.

use vstd::prelude::*;

verus! {

/// The error kinds of the criteria resolution.
#[derive(Clone, Debug, PartialEq, Eq)]
pub enum CriteriaError {
    /// The reference dataset is structurally malformed: a section's entry
    /// misses a numeric field, holds a non-numeric or non-finite value, a
    /// key is duplicated, or a key exists in one section but not the other.
    /// Carries the offending key.
    SchemaError { key: String },
    /// The requested service-area identifier is not in the catalog.
    /// Carries the identifier that was asked for.
    UnknownServiceAreaError { id: String },
    /// An input is malformed or outside the exactly representable range:
    /// an identifier too short to be normalized, or ship parameters so far
    /// out of range that the service factor cannot be derived exactly.
    InvalidInputError,
}

} // verus!
