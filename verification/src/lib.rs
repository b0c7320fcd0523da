//! Wave design criteria for ship structural assessment.
//!
//! The library resolves tabulated wave statistics and service factors for a
//! named service area, then derives the design wave criteria and the final
//! service factor from fixed engineering formulas.
//!
//! All quantities are exact fixed-point decimals: a [`numeric::Decimal`]
//! carries six fractional digits, a [`numeric::DesignValue`] twelve, so every
//! formula of the derivation is computed exactly and its result is pinned by
//! the contracts.

use vstd::prelude::*;

pub mod calculator;
pub mod catalog;
pub mod errors;
pub mod notation;
pub mod numeric;

verus! {

/// A type that can name itself for diagnostics.
pub trait HasTypeLabel {
    /// The label `type_label` returns.
    spec fn spec_type_label() -> Seq<char>;

    /// The type's printable name.
    fn type_label() -> (r: &'static str)
        ensures
            r@ == Self::spec_type_label(),
    ;
}

/// The printable name of a value's type, for diagnostics.
pub fn type_of<T: HasTypeLabel>(_v: T) -> (r: &'static str)
    ensures
        r@ == T::spec_type_label(),
{
    T::type_label()
}

impl HasTypeLabel for numeric::Decimal {
    open spec fn spec_type_label() -> Seq<char> {
        "Decimal"@
    }

    fn type_label() -> (r: &'static str) {
        "Decimal"
    }
}

impl HasTypeLabel for numeric::DesignValue {
    open spec fn spec_type_label() -> Seq<char> {
        "DesignValue"@
    }

    fn type_label() -> (r: &'static str) {
        "DesignValue"
    }
}

impl HasTypeLabel for catalog::WaveStatistics {
    open spec fn spec_type_label() -> Seq<char> {
        "WaveStatistics"@
    }

    fn type_label() -> (r: &'static str) {
        "WaveStatistics"
    }
}

impl HasTypeLabel for catalog::ServiceFactors {
    open spec fn spec_type_label() -> Seq<char> {
        "ServiceFactors"@
    }

    fn type_label() -> (r: &'static str) {
        "ServiceFactors"
    }
}

impl HasTypeLabel for catalog::ServiceArea {
    open spec fn spec_type_label() -> Seq<char> {
        "ServiceArea"@
    }

    fn type_label() -> (r: &'static str) {
        "ServiceArea"
    }
}

impl HasTypeLabel for catalog::ServiceAreaCatalog {
    open spec fn spec_type_label() -> Seq<char> {
        "ServiceAreaCatalog"@
    }

    fn type_label() -> (r: &'static str) {
        "ServiceAreaCatalog"
    }
}

impl HasTypeLabel for calculator::ShipParameters {
    open spec fn spec_type_label() -> Seq<char> {
        "ShipParameters"@
    }

    fn type_label() -> (r: &'static str) {
        "ShipParameters"
    }
}

impl HasTypeLabel for calculator::DesignCriteriaResult {
    open spec fn spec_type_label() -> Seq<char> {
        "DesignCriteriaResult"@
    }

    fn type_label() -> (r: &'static str) {
        "DesignCriteriaResult"
    }
}

impl HasTypeLabel for errors::CriteriaError {
    open spec fn spec_type_label() -> Seq<char> {
        "CriteriaError"@
    }

    fn type_label() -> (r: &'static str) {
        "CriteriaError"
    }
}

} // verus!
