//! Derivation of the design wave criteria and the final service factor.
//!
//! A pure function of a resolved service area and the ship parameters. The
//! fixed engineering multipliers are exact decimals, so every derived
//! quantity is computed exactly at twelve fractional digits and pinned by
//! the contract.
//!
//! The final service factor is rounded up to the next multiple of 0.05 and
//! is returned as computed, without a clamp to [0.5, 1.0]: the rounded value
//! itself is the documented output of the derivation.

use crate::catalog::ServiceArea;
use crate::errors::CriteriaError;
use crate::numeric::{ceil_div, lemma_ceil_div_bounds, lemma_ceil_div_mono, spec_ceil_div, DesignValue, PeriodRange};
use vstd::arithmetic::div_mod::lemma_mod_multiples_basic;
use vstd::prelude::*;

verus! {

/// The ship under assessment: waterline length (length units), design life
/// (years), and the service-area identifier chosen by the operator.
#[derive(Clone, Debug, PartialEq, Eq)]
pub struct ShipParameters {
    pub l_wl: i64,
    pub operational_life: i64,
    pub service_area_id: String,
}

/// The derived design criteria of one invocation: the resolved service
/// area, the seven design quantities, and the final service factor.
#[derive(Clone, Copy, Debug, PartialEq, Eq, Structural)]
#[verifier::ext_equal]
pub struct DesignCriteriaResult {
    /// The resolved service area the criteria were derived from.
    pub area: ServiceArea,
    /// Design wave height: 1.67 times the significant wave height.
    pub h_dw: DesignValue,
    /// Design period: the zero-crossing period.
    pub t_dw: DesignValue,
    /// Design period standard deviation.
    pub t_dsd: DesignValue,
    /// Plausible design period band: two standard deviations around `t_dw`.
    pub t_drange: PeriodRange,
    /// Extreme-assessment wave height: the extreme wave height.
    pub h_xw: DesignValue,
    /// Extreme-assessment period: `t_dw` plus one standard deviation.
    pub t_xw: DesignValue,
    /// Plausible extreme period band: 1.5 standard deviations around `t_xw`.
    pub t_xrange: PeriodRange,
    /// The final service factor, rounded up to a multiple of 0.05.
    pub f_s: DesignValue,
}

/// Largest magnitude of the inner service-factor term (at nine fractional
/// digits) for which the final multiplication stays exactly representable.
pub const INNER_LIMIT: i128 = 160_000_000_000_000_000_000_000_000_000_000_000;

/// The operational-life factor, at three fractional digits: a total step
/// function of the design life, with an explicit fallback to 1.0 for lives
/// outside the three defined ones.
pub open spec fn spec_f_sl_e3(operational_life: int) -> int {
    if operational_life == 20 {
        1000
    } else if operational_life == 25 {
        1010
    } else if operational_life == 30 {
        1019
    } else {
        1000
    }
}

/// The inner service-factor term `f_1 + f_2 * (l_wl - 100) / 1000`, at nine
/// fractional digits, from the coefficients at six.
pub open spec fn spec_inner_e9(f_1: int, f_2: int, l_wl: int) -> int {
    f_1 * 1000 + f_2 * (l_wl - 100)
}

/// The raw service factor `(f_1 + f_2 * (l_wl - 100) / 1000) * f_sl`, at
/// twelve fractional digits.
pub open spec fn spec_f_s_raw_e12(f_1: int, f_2: int, l_wl: int, operational_life: int) -> int {
    spec_inner_e9(f_1, f_2, l_wl) * spec_f_sl_e3(operational_life)
}

/// The final service factor at twelve fractional digits: the raw factor
/// rounded up to the next multiple of 0.05 (i.e. of 50_000_000_000 at this
/// scale), and not clamped.
pub open spec fn spec_f_s_e12(f_1: int, f_2: int, l_wl: int, operational_life: int) -> int {
    spec_ceil_div(spec_f_s_raw_e12(f_1, f_2, l_wl, operational_life), 50_000_000_000)
        * 50_000_000_000
}

/// Whether the inner service-factor term of these inputs is small enough for
/// the derivation to be exactly representable.
pub open spec fn spec_inner_in_range(f_1: int, f_2: int, l_wl: int) -> bool {
    -INNER_LIMIT <= spec_inner_e9(f_1, f_2, l_wl) <= INNER_LIMIT
}

/// What a successful derivation returns, field by field. All views are at
/// twelve fractional digits; the wave statistics arrive at six.
pub open spec fn spec_calculate_ok(
    ship: ShipParameters,
    area: ServiceArea,
    res: DesignCriteriaResult,
) -> bool {
    let w = area.wave_data;
    let f = area.service_factors;
    &&& res.area == area
    &&& res.h_dw@ == w.h_s@ * 1_670_000
    &&& res.t_dw@ == w.t_z@ * 1_000_000
    &&& res.t_dsd@ == w.t_sd@ * 1_000_000
    &&& res.t_drange.lower@ == w.t_z@ * 1_000_000 - 2 * (w.t_sd@ * 1_000_000)
    &&& res.t_drange.upper@ == w.t_z@ * 1_000_000 + 2 * (w.t_sd@ * 1_000_000)
    &&& res.h_xw@ == w.h_x@ * 1_000_000
    &&& res.t_xw@ == (w.t_z@ + w.t_sd@) * 1_000_000
    &&& res.t_xrange.lower@ == (w.t_z@ + w.t_sd@) * 1_000_000 - 1_500_000 * w.t_sd@
    &&& res.t_xrange.upper@ == (w.t_z@ + w.t_sd@) * 1_000_000 + 1_500_000 * w.t_sd@
    &&& res.f_s@ == spec_f_s_e12(
        f.f_1@,
        f.f_2@,
        ship.l_wl as int,
        ship.operational_life as int,
    )
}

/// The operational-life factor at three fractional digits: 20 years gives
/// 1.0, 25 gives 1.01, 30 gives 1.019, anything else falls back to 1.0.
pub fn get_operational_factor(operational_life: i64) -> (r: i64)
    ensures
        r as int == spec_f_sl_e3(operational_life as int),
        1000 <= r <= 1019,
{
    match operational_life {
        20 => 1000,
        25 => 1010,
        30 => 1019,
        _ => 1000,
    }
}

/// Derives the design criteria of a ship in a service area.
///
/// Succeeds on every input whose service factor is exactly representable —
/// every realistic one — and pins each derived quantity to its formula:
/// the wave criteria are fixed multiples of the area's statistics, the two
/// period bands are ordered, and the service factor is the rounded-up
/// multiple of 0.05. Ship parameters so far out of range that the factor
/// cannot be derived exactly are rejected as invalid input.
pub fn calculate(ship: &ShipParameters, area: &ServiceArea) -> (r: Result<
    DesignCriteriaResult,
    CriteriaError,
>)
    requires
        area.wf(),
    ensures
        match r {
            Ok(res) => spec_calculate_ok(*ship, *area, res) && res.t_drange.lower@
                <= res.t_drange.upper@ && res.t_xrange.lower@ <= res.t_xrange.upper@ && res.f_s@
                % 50_000_000_000 == 0 && spec_inner_in_range(
                area.service_factors.f_1@,
                area.service_factors.f_2@,
                ship.l_wl as int,
            ),
            Err(e) => (e matches CriteriaError::InvalidInputError) && !spec_inner_in_range(
                area.service_factors.f_1@,
                area.service_factors.f_2@,
                ship.l_wl as int,
            ),
        },
{
    let w = &area.wave_data;
    let f = &area.service_factors;
    let f1: i128 = f.f_1.micros as i128;
    let f2: i128 = f.f_2.micros as i128;
    let lwl: i128 = ship.l_wl as i128;
    proof {
        assert(-170_000_000_000_000_000_000_000_000_000_000_000_000int <= (f2 as int) * (lwl - 100)
            <= 170_000_000_000_000_000_000_000_000_000_000_000_000int) by (nonlinear_arith)
            requires
                -10_000_000_000_000_000_000 <= f2 as int <= 10_000_000_000_000_000_000,
                -10_000_000_000_000_000_000 <= lwl as int - 100 <= 10_000_000_000_000_000_000,
        ;
    }
    let inner: i128 = f1 * 1000 + f2 * (lwl - 100);
    if inner > INNER_LIMIT || inner < -INNER_LIMIT {
        return Err(CriteriaError::InvalidInputError);
    }
    let f_sl: i128 = get_operational_factor(ship.operational_life) as i128;
    proof {
        assert(-170_000_000_000_000_000_000_000_000_000_000_000_000int <= (inner as int) * (
        f_sl as int) <= 170_000_000_000_000_000_000_000_000_000_000_000_000int)
            by (nonlinear_arith)
            requires
                -INNER_LIMIT as int <= inner as int <= INNER_LIMIT as int,
                1000 <= f_sl as int <= 1019,
        ;
    }
    let raw_e12: i128 = inner * f_sl;
    let q: i128 = ceil_div(raw_e12, 50_000_000_000);
    proof {
        lemma_ceil_div_bounds(raw_e12 as int, 50_000_000_000int);
    }
    let f_s_p: i128 = q * 50_000_000_000;
    proof {
        lemma_mod_multiples_basic(q as int, 50_000_000_000int);
    }
    Ok(
        DesignCriteriaResult {
            area: *area,
            h_dw: w.h_dw(),
            t_dw: w.t_dw(),
            t_dsd: w.t_dsd(),
            t_drange: w.t_drange(),
            h_xw: w.h_xw(),
            t_xw: w.t_xw(),
            t_xrange: w.t_xrange(),
            f_s: DesignValue { pico: f_s_p },
        },
    )
}

/// Determinism: the contract of `calculate` pins every field of the result,
/// so two successful derivations from identical inputs are identical.
pub proof fn lemma_calculate_deterministic(
    ship: ShipParameters,
    area: ServiceArea,
    r1: DesignCriteriaResult,
    r2: DesignCriteriaResult,
)
    requires
        spec_calculate_ok(ship, area, r1),
        spec_calculate_ok(ship, area, r2),
    ensures
        r1 == r2,
{
    assert(r1 =~= r2);
}

/// The final service factor is always a multiple of 0.05: at twelve
/// fractional digits, a multiple of 50_000_000_000.
pub proof fn lemma_f_s_multiple_of_twentieth(f_1: int, f_2: int, l_wl: int, operational_life: int)
    ensures
        spec_f_s_e12(f_1, f_2, l_wl, operational_life) % 50_000_000_000 == 0,
{
    lemma_mod_multiples_basic(
        spec_ceil_div(spec_f_s_raw_e12(f_1, f_2, l_wl, operational_life), 50_000_000_000),
        50_000_000_000,
    );
}

/// Rounding is monotonic: with a non-negative length coefficient, a longer
/// waterline never decreases the final service factor.
pub proof fn lemma_f_s_monotone_in_length(
    f_1: int,
    f_2: int,
    l_wl_1: int,
    l_wl_2: int,
    operational_life: int,
)
    requires
        f_2 >= 0,
        l_wl_1 <= l_wl_2,
    ensures
        spec_f_s_e12(f_1, f_2, l_wl_1, operational_life) <= spec_f_s_e12(
            f_1,
            f_2,
            l_wl_2,
            operational_life,
        ),
{
    let inner1 = spec_inner_e9(f_1, f_2, l_wl_1);
    let inner2 = spec_inner_e9(f_1, f_2, l_wl_2);
    assert(f_2 * (l_wl_1 - 100) <= f_2 * (l_wl_2 - 100)) by (nonlinear_arith)
        requires
            f_2 >= 0,
            l_wl_1 <= l_wl_2,
    ;
    let fsl = spec_f_sl_e3(operational_life);
    assert(inner1 * fsl <= inner2 * fsl) by (nonlinear_arith)
        requires
            inner1 <= inner2,
            fsl > 0,
    ;
    lemma_ceil_div_mono(inner1 * fsl, inner2 * fsl, 50_000_000_000);
}

} // verus!
