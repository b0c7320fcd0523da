use wave_criteria::calculator::{calculate, get_operational_factor, ShipParameters};
use wave_criteria::catalog::{ServiceArea, ServiceFactors, WaveStatistics};
use wave_criteria::errors::CriteriaError;
use wave_criteria::numeric::Decimal;

fn area(h_s: i64, t_z: i64, t_sd: i64, h_x: i64, f_1: i64, f_2: i64) -> ServiceArea {
    ServiceArea {
        wave_data: WaveStatistics {
            h_s: Decimal { micros: h_s },
            t_z: Decimal { micros: t_z },
            t_sd: Decimal { micros: t_sd },
            h_x: Decimal { micros: h_x },
        },
        service_factors: ServiceFactors {
            f_1: Decimal { micros: f_1 },
            f_2: Decimal { micros: f_2 },
        },
    }
}

fn sample_area() -> ServiceArea {
    // h_s = 4.0, t_z = 8.0, t_sd = 1.0, h_x = 7.0, f_1 = 0.85, f_2 = 0.05
    area(4_000_000, 8_000_000, 1_000_000, 7_000_000, 850_000, 50_000)
}

fn ship(l_wl: i64, operational_life: i64) -> ShipParameters {
    ShipParameters { l_wl, operational_life, service_area_id: "CSA".to_string() }
}

const E12: i128 = 1_000_000_000_000;

#[test]
fn scenario_life_20() {
    let res = calculate(&ship(150, 20), &sample_area()).unwrap();
    assert_eq!(res.h_dw.pico, 6_680_000_000_000); // h_dw = 6.68
    assert_eq!(res.t_dw.pico, 8 * E12); // t_dw = 8.0
    assert_eq!(res.t_dsd.pico, E12); // t_dsd = 1.0
    assert_eq!(res.t_drange.lower.pico, 6 * E12); // t_drange = (6.0, 10.0)
    assert_eq!(res.t_drange.upper.pico, 10 * E12);
    assert_eq!(res.h_xw.pico, 7 * E12); // h_xw = 7.0
    assert_eq!(res.t_xw.pico, 9 * E12); // t_xw = 9.0
    assert_eq!(res.t_xrange.lower.pico, 7_500_000_000_000); // t_xrange = (7.5, 10.5)
    assert_eq!(res.t_xrange.upper.pico, 10_500_000_000_000);
    assert_eq!(res.f_s.pico, 900_000_000_000); // F_s = ceil(0.8525 * 20) / 20 = 0.90
    assert_eq!(res.area, sample_area());
}

#[test]
fn scenario_life_25_same_bucket() {
    // f_sl = 1.01, f_s_raw = 0.861025, F_s = ceil(17.2205) / 20 = 0.90
    assert_eq!(get_operational_factor(25), 1010);
    let res = calculate(&ship(150, 25), &sample_area()).unwrap();
    assert_eq!(res.f_s.pico, 900_000_000_000);
}

#[test]
fn operational_life_step_function() {
    assert_eq!(get_operational_factor(20), 1000);
    assert_eq!(get_operational_factor(25), 1010);
    assert_eq!(get_operational_factor(30), 1019);
    // the explicit fallback for lives outside the defined set
    assert_eq!(get_operational_factor(40), 1000);
    assert_eq!(get_operational_factor(0), 1000);
    assert_eq!(get_operational_factor(-3), 1000);
}

#[test]
fn calculate_is_deterministic() {
    let a = sample_area();
    let s = ship(150, 30);
    let r1 = calculate(&s, &a).unwrap();
    let r2 = calculate(&s, &a).unwrap();
    assert_eq!(r1, r2);
}

#[test]
fn ranges_are_ordered() {
    for t_sd in [0i64, 1, 500_000, 2_000_000] {
        let a = area(4_000_000, 8_000_000, t_sd, 7_000_000, 850_000, 50_000);
        let res = calculate(&ship(150, 20), &a).unwrap();
        assert!(res.t_drange.lower.pico <= res.t_drange.upper.pico);
        assert!(res.t_xrange.lower.pico <= res.t_xrange.upper.pico);
    }
}

#[test]
fn service_factor_is_multiple_of_one_twentieth() {
    for l_wl in [0i64, 50, 100, 150, 987, 4321] {
        for life in [20i64, 25, 30, 40] {
            let res = calculate(&ship(l_wl, life), &sample_area()).unwrap();
            assert_eq!(res.f_s.pico % 50_000_000_000, 0);
        }
    }
}

#[test]
fn service_factor_monotone_in_length() {
    let mut prev = i128::MIN;
    for l_wl in [0i64, 100, 150, 200, 500, 1100, 2100, 5000] {
        let res = calculate(&ship(l_wl, 20), &sample_area()).unwrap();
        assert!(prev <= res.f_s.pico);
        prev = res.f_s.pico;
    }
    // a longer waterline eventually moves the factor up a bucket
    let short = calculate(&ship(150, 20), &sample_area()).unwrap();
    let long = calculate(&ship(2100, 20), &sample_area()).unwrap();
    assert_eq!(short.f_s.pico, 900_000_000_000); // 0.90
    assert_eq!(long.f_s.pico, 950_000_000_000); // 0.95
}

#[test]
fn service_factor_not_clamped_above_one() {
    // f_1 = 1.2, f_2 = 0: the raw factor 1.2 is returned rounded, not
    // clamped down to 1.0
    let a = area(4_000_000, 8_000_000, 1_000_000, 7_000_000, 1_200_000, 0);
    let res = calculate(&ship(150, 20), &a).unwrap();
    assert_eq!(res.f_s.pico, 1_200_000_000_000);
}

#[test]
fn service_factor_not_clamped_below_half() {
    // f_1 = 0.3, f_2 = 0: the raw factor 0.3 is returned rounded, not
    // clamped up to 0.5
    let a = area(4_000_000, 8_000_000, 1_000_000, 7_000_000, 300_000, 0);
    let res = calculate(&ship(150, 20), &a).unwrap();
    assert_eq!(res.f_s.pico, 300_000_000_000);
}

#[test]
fn rounding_moves_up_not_to_nearest() {
    // f_1 = 0.8501: 17.002 twentieths round up to 18, giving 0.90
    let a = area(4_000_000, 8_000_000, 1_000_000, 7_000_000, 850_100, 0);
    let res = calculate(&ship(100, 20), &a).unwrap();
    assert_eq!(res.f_s.pico, 900_000_000_000);
}

#[test]
fn extreme_parameters_are_invalid_input() {
    let a = area(4_000_000, 8_000_000, 1_000_000, 7_000_000, 850_000, i64::MAX);
    let r = calculate(&ship(i64::MAX, 20), &a);
    assert!(matches!(r, Err(CriteriaError::InvalidInputError)));
}

#[test]
fn negative_length_term_is_exact() {
    // l_wl = 50 below the 100 reference: f_s_raw = 0.85 - 0.05 * 50 / 1000
    // = 0.8475, F_s = ceil(16.95) / 20 = 0.85
    let res = calculate(&ship(50, 20), &sample_area()).unwrap();
    assert_eq!(res.f_s.pico, 850_000_000_000);
}
