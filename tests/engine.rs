use dwcpn_grid::config::DEPTH_PROFILE_COUNT;
use dwcpn_grid::discretize::{bottom_of, depth_levels, elevations};
use dwcpn_grid::engine::calc_production;
use dwcpn_grid::fixed::{cos_mdeg, exp_neg, mul_div, sin_mdeg, SCALE};
use dwcpn_grid::light::{euphotic_index, peak_shape_exec};
use dwcpn_grid::model::{check_inputs, ModelError, ModelInputs, ModelOutputs, ModelSettings, ProchloroInputs};
use dwcpn_grid::production::pi_rate_exec;
use dwcpn_grid::spectral::{calculate_ay, calculate_bbr, calculate_bw};

fn oligotrophic(chl: u64) -> ModelInputs {
    ModelInputs {
        lat: 30_000,
        lon: -40_000,
        z_bottom: 200_000,
        iday: 172,
        alpha_b: 100_000,
        pmb: 3_000_000,
        z_m: 60_000,
        mld: 30_000,
        chl,
        rho: 500_000,
        sigma: 20_000,
        cloud: 0,
        yel_sub: 500,
        par: 45_000_000,
        bw: calculate_bw(),
        bbr: calculate_bbr(),
        ay: calculate_ay(),
    }
}

fn settings(mld_only: bool, iom_only: bool) -> ModelSettings {
    ModelSettings {
        mld_only,
        iom_only,
        prochloro_inputs: Some(ProchloroInputs { prochloro_surface: 50_000, prochloro_maximum: 150_000 }),
    }
}

fn full(r: Result<ModelOutputs, ModelError>) -> (u64, u64, u64, Vec<u64>, Vec<u64>, Vec<u64>, Vec<u64>) {
    match r {
        Ok(ModelOutputs::Full {
            pp_day,
            euphotic_depth,
            par_noon_max,
            pro_total_profile,
            pro_1_profile,
            pro_2_profile,
            pp_prochloro_profile,
        }) => (pp_day, euphotic_depth, par_noon_max, pro_total_profile, pro_1_profile, pro_2_profile, pp_prochloro_profile),
        other => panic!("expected a full result, got {:?}", other),
    }
}

#[test]
fn summer_oligotrophic_scenario() {
    let (pp, euph, noon, ..) = full(calc_production(&oligotrophic(200_000), &settings(false, false)));
    assert!(pp > 0);
    assert!(noon > 0);
    assert!(euph >= 60_000 && euph <= 100_000, "euphotic depth {} mm", euph);
}

#[test]
fn profiles_have_fixed_length() {
    let (_, _, _, a, b, c, d) = full(calc_production(&oligotrophic(200_000), &settings(false, false)));
    for p in [a, b, c, d] {
        assert_eq!(p.len(), DEPTH_PROFILE_COUNT);
    }
}

#[test]
fn mixed_layer_mode_keeps_biomass_uniform() {
    let mut i = oligotrophic(200_000);
    i.mld = 10_000;
    let (_, euph, _, total, ..) = full(calc_production(&i, &settings(true, false)));
    assert!(total.iter().all(|v| *v == total[0]));
    assert_eq!(total[0], 50_000);
    assert!(euph <= 10_000);
}

#[test]
fn deep_mixed_layer_ends_at_bottom() {
    assert_eq!(bottom_of(200_000, 300_000, true), 200_000);
    assert_eq!(bottom_of(200_000, 30_000, true), 30_000);
    assert_eq!(bottom_of(200_000, 30_000, false), 200_000);
    let levels = depth_levels(bottom_of(200_000, 300_000, true));
    assert_eq!(levels[0], 0);
    assert_eq!(levels[DEPTH_PROFILE_COUNT - 1], 200_000);
    assert!(levels.windows(2).all(|w| w[0] <= w[1]));
}

#[test]
fn depth_levels_are_evenly_spaced() {
    let levels = depth_levels(100_000);
    assert_eq!(levels.len(), DEPTH_PROFILE_COUNT);
    assert_eq!(levels[50], 50_000);
    assert_eq!(levels[1], 1_000);
}

#[test]
fn noon_maximum_mode_returns_only_that_value() {
    let i = oligotrophic(200_000);
    let r = calc_production(&i, &settings(false, true));
    let (_, _, noon, ..) = full(calc_production(&i, &settings(false, false)));
    assert_eq!(r, Ok(ModelOutputs::NoonMaximum { par_noon_max: noon }));
    assert!(noon > 0);
}

#[test]
fn repeated_calls_agree() {
    let i = oligotrophic(200_000);
    let s = settings(false, false);
    assert_eq!(calc_production(&i, &s), calc_production(&i, &s));
}

#[test]
fn more_chlorophyll_gives_shallower_euphotic_depth() {
    let s = settings(false, false);
    let (_, clear, ..) = full(calc_production(&oligotrophic(200_000), &s));
    let (_, green, ..) = full(calc_production(&oligotrophic(2_000_000), &s));
    assert!(green < clear, "{} vs {}", green, clear);
}

#[test]
fn production_and_biomass_are_nonnegative_and_bounded() {
    let (pp, _, _, total, lit, rest, ppp) = full(calc_production(&oligotrophic(200_000), &settings(false, false)));
    assert!(pp > 0);
    for k in 0..DEPTH_PROFILE_COUNT {
        assert_eq!(lit[k] + rest[k], total[k]);
        assert!(ppp[k] <= pp * 1000);
    }
}

#[test]
fn no_light_gives_no_production() {
    let mut i = oligotrophic(200_000);
    i.par = 0;
    let (pp, _, noon, _, _, _, ppp) = full(calc_production(&i, &settings(false, false)));
    assert_eq!(pp, 0);
    assert_eq!(noon, 0);
    assert!(ppp.iter().all(|v| *v == 0));
}

#[test]
fn without_subpopulation_profiles_are_zero() {
    let i = oligotrophic(200_000);
    let s = ModelSettings { mld_only: false, iom_only: false, prochloro_inputs: None };
    let (pp, _, _, total, lit, rest, ppp) = full(calc_production(&i, &s));
    assert!(pp > 0);
    for p in [total, lit, rest, ppp] {
        assert!(p.iter().all(|v| *v == 0));
    }
}

#[test]
fn out_of_range_inputs_are_rejected() {
    let s = settings(false, false);
    let mut i = oligotrophic(200_000);
    i.z_bottom = 0;
    assert_eq!(calc_production(&i, &s), Err(ModelError::InvalidInput));
    let mut i = oligotrophic(200_000);
    i.iday = 0;
    assert_eq!(calc_production(&i, &s), Err(ModelError::InvalidInput));
    let mut i = oligotrophic(200_000);
    i.chl = 101_000_000;
    assert!(!check_inputs(&i, &s));
    assert_eq!(calc_production(&i, &s), Err(ModelError::InvalidInput));
    let mut i = oligotrophic(200_000);
    i.bw[2] = 2_000_000;
    assert_eq!(calc_production(&i, &s), Err(ModelError::InvalidInput));
    let bad = ModelSettings {
        mld_only: false,
        iom_only: false,
        prochloro_inputs: Some(ProchloroInputs { prochloro_surface: 200_000_000, prochloro_maximum: 0 }),
    };
    assert_eq!(calc_production(&oligotrophic(200_000), &bad), Err(ModelError::InvalidInput));
    assert!(check_inputs(&oligotrophic(200_000), &s));
}

#[test]
fn light_in_polar_night_is_a_numerical_failure() {
    let mut i = oligotrophic(200_000);
    i.lat = 89_000;
    i.iday = 355;
    assert_eq!(calc_production(&i, &settings(false, false)), Err(ModelError::NumericalFailure));
    i.par = 0;
    assert!(calc_production(&i, &settings(false, false)).is_ok());
}

#[test]
fn spectral_tables_hold_fixed_values() {
    assert_eq!(calculate_bw(), [17_100, 16_600, 63_800, 266_500, 439_000]);
    assert_eq!(calculate_bbr(), [4_000, 3_500, 3_000, 2_500, 2_000]);
    assert_eq!(calculate_ay(), [120_000, 90_000, 50_000, 40_000, 70_000]);
}

#[test]
fn fixed_point_helpers_give_exact_values() {
    assert_eq!(mul_div(3, 7, 2), 10);
    assert_eq!(exp_neg(0), SCALE);
    assert_eq!(exp_neg(40_000_000), 0);
    let e1 = exp_neg(SCALE);
    assert!(e1 > 367_000 && e1 < 369_000, "{}", e1);
    assert_eq!(sin_mdeg(30_000), 500_000);
    assert_eq!(sin_mdeg(90_000), SCALE as i64);
    assert_eq!(sin_mdeg(-90_000), -(SCALE as i64));
    assert_eq!(cos_mdeg(0), SCALE as i64);
    assert_eq!(pi_rate_exec(1_000_000, 1_000_000, 1_000_000), 500_000);
    assert_eq!(peak_shape_exec(60_000, 60_000, 20_000), SCALE);
}

#[test]
fn euphotic_index_finds_first_dim_level() {
    let mut t = vec![SCALE; DEPTH_PROFILE_COUNT];
    assert_eq!(euphotic_index(&t), DEPTH_PROFILE_COUNT - 1);
    t[40] = 10_000;
    t[60] = 5;
    assert_eq!(euphotic_index(&t), 40);
}

#[test]
fn sun_is_up_at_noon_and_down_at_midnight() {
    let e = elevations(30_000, 172);
    assert_eq!(e[0], 0);
    assert!(e[12] > 950_000);
    assert!(e.iter().all(|v| *v <= e[12]));
}
