//! Properties of the production engine that relate its results across inputs and calls.
use vstd::prelude::*;
use vstd::arithmetic::div_mod::lemma_div_is_ordered;
use crate::config::{DEPTH_PROFILE_COUNT, NUM_BANDS, TIME_STEPS};
use crate::discretize::{depth_level, elevation, lemma_depth_levels_ordered};
use crate::engine::{grid_bottom, level, light_profile, is_production_result, biomass, cell_rate, light_fraction,
    surface, day_light, daily_upto, daily, column_upto, pp_day, pro_total};
use crate::fixed::{SCALE, EXP_CUTOFF, lemma_exp_neg_bounds, exp_neg_spec, recip_taylor};
use crate::light::{is_euphotic_index, peak_shape, lemma_light_sum_bounded, lemma_band_light_bounded, biomass_at,
    attenuation, layer_optical_depth, band_light, light_sum};
use crate::model::{ModelInputs, ModelSettings, ModelOutputs, ModelError, valid_inputs};
use crate::production::{elevation_sum, pi_rate};

verus! {

/// Every depth profile of a full result has exactly `DEPTH_PROFILE_COUNT` levels.
pub proof fn lemma_profiles_have_fixed_length(i: ModelInputs, s: ModelSettings, r: Result<ModelOutputs, ModelError>)
    requires
        is_production_result(i, s, r),
    ensures
        match r {
            Ok(ModelOutputs::Full { pro_total_profile, pro_1_profile, pro_2_profile, pp_prochloro_profile, .. }) => {
                &&& pro_total_profile@.len() == DEPTH_PROFILE_COUNT
                &&& pro_1_profile@.len() == DEPTH_PROFILE_COUNT
                &&& pro_2_profile@.len() == DEPTH_PROFILE_COUNT
                &&& pp_prochloro_profile@.len() == DEPTH_PROFILE_COUNT
            },
            _ => true,
        },
{
}

/// Depth levels run down from the surface without ever rising, and stop at the bottom,
/// or at the mixed layer when the grid is restricted to it and it is shallower.
pub proof fn lemma_levels_ordered_and_bounded(i: ModelInputs, s: ModelSettings, a: int, b: int)
    requires
        valid_inputs(i, s),
        0 <= a <= b < DEPTH_PROFILE_COUNT,
    ensures
        0 <= level(i, s, a) <= level(i, s, b) <= grid_bottom(i, s),
        grid_bottom(i, s) == if s.mld_only && i.mld < i.z_bottom { i.mld } else { i.z_bottom },
        level(i, s, 0) == 0,
        level(i, s, (DEPTH_PROFILE_COUNT - 1) as int) == grid_bottom(i, s),
{
    lemma_depth_levels_ordered(grid_bottom(i, s), a, b);
}

/// A mixed layer deeper than the bottom leaves the grid ending at the bottom.
pub proof fn lemma_deep_mixed_layer_ends_at_bottom(i: ModelInputs, s: ModelSettings)
    requires
        valid_inputs(i, s),
        i.mld > i.z_bottom,
    ensures
        grid_bottom(i, s) == i.z_bottom,
        level(i, s, (DEPTH_PROFILE_COUNT - 1) as int) == i.z_bottom,
{
    lemma_depth_levels_ordered(grid_bottom(i, s), 0, (DEPTH_PROFILE_COUNT - 1) as int);
}

/// In the noon-maximum mode a successful result holds only that value; otherwise it holds
/// every field.
pub proof fn lemma_mode_decides_fields(i: ModelInputs, s: ModelSettings, r: Result<ModelOutputs, ModelError>)
    requires
        is_production_result(i, s, r),
        r is Ok,
    ensures
        s.iom_only <==> r->Ok_0 is NoonMaximum,
        !s.iom_only <==> r->Ok_0 is Full,
{
}

/// Only one level is the euphotic level of a profile.
pub proof fn lemma_euphotic_index_unique(t: Seq<u64>, a: int, b: int)
    requires
        is_euphotic_index(t, a),
        is_euphotic_index(t, b),
    ensures
        a == b,
{
    if a < b {
        assert(t[a] > crate::light::EUPHOTIC_FRACTION);
    } else if b < a {
        assert(t[b] > crate::light::EUPHOTIC_FRACTION);
    }
}

/// Two results agree field by field, profiles included.
pub open spec fn outputs_agree(r1: Result<ModelOutputs, ModelError>, r2: Result<ModelOutputs, ModelError>) -> bool {
    match (r1, r2) {
        (Ok(ModelOutputs::NoonMaximum { par_noon_max: a }), Ok(ModelOutputs::NoonMaximum { par_noon_max: b })) => a == b,
        (Ok(ModelOutputs::Full { pp_day: a1, euphotic_depth: a2, par_noon_max: a3, pro_total_profile: a4,
            pro_1_profile: a5, pro_2_profile: a6, pp_prochloro_profile: a7 }),
         Ok(ModelOutputs::Full { pp_day: b1, euphotic_depth: b2, par_noon_max: b3, pro_total_profile: b4,
            pro_1_profile: b5, pro_2_profile: b6, pp_prochloro_profile: b7 })) => {
            &&& a1 == b1 && a2 == b2 && a3 == b3
            &&& a4@ == b4@ && a5@ == b5@ && a6@ == b6@ && a7@ == b7@
        },
        (Err(a), Err(b)) => a == b,
        _ => false,
    }
}

/// The engine keeps no state: two calls on the same inputs and settings agree exactly.
pub proof fn lemma_engine_deterministic(i: ModelInputs, s: ModelSettings, r1: Result<ModelOutputs, ModelError>,
    r2: Result<ModelOutputs, ModelError>)
    requires
        is_production_result(i, s, r1),
        is_production_result(i, s, r2),
    ensures
        outputs_agree(r1, r2),
{
    match (r1, r2) {
        (Ok(ModelOutputs::Full { euphotic_depth: a, pro_total_profile: a4, pro_1_profile: a5, pro_2_profile: a6,
            pp_prochloro_profile: a7, .. }),
         Ok(ModelOutputs::Full { euphotic_depth: b, pro_total_profile: b4, pro_1_profile: b5, pro_2_profile: b6,
            pp_prochloro_profile: b7, .. })) => {
            let ea = choose|e: int| is_euphotic_index(light_profile(i, s), e) && a == level(i, s, e);
            let eb = choose|e: int| is_euphotic_index(light_profile(i, s), e) && b == level(i, s, e);
            lemma_euphotic_index_unique(light_profile(i, s), ea, eb);
            assert(a4@ =~= b4@);
            assert(a5@ =~= b5@);
            assert(a6@ =~= b6@);
            assert(a7@ =~= b7@);
        },
        _ => {},
    }
}


proof fn lemma_biomass_nonnegative(i: ModelInputs, s: ModelSettings, k: int)
    ensures
        0 <= biomass(i, s, k),
{
    if !s.mld_only {
        let g = peak_shape(level(i, s, k), i.z_m as int, i.sigma as int);
        let dz = if level(i, s, k) >= i.z_m { level(i, s, k) - i.z_m } else { i.z_m - level(i, s, k) };
        let arg = dz * dz * SCALE as int / (2 * i.sigma * i.sigma);
        lemma_exp_neg_bounds(if arg >= EXP_CUTOFF { EXP_CUTOFF as int } else { arg });
        let h = i.chl as int * i.rho as int / SCALE as int;
        assert(0 <= i.chl as int * i.rho as int) by (nonlinear_arith) requires 0 <= i.chl, 0 <= i.rho;
        assert(0 <= h * g) by (nonlinear_arith) requires 0 <= h, 0 <= g;
    }
}

proof fn lemma_elevation_sum_nonnegative(i: ModelInputs, n: int)
    ensures
        0 <= elevation_sum(i.lat as int, i.iday as int, n),
    decreases n,
{
    if n > 0 {
        lemma_elevation_sum_nonnegative(i, n - 1);
    }
}

proof fn lemma_surface_nonnegative(i: ModelInputs, t: int)
    requires
        i.cloud <= 100,
    ensures
        0 <= surface(i, t),
{
    lemma_elevation_sum_nonnegative(i, TIME_STEPS as int);
    let e = elevation(i.lat as int, i.iday as int, t);
    let d = day_light(i);
    assert(0 <= d) by (nonlinear_arith)
        requires 0 <= i.par, i.cloud <= 100, d == i.par * (200 - i.cloud) / 200;
    assert(0 <= d * e) by (nonlinear_arith) requires 0 <= d, 0 <= e;
}

proof fn lemma_cell_nonnegative(i: ModelInputs, s: ModelSettings, k: int, t: int)
    requires
        valid_inputs(i, s),
    ensures
        0 <= cell_rate(i, s, k, t),
{
    lemma_biomass_nonnegative(i, s, k);
    lemma_light_sum_bounded(i, s.mld_only, grid_bottom(i, s), NUM_BANDS as int, k);
    lemma_surface_nonnegative(i, t);
    let lt = light_fraction(i, s, k);
    let sf = surface(i, t);
    let irr = sf * lt / SCALE as int;
    assert(0 <= sf * lt) by (nonlinear_arith) requires 0 <= sf, 0 <= lt;
    let a = i.alpha_b as int * irr / SCALE as int;
    assert(0 <= i.alpha_b as int * irr) by (nonlinear_arith) requires 0 <= irr, 0 <= i.alpha_b;
    let p = pi_rate(i.alpha_b as int, i.pmb as int, irr);
    assert(0 <= i.pmb as int * a) by (nonlinear_arith) requires 0 <= a, 0 <= i.pmb;
    assert(0 <= biomass(i, s, k) * p) by (nonlinear_arith) requires 0 <= biomass(i, s, k), 0 <= p;
}

proof fn lemma_daily_nonnegative(i: ModelInputs, s: ModelSettings, k: int, n: int)
    requires
        valid_inputs(i, s),
    ensures
        0 <= daily_upto(i, s, k, n),
    decreases n,
{
    if n > 0 {
        lemma_daily_nonnegative(i, s, k, n - 1);
        lemma_cell_nonnegative(i, s, k, n - 1);
    }
}

proof fn lemma_column_nonnegative(i: ModelInputs, s: ModelSettings, n: int)
    requires
        valid_inputs(i, s),
        n <= DEPTH_PROFILE_COUNT - 1,
    ensures
        0 <= column_upto(i, s, n),
    decreases n,
{
    if n > 0 {
        lemma_column_nonnegative(i, s, n - 1);
        let k = n - 1;
        lemma_daily_nonnegative(i, s, k, TIME_STEPS as int);
        lemma_daily_nonnegative(i, s, k + 1, TIME_STEPS as int);
        lemma_depth_levels_ordered(grid_bottom(i, s), k, k + 1);
        let sum = daily(i, s, k) + daily(i, s, k + 1);
        let dz = level(i, s, k + 1) - level(i, s, k);
        assert(0 <= sum * dz) by (nonlinear_arith) requires 0 <= sum, 0 <= dz;
    }
}

/// For physically valid inputs, production at every level, the column's daily production
/// and the biomass at every level are never negative.
pub proof fn lemma_production_nonnegative(i: ModelInputs, s: ModelSettings, k: int)
    requires
        valid_inputs(i, s),
    ensures
        0 <= daily(i, s, k),
        0 <= pp_day(i, s),
        0 <= biomass(i, s, k),
        0 <= pro_total(i, s, k),
{
    lemma_daily_nonnegative(i, s, k, TIME_STEPS as int);
    lemma_column_nonnegative(i, s, (DEPTH_PROFILE_COUNT - 1) as int);
    lemma_biomass_nonnegative(i, s, k);
    match s.prochloro_inputs {
        Some(p) => {
            let g = if s.mld_only { 0 } else { peak_shape(level(i, s, k), i.z_m as int, i.sigma as int) };
            let dz = if level(i, s, k) >= i.z_m { level(i, s, k) - i.z_m } else { i.z_m - level(i, s, k) };
            let arg = dz * dz * SCALE as int / (2 * i.sigma * i.sigma);
            lemma_exp_neg_bounds(if arg >= EXP_CUTOFF { EXP_CUTOFF as int } else { arg });
            assert(0 <= p.prochloro_surface as int * (SCALE - g)) by (nonlinear_arith)
                requires 0 <= p.prochloro_surface, g <= SCALE;
            assert(0 <= p.prochloro_maximum as int * g) by (nonlinear_arith)
                requires 0 <= p.prochloro_maximum, 0 <= g;
        },
        None => {},
    }
}

/// With the grid restricted to the mixed layer, chlorophyll and the subpopulation keep
/// their surface values at every level.
pub proof fn lemma_mixed_layer_uniform(i: ModelInputs, s: ModelSettings, k: int)
    requires
        s.mld_only,
    ensures
        biomass(i, s, k) == i.chl,
        pro_total(i, s, k) == pro_total(i, s, 0),
{
}

/// The two inputs differ at most in their chlorophyll.
pub open spec fn same_but_chlorophyll(a: ModelInputs, b: ModelInputs) -> bool {
    &&& a.lat == b.lat && a.lon == b.lon && a.z_bottom == b.z_bottom && a.iday == b.iday
    &&& a.alpha_b == b.alpha_b && a.pmb == b.pmb && a.z_m == b.z_m && a.mld == b.mld
    &&& a.rho == b.rho && a.sigma == b.sigma && a.cloud == b.cloud && a.yel_sub == b.yel_sub
    &&& a.par == b.par && a.bw == b.bw && a.bbr == b.bbr && a.ay == b.ay
}

proof fn lemma_mul_div_monotone(a1: int, a2: int, b1: int, b2: int, c: int)
    requires
        0 <= a2 <= a1,
        0 <= b2 <= b1,
        0 < c,
    ensures
        a2 * b2 / c <= a1 * b1 / c,
{
    assert(a2 * b2 <= a1 * b1) by (nonlinear_arith) requires 0 <= a2 <= a1, 0 <= b2 <= b1;
    lemma_div_is_ordered(a2 * b2, a1 * b1, c);
}

proof fn lemma_exp_neg_antitone(x1: int, x2: int)
    requires
        0 <= x1 <= x2,
    ensures
        exp_neg_spec(x2) <= exp_neg_spec(x1),
{
    lemma_exp_neg_bounds(x1);
    lemma_exp_neg_bounds(x2);
    if 0 < x1 && x2 < EXP_CUTOFF {
        let s = SCALE as int;
        let y1 = x1 / 4;
        let y2 = x2 / 4;
        lemma_div_is_ordered(x1, x2, 4);
        assert(0 <= y1);
        lemma_mul_div_monotone(y2, y1, y2, y1, 2 * s);
        assert(0 <= y1 * y1) by (nonlinear_arith) requires 0 <= y1;
        assert(y1 * y1 <= y2 * y2) by (nonlinear_arith) requires 0 <= y1 <= y2;
        lemma_mul_div_monotone(y2 * y2, y1 * y1, y2, y1, 6 * s * s);
        let d1 = s + y1 + y1 * y1 / (2 * s) + y1 * y1 * y1 / (6 * s * s);
        let d2 = s + y2 + y2 * y2 / (2 * s) + y2 * y2 * y2 / (6 * s * s);
        assert(y1 * y1 / (2 * s) >= 0 && y1 * y1 * y1 / (6 * s * s) >= 0) by (nonlinear_arith)
            requires 0 <= y1, s == 1_000_000;
        assert(d1 <= d2);
        vstd::arithmetic::div_mod::lemma_div_is_ordered_by_denominator(s * s, d1, d2);
        vstd::arithmetic::div_mod::lemma_div_is_ordered_by_denominator(s * s, s, d1);
        vstd::arithmetic::div_mod::lemma_div_by_multiple(s, s);
        let q1 = recip_taylor(y1);
        let q2 = recip_taylor(y2);
        assert(0 <= q2) by (nonlinear_arith) requires d2 > 0, q2 == s * s / d2, s == 1_000_000;
        lemma_mul_div_monotone(q1, q2, q1, q2, s);
        let r1 = q1 * q1 / s;
        let r2 = q2 * q2 / s;
        assert(0 <= r2) by (nonlinear_arith) requires 0 <= q2, r2 == q2 * q2 / s, s == 1_000_000;
        lemma_mul_div_monotone(r1, r2, r1, r2, s);
    }
}

proof fn lemma_biomass_monotone(a: ModelInputs, b: ModelInputs, mld_only: bool, z: int)
    requires
        same_but_chlorophyll(a, b),
        a.chl <= b.chl,
    ensures
        0 <= biomass_at(a, mld_only, z) <= biomass_at(b, mld_only, z),
{
    if !mld_only {
        let g = peak_shape(z, a.z_m as int, a.sigma as int);
        let dz = if z >= a.z_m { z - a.z_m } else { a.z_m - z };
        let arg = dz * dz * SCALE as int / (2 * a.sigma * a.sigma);
        lemma_exp_neg_bounds(if arg >= EXP_CUTOFF { EXP_CUTOFF as int } else { arg });
        lemma_mul_div_monotone(b.chl as int, a.chl as int, a.rho as int, a.rho as int, SCALE as int);
        let ha = a.chl as int * a.rho as int / SCALE as int;
        let hb = b.chl as int * b.rho as int / SCALE as int;
        assert(0 <= ha) by (nonlinear_arith)
            requires ha == a.chl as int * a.rho as int / SCALE as int, 0 <= a.chl, 0 <= a.rho;
        lemma_mul_div_monotone(hb, ha, g, g, SCALE as int);
        assert(0 <= ha * g / SCALE as int) by (nonlinear_arith) requires 0 <= ha, 0 <= g;
    }
}

proof fn lemma_optical_depth_monotone(a: ModelInputs, b: ModelInputs, mld_only: bool, bottom: int, w: int, k: int)
    requires
        same_but_chlorophyll(a, b),
        a.chl <= b.chl,
        0 <= bottom,
        0 <= k < DEPTH_PROFILE_COUNT - 1,
        0 <= w < NUM_BANDS,
    ensures
        0 <= layer_optical_depth(a, mld_only, bottom, w, k) <= layer_optical_depth(b, mld_only, bottom, w, k),
{
    let z = depth_level(bottom, k);
    lemma_biomass_monotone(a, b, mld_only, z);
    lemma_depth_levels_ordered(bottom, k, k + 1);
    let ba = biomass_at(a, mld_only, z);
    let bb = biomass_at(b, mld_only, z);
    let c = a.ay@[w] + a.bbr@[w];
    lemma_mul_div_monotone(c as int, c as int, bb, ba, SCALE as int);
    assert(0 <= c * ba) by (nonlinear_arith) requires 0 <= c, 0 <= ba;
    let ka = attenuation(a, w, ba);
    let kb = attenuation(b, w, bb);
    assert(0 <= ka <= kb);
    let dz = depth_level(bottom, k + 1) - depth_level(bottom, k);
    lemma_mul_div_monotone(kb, ka, dz, dz, 1000);
    assert(0 <= ka * dz) by (nonlinear_arith) requires 0 <= ka, 0 <= dz;
}

proof fn lemma_band_light_antitone(a: ModelInputs, b: ModelInputs, mld_only: bool, bottom: int, w: int, k: int)
    requires
        same_but_chlorophyll(a, b),
        a.chl <= b.chl,
        0 <= bottom,
        0 <= k < DEPTH_PROFILE_COUNT,
        0 <= w < NUM_BANDS,
    ensures
        band_light(b, mld_only, bottom, w, k) <= band_light(a, mld_only, bottom, w, k),
    decreases k,
{
    if k > 0 {
        lemma_band_light_antitone(a, b, mld_only, bottom, w, k - 1);
        lemma_band_light_bounded(b, mld_only, bottom, w, k - 1);
        lemma_optical_depth_monotone(a, b, mld_only, bottom, w, k - 1);
        let xa = layer_optical_depth(a, mld_only, bottom, w, k - 1);
        let xb = layer_optical_depth(b, mld_only, bottom, w, k - 1);
        lemma_exp_neg_antitone(xa, xb);
        lemma_exp_neg_bounds(xb);
        lemma_mul_div_monotone(band_light(a, mld_only, bottom, w, k - 1), band_light(b, mld_only, bottom, w, k - 1),
            exp_neg_spec(xa), exp_neg_spec(xb), SCALE as int);
    }
}

proof fn lemma_light_sum_antitone(a: ModelInputs, b: ModelInputs, mld_only: bool, bottom: int, n: int, k: int)
    requires
        same_but_chlorophyll(a, b),
        a.chl <= b.chl,
        0 <= bottom,
        0 <= k < DEPTH_PROFILE_COUNT,
        0 <= n <= NUM_BANDS,
    ensures
        light_sum(b, mld_only, bottom, n, k) <= light_sum(a, mld_only, bottom, n, k),
    decreases n,
{
    if n > 0 {
        lemma_light_sum_antitone(a, b, mld_only, bottom, n - 1, k);
        lemma_band_light_antitone(a, b, mld_only, bottom, n - 1, k);
    }
}

/// More chlorophyll, all else equal, never deepens the euphotic depth: the euphotic level
/// found for the greener water lies at or above the one found for the clearer water.
pub proof fn lemma_euphotic_depth_monotone(a: ModelInputs, b: ModelInputs, s: ModelSettings, ea: int, eb: int)
    requires
        same_but_chlorophyll(a, b),
        a.chl <= b.chl,
        is_euphotic_index(light_profile(a, s), ea),
        is_euphotic_index(light_profile(b, s), eb),
    ensures
        level(b, s, eb) <= level(a, s, ea),
{
    let bottom = grid_bottom(a, s);
    assert(grid_bottom(b, s) == bottom);
    if ea < eb {
        lemma_light_sum_antitone(a, b, s.mld_only, bottom, NUM_BANDS as int, ea);
        lemma_light_sum_bounded(a, s.mld_only, bottom, NUM_BANDS as int, ea);
        lemma_light_sum_bounded(b, s.mld_only, bottom, NUM_BANDS as int, ea);
        assert(light_profile(b, s)[ea] > crate::light::EUPHOTIC_FRACTION);
        assert(false);
    }
    lemma_depth_levels_ordered(bottom, eb, ea);
}

} // verus!
