//! Vertical biomass and the spectral light field down the depth grid.
use vstd::prelude::*;
use crate::config::{DEPTH_PROFILE_COUNT, MAX_DEPTH_MM, NUM_BANDS};
use crate::discretize::{depth_level, lemma_depth_levels_ordered};
use crate::fixed::{SCALE, EXP_CUTOFF, exp_neg_spec, exp_neg, mul_div, lemma_mul_div_le,
    lemma_exp_neg_bounds};
use crate::model::{ModelInputs, MAX_CHL, MAX_RHO, MAX_COEFF, MAX_YEL_SUB, table_in_range};

verus! {

/// Each band's share of the surface light: `SCALE / NUM_BANDS`.
pub const BAND_SHARE: u64 = 200_000;

/// Largest biomass any level can hold.
pub const MAX_BIOMASS: u64 = 1_100_000_000;

/// Relative height of the chlorophyll peak's Gaussian at depth `z`, scaled.
pub open spec fn peak_shape(z: int, z_m: int, sigma: int) -> int {
    let dz = if z >= z_m { z - z_m } else { z_m - z };
    let arg = dz * dz * SCALE as int / (2 * sigma * sigma);
    exp_neg_spec(if arg >= EXP_CUTOFF { EXP_CUTOFF as int } else { arg })
}

/// Chlorophyll at depth `z`: uniform in the mixed-layer mode, else a background with a
/// Gaussian peak.
pub open spec fn biomass_at(i: ModelInputs, mld_only: bool, z: int) -> int {
    if mld_only {
        i.chl as int
    } else {
        i.chl + (i.chl as int * i.rho as int / SCALE as int) * peak_shape(z, i.z_m as int, i.sigma as int)
            / SCALE as int
    }
}

pub fn peak_shape_exec(z: u64, z_m: u64, sigma: u64) -> (r: u64)
    requires
        z <= MAX_DEPTH_MM,
        z_m <= MAX_DEPTH_MM,
        0 < sigma <= MAX_DEPTH_MM,
    ensures
        r == peak_shape(z as int, z_m as int, sigma as int),
        r <= SCALE,
{
    let dz: u128 = if z >= z_m { (z - z_m) as u128 } else { (z_m - z) as u128 };
    assert(dz * dz * 1_000_000 <= 12_000_000 * 12_000_000 * 1_000_000u128) by (nonlinear_arith)
        requires dz <= 12_000_000;
    assert(0 < 2 * (sigma as u128) * (sigma as u128) <= 2 * 12_000_000 * 12_000_000u128)
        by (nonlinear_arith) requires 0 < sigma <= 12_000_000;
    let arg: u128 = dz * dz * (SCALE as u128) / (2 * (sigma as u128) * (sigma as u128));
    let x: u64 = if arg >= EXP_CUTOFF as u128 { EXP_CUTOFF } else { arg as u64 };
    exp_neg(x)
}

pub fn biomass_exec(i: &ModelInputs, mld_only: bool, z: u64) -> (r: u64)
    requires
        z <= MAX_DEPTH_MM,
        i.z_m <= MAX_DEPTH_MM,
        0 < i.sigma <= MAX_DEPTH_MM,
        i.chl <= MAX_CHL,
        i.rho <= MAX_RHO,
    ensures
        r == biomass_at(*i, mld_only, z as int),
        i.chl <= r <= MAX_BIOMASS,
{
    if mld_only {
        return i.chl;
    }
    let g = peak_shape_exec(z, i.z_m, i.sigma);
    assert(i.chl * i.rho / 1_000_000 <= 1_000_000_000) by (nonlinear_arith)
        requires i.chl <= 100_000_000, i.rho <= 10_000_000;
    let h = mul_div(i.chl, i.rho, SCALE);
    proof { lemma_mul_div_le(h as int, g as int, SCALE as int); }
    i.chl + mul_div(h, g, SCALE)
}

/// Attenuation per metre in band `w` where the chlorophyll is `b`, scaled.
pub open spec fn attenuation(i: ModelInputs, w: int, b: int) -> int {
    i.bw@[w] + (i.ay@[w] + i.bbr@[w]) * b / SCALE as int + i.yel_sub
}

/// Optical depth of the layer between levels `k` and `k + 1` in band `w`, scaled.
pub open spec fn layer_optical_depth(i: ModelInputs, mld_only: bool, bottom: int, w: int, k: int) -> int {
    attenuation(i, w, biomass_at(i, mld_only, depth_level(bottom, k)))
        * (depth_level(bottom, k + 1) - depth_level(bottom, k)) / 1000
}

/// Irradiance in band `w` at level `k`, as a fraction of the total at the surface, scaled.
pub open spec fn band_light(i: ModelInputs, mld_only: bool, bottom: int, w: int, k: int) -> int
    decreases k,
{
    if k <= 0 {
        BAND_SHARE as int
    } else {
        band_light(i, mld_only, bottom, w, k - 1)
            * exp_neg_spec(layer_optical_depth(i, mld_only, bottom, w, k - 1)) / SCALE as int
    }
}

/// Irradiance summed over the first `n` bands at level `k`.
pub open spec fn light_sum(i: ModelInputs, mld_only: bool, bottom: int, n: int, k: int) -> int
    decreases n,
{
    if n <= 0 { 0 } else { light_sum(i, mld_only, bottom, n - 1, k) + band_light(i, mld_only, bottom, n - 1, k) }
}

/// Broadband irradiance at level `k` as a fraction of the surface value, scaled.
pub open spec fn transmittance(i: ModelInputs, mld_only: bool, bottom: int, k: int) -> int {
    light_sum(i, mld_only, bottom, NUM_BANDS as int, k)
}

pub proof fn lemma_band_light_bounded(i: ModelInputs, mld_only: bool, bottom: int, w: int, k: int)
    ensures
        0 <= band_light(i, mld_only, bottom, w, k) <= BAND_SHARE,
    decreases k,
{
    if k > 0 {
        lemma_band_light_bounded(i, mld_only, bottom, w, k - 1);
        let x = layer_optical_depth(i, mld_only, bottom, w, k - 1);
        let e = exp_neg_spec(x);
        lemma_exp_neg_bounds(x);
        lemma_mul_div_le(band_light(i, mld_only, bottom, w, k - 1), e, SCALE as int);
    }
}


pub proof fn lemma_light_sum_bounded(i: ModelInputs, mld_only: bool, bottom: int, n: int, k: int)
    requires
        0 <= n,
    ensures
        0 <= light_sum(i, mld_only, bottom, n, k) <= n * 200_000,
    decreases n,
{
    if n > 0 {
        lemma_light_sum_bounded(i, mld_only, bottom, n - 1, k);
        lemma_band_light_bounded(i, mld_only, bottom, n - 1, k);
        assert((n - 1) * 200_000 + 200_000 == n * 200_000) by (nonlinear_arith);
    }
}

/// Chlorophyll at each depth level.
pub fn biomass_profile(i: &ModelInputs, mld_only: bool, levels: &Vec<u64>) -> (r: Vec<u64>)
    requires
        levels@.len() == DEPTH_PROFILE_COUNT,
        forall|k: int| 0 <= k < DEPTH_PROFILE_COUNT ==> levels@[k] <= MAX_DEPTH_MM,
        i.z_m <= MAX_DEPTH_MM,
        0 < i.sigma <= MAX_DEPTH_MM,
        i.chl <= MAX_CHL,
        i.rho <= MAX_RHO,
    ensures
        r@.len() == DEPTH_PROFILE_COUNT,
        forall|k: int| 0 <= k < DEPTH_PROFILE_COUNT ==> r@[k] == biomass_at(*i, mld_only, levels@[k] as int),
        forall|k: int| 0 <= k < DEPTH_PROFILE_COUNT ==> i.chl <= #[trigger] r@[k] && r@[k] <= MAX_BIOMASS,
{
    let mut r: Vec<u64> = Vec::new();
    let mut k: usize = 0;
    while k < DEPTH_PROFILE_COUNT
        invariant
            k <= DEPTH_PROFILE_COUNT,
            r@.len() == k,
            levels@.len() == DEPTH_PROFILE_COUNT,
            forall|j: int| 0 <= j < DEPTH_PROFILE_COUNT ==> levels@[j] <= MAX_DEPTH_MM,
            i.z_m <= MAX_DEPTH_MM,
            0 < i.sigma <= MAX_DEPTH_MM,
            i.chl <= MAX_CHL,
            i.rho <= MAX_RHO,
            forall|j: int| 0 <= j < k ==> r@[j] == biomass_at(*i, mld_only, levels@[j] as int),
            forall|j: int| 0 <= j < k ==> i.chl <= #[trigger] r@[j] && r@[j] <= MAX_BIOMASS,
        decreases DEPTH_PROFILE_COUNT - k,
    {
        r.push(biomass_exec(i, mld_only, levels[k]));
        k += 1;
    }
    r
}

/// Broadband irradiance at each depth level as a fraction of the surface value, scaled.
pub fn transmittance_profile(i: &ModelInputs, mld_only: bool, bottom: u64, levels: &Vec<u64>, biomass: &Vec<u64>) -> (r: Vec<u64>)
    requires
        bottom <= MAX_DEPTH_MM,
        levels@.len() == DEPTH_PROFILE_COUNT,
        biomass@.len() == DEPTH_PROFILE_COUNT,
        forall|k: int| 0 <= k < DEPTH_PROFILE_COUNT ==> levels@[k] == depth_level(bottom as int, k),
        forall|k: int| 0 <= k < DEPTH_PROFILE_COUNT ==> biomass@[k] == biomass_at(*i, mld_only, levels@[k] as int),
        forall|k: int| 0 <= k < DEPTH_PROFILE_COUNT ==> biomass@[k] <= MAX_BIOMASS,
        table_in_range(i.bw@),
        table_in_range(i.bbr@),
        table_in_range(i.ay@),
        i.yel_sub <= MAX_YEL_SUB,
    ensures
        r@.len() == DEPTH_PROFILE_COUNT,
        forall|k: int| 0 <= k < DEPTH_PROFILE_COUNT ==> r@[k] == transmittance(*i, mld_only, bottom as int, k),
        forall|k: int| 0 <= k < DEPTH_PROFILE_COUNT ==> r@[k] <= SCALE,
{
    let mut t: Vec<u64> = Vec::new();
    let mut k: usize = 0;
    while k < DEPTH_PROFILE_COUNT
        invariant
            k <= DEPTH_PROFILE_COUNT,
            t@.len() == k,
            forall|j: int| 0 <= j < k ==> t@[j] == 0,
        decreases DEPTH_PROFILE_COUNT - k,
    {
        t.push(0);
        k += 1;
    }
    let mut w: usize = 0;
    while w < NUM_BANDS
        invariant
            w <= NUM_BANDS,
            t@.len() == DEPTH_PROFILE_COUNT,
            bottom <= MAX_DEPTH_MM,
            levels@.len() == DEPTH_PROFILE_COUNT,
            biomass@.len() == DEPTH_PROFILE_COUNT,
            forall|k: int| 0 <= k < DEPTH_PROFILE_COUNT ==> levels@[k] == depth_level(bottom as int, k),
            forall|k: int| 0 <= k < DEPTH_PROFILE_COUNT ==> biomass@[k] == biomass_at(*i, mld_only, levels@[k] as int),
            forall|k: int| 0 <= k < DEPTH_PROFILE_COUNT ==> biomass@[k] <= MAX_BIOMASS,
            table_in_range(i.bw@),
            table_in_range(i.bbr@),
            table_in_range(i.ay@),
            i.yel_sub <= MAX_YEL_SUB,
            forall|j: int| 0 <= j < DEPTH_PROFILE_COUNT ==> t@[j] == light_sum(*i, mld_only, bottom as int, w as int, j),
        decreases NUM_BANDS - w,
    {
        let mut cur: u64 = BAND_SHARE;
        let mut k: usize = 0;
        while k < DEPTH_PROFILE_COUNT
            invariant
                w < NUM_BANDS,
                k <= DEPTH_PROFILE_COUNT,
                t@.len() == DEPTH_PROFILE_COUNT,
                bottom <= MAX_DEPTH_MM,
                levels@.len() == DEPTH_PROFILE_COUNT,
                biomass@.len() == DEPTH_PROFILE_COUNT,
                forall|k: int| 0 <= k < DEPTH_PROFILE_COUNT ==> levels@[k] == depth_level(bottom as int, k),
                forall|k: int| 0 <= k < DEPTH_PROFILE_COUNT ==> biomass@[k] == biomass_at(*i, mld_only, levels@[k] as int),
                forall|k: int| 0 <= k < DEPTH_PROFILE_COUNT ==> biomass@[k] <= MAX_BIOMASS,
                table_in_range(i.bw@),
                table_in_range(i.bbr@),
                table_in_range(i.ay@),
                i.yel_sub <= MAX_YEL_SUB,
                k < DEPTH_PROFILE_COUNT ==> cur == band_light(*i, mld_only, bottom as int, w as int, k as int),
                forall|j: int| 0 <= j < k ==> t@[j] == light_sum(*i, mld_only, bottom as int, w + 1, j),
                forall|j: int| k <= j < DEPTH_PROFILE_COUNT ==> t@[j] == light_sum(*i, mld_only, bottom as int, w as int, j),
            decreases DEPTH_PROFILE_COUNT - k,
        {
            proof {
                lemma_light_sum_bounded(*i, mld_only, bottom as int, w as int, k as int);
                lemma_band_light_bounded(*i, mld_only, bottom as int, w as int, k as int);
            }
            let tk = t[k] + cur;
            t.set(k, tk);
            if k + 1 < DEPTH_PROFILE_COUNT {
                proof {
                    lemma_depth_levels_ordered(bottom as int, k as int, k + 1);
                    lemma_band_light_bounded(*i, mld_only, bottom as int, w as int, k as int);
                }
                let b = biomass[k];
                assert(i.bw@[w as int] <= MAX_COEFF && i.bbr@[w as int] <= MAX_COEFF && i.ay@[w as int] <= MAX_COEFF);
                let c: u64 = i.ay[w] + i.bbr[w];
                assert(c * b / 1_000_000 <= 2_200_000_000) by (nonlinear_arith)
                    requires c <= 2_000_000, b <= 1_100_000_000;
                let kw: u64 = i.bw[w] + mul_div(c, b, SCALE) + i.yel_sub;
                let dz: u64 = levels[k + 1] - levels[k];
                assert(kw * dz <= 2_300_000_000u64 * 12_000_000) by (nonlinear_arith)
                    requires kw <= 2_300_000_000, dz <= 12_000_000;
                let x: u64 = kw * dz / 1000;
                let e = exp_neg(x);
                proof { lemma_mul_div_le(cur as int, e as int, SCALE as int); }
                cur = mul_div(cur, e, SCALE);
            }
            k += 1;
        }
        w += 1;
    }
    proof {
        assert forall|k: int| 0 <= k < DEPTH_PROFILE_COUNT implies t@[k] <= SCALE by {
            lemma_light_sum_bounded(*i, mld_only, bottom as int, NUM_BANDS as int, k);
        }
    }
    t
}

/// Light at or below this fraction of the surface value marks the euphotic depth.
pub const EUPHOTIC_FRACTION: u64 = 10_000;

/// Index of the first level where `t` has fallen to one percent, or the last level.
pub open spec fn is_euphotic_index(t: Seq<u64>, r: int) -> bool {
    &&& 0 <= r < DEPTH_PROFILE_COUNT
    &&& (t[r] <= EUPHOTIC_FRACTION || r == DEPTH_PROFILE_COUNT - 1)
    &&& forall|j: int| 0 <= j < r ==> t[j] > EUPHOTIC_FRACTION
}

pub fn euphotic_index(t: &Vec<u64>) -> (r: usize)
    requires
        t@.len() == DEPTH_PROFILE_COUNT,
    ensures
        is_euphotic_index(t@, r as int),
{
    let mut k: usize = 0;
    while k + 1 < DEPTH_PROFILE_COUNT
        invariant
            k < DEPTH_PROFILE_COUNT,
            t@.len() == DEPTH_PROFILE_COUNT,
            forall|j: int| 0 <= j < k ==> t@[j] > EUPHOTIC_FRACTION,
        decreases DEPTH_PROFILE_COUNT - k,
    {
        if t[k] <= EUPHOTIC_FRACTION {
            return k;
        }
        k += 1;
    }
    k
}

} // verus!
