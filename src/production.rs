//! Surface light through the day, the P-I model, and the time and depth integrals.
use vstd::prelude::*;
use crate::config::TIME_STEPS;
use crate::discretize::elevation;
use crate::fixed::{SCALE, mul_div, lemma_mul_div_le};
use crate::model::{MAX_PAR, MAX_RATE};

verus! {

/// Daily surface light after cloud cover, which removes up to half of it.
pub open spec fn cloud_adjusted(par: int, cloud: int) -> int {
    par * (200 - cloud) / 200
}

/// Sum of the clipped solar elevations of the first `n` time samples.
pub open spec fn elevation_sum(lat: int, iday: int, n: int) -> int
    decreases n,
{
    if n <= 0 { 0 } else { elevation_sum(lat, iday, n - 1) + elevation(lat, iday, n - 1) }
}

/// Surface light during time sample `k`: the day's light shared in proportion to the sun's
/// elevation.
pub open spec fn surface_light(par_eff: int, total: int, e: int) -> int {
    if total == 0 { 0 } else { par_eff * e / total }
}

/// The saturating P-I curve: rate per unit chlorophyll under light `irr`.
pub open spec fn pi_rate(alpha_b: int, pmb: int, irr: int) -> int {
    let a = alpha_b * irr / SCALE as int;
    pmb * a / (pmb + a)
}

pub proof fn lemma_elevation_sum_bounds(lat: int, iday: int, n: int, k: int)
    requires
        0 <= k < n <= TIME_STEPS,
        forall|j: int| 0 <= j < TIME_STEPS ==> 0 <= #[trigger] elevation(lat, iday, j) <= SCALE,
    ensures
        elevation(lat, iday, k) <= elevation_sum(lat, iday, n),
        0 <= elevation_sum(lat, iday, n) <= n * SCALE,
    decreases n,
{
    assert(0 <= elevation(lat, iday, n - 1) <= SCALE);
    if k < n - 1 {
        lemma_elevation_sum_bounds(lat, iday, n - 1, k);
    } else if n > 1 {
        lemma_elevation_sum_bounds(lat, iday, n - 1, 0);
    }
    assert((n - 1) * SCALE + SCALE == n * SCALE) by (nonlinear_arith);
}

pub(crate) fn elevation_total(e: &Vec<u64>, Ghost(lat): Ghost<int>, Ghost(iday): Ghost<int>) -> (r: u64)
    requires
        e@.len() == TIME_STEPS,
        forall|k: int| 0 <= k < TIME_STEPS ==> e@[k] == elevation(lat, iday, k),
        forall|k: int| 0 <= k < TIME_STEPS ==> e@[k] <= SCALE,
    ensures
        r == elevation_sum(lat, iday, TIME_STEPS as int),
{
    let mut acc: u64 = 0;
    let mut k: usize = 0;
    while k < TIME_STEPS
        invariant
            k <= TIME_STEPS,
            e@.len() == TIME_STEPS,
            forall|j: int| 0 <= j < TIME_STEPS ==> e@[j] == elevation(lat, iday, j),
            forall|j: int| 0 <= j < TIME_STEPS ==> e@[j] <= SCALE,
            acc == elevation_sum(lat, iday, k as int),
            acc <= k * SCALE,
        decreases TIME_STEPS - k,
    {
        assert(k * SCALE + SCALE == (k + 1) * SCALE) by (nonlinear_arith);
        acc = acc + e[k];
        k += 1;
    }
    acc
}

pub fn pi_rate_exec(alpha_b: u64, pmb: u64, irr: u64) -> (r: u64)
    requires
        alpha_b <= MAX_RATE,
        0 < pmb <= MAX_RATE,
        irr <= MAX_PAR,
    ensures
        r == pi_rate(alpha_b as int, pmb as int, irr as int),
        r <= pmb,
{
    assert(alpha_b * irr / 1_000_000 <= 1_000_000_000_000) by (nonlinear_arith)
        requires alpha_b <= 100_000_000, irr <= 10_000_000_000;
    let a = mul_div(alpha_b, irr, SCALE);
    proof { lemma_mul_div_le(pmb as int, a as int, (pmb + a) as int); }
    mul_div(pmb, a, pmb + a)
}

/// Largest daily production at one level.
pub const MAX_DAILY: u64 = 2_640_000_000_000;

} // verus!
