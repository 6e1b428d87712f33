//! The per-pixel production engine: the model as spec functions of the inputs, and the
//! single public entry point that computes it.
use vstd::prelude::*;
use crate::config::{DEPTH_PROFILE_COUNT, MAX_DEPTH_MM, TIME_STEPS};
use crate::discretize::{effective_bottom, depth_level, elevation, elevations, bottom_of, depth_levels,
    lemma_depth_levels_ordered};
use crate::fixed::{SCALE, mul_div, lemma_mul_div_le};
use crate::light::{MAX_BIOMASS, biomass_at, peak_shape, transmittance, biomass_profile,
    transmittance_profile, peak_shape_exec,
    is_euphotic_index, euphotic_index};
use crate::model::{ModelInputs, ModelSettings, ModelOutputs, ModelError, MAX_PAR, MAX_RATE, valid_inputs,
    check_inputs};
use crate::production::{cloud_adjusted, elevation_sum, surface_light, pi_rate, pi_rate_exec,
    elevation_total, lemma_elevation_sum_bounds, MAX_DAILY};

verus! {

/// The deepest level of the pixel's grid.
pub open spec fn grid_bottom(i: ModelInputs, s: ModelSettings) -> int {
    effective_bottom(i.z_bottom as int, i.mld as int, s.mld_only)
}

/// Depth of level `k`.
pub open spec fn level(i: ModelInputs, s: ModelSettings, k: int) -> int {
    depth_level(grid_bottom(i, s), k)
}

/// Chlorophyll at level `k`.
pub open spec fn biomass(i: ModelInputs, s: ModelSettings, k: int) -> int {
    biomass_at(i, s.mld_only, level(i, s, k))
}

/// Broadband light at level `k` as a fraction of the surface value, scaled.
pub open spec fn light_fraction(i: ModelInputs, s: ModelSettings, k: int) -> int {
    transmittance(i, s.mld_only, grid_bottom(i, s), k)
}

/// The day's surface light after cloud cover.
pub open spec fn day_light(i: ModelInputs) -> int {
    cloud_adjusted(i.par as int, i.cloud as int)
}

/// Sum of the clipped solar elevations over the day.
pub open spec fn day_elevation(i: ModelInputs) -> int {
    elevation_sum(i.lat as int, i.iday as int, TIME_STEPS as int)
}

/// Surface light during time sample `t`.
pub open spec fn surface(i: ModelInputs, t: int) -> int {
    surface_light(day_light(i), day_elevation(i), elevation(i.lat as int, i.iday as int, t))
}

/// Light reaches the surface on a day when the sun never rises.
pub open spec fn degenerate_day(i: ModelInputs) -> bool {
    day_elevation(i) == 0 && day_light(i) > 0
}

/// Largest surface light among the first `n` time samples.
pub open spec fn noon_max_upto(i: ModelInputs, n: int) -> int
    decreases n,
{
    if n <= 0 {
        0
    } else {
        let m = noon_max_upto(i, n - 1);
        if surface(i, n - 1) > m { surface(i, n - 1) } else { m }
    }
}

/// The noon irradiance maximum: the largest surface light of the day.
pub open spec fn noon_max(i: ModelInputs) -> int {
    noon_max_upto(i, TIME_STEPS as int)
}

/// Production rate at level `k` during time sample `t`.
pub open spec fn cell_rate(i: ModelInputs, s: ModelSettings, k: int, t: int) -> int {
    biomass(i, s, k) * pi_rate(i.alpha_b as int, i.pmb as int, surface(i, t) * light_fraction(i, s, k) / SCALE as int)
        / SCALE as int
}

/// Production at level `k` over the first `n` hourly samples.
pub open spec fn daily_upto(i: ModelInputs, s: ModelSettings, k: int, n: int) -> int
    decreases n,
{
    if n <= 0 { 0 } else { daily_upto(i, s, k, n - 1) + cell_rate(i, s, k, n - 1) }
}

/// Daily production at level `k`.
pub open spec fn daily(i: ModelInputs, s: ModelSettings, k: int) -> int {
    daily_upto(i, s, k, TIME_STEPS as int)
}

/// Trapezoid-rule area of the daily production between levels `k` and `k + 1`, per metre.
pub open spec fn layer_production(i: ModelInputs, s: ModelSettings, k: int) -> int {
    (daily(i, s, k) + daily(i, s, k + 1)) * (level(i, s, k + 1) - level(i, s, k)) / 2000
}

/// Depth integral of the daily production over the first `n` layers.
pub open spec fn column_upto(i: ModelInputs, s: ModelSettings, n: int) -> int
    decreases n,
{
    if n <= 0 { 0 } else { column_upto(i, s, n - 1) + layer_production(i, s, n - 1) }
}

/// Daily production integrated over the whole column.
pub open spec fn pp_day(i: ModelInputs, s: ModelSettings) -> int {
    column_upto(i, s, (DEPTH_PROFILE_COUNT - 1) as int)
}

/// Subpopulation biomass at level `k`: between its surface and maximum values by the
/// chlorophyll peak's shape, and never above the total chlorophyll.
pub open spec fn pro_total(i: ModelInputs, s: ModelSettings, k: int) -> int {
    match s.prochloro_inputs {
        None => 0,
        Some(p) => {
            let g = if s.mld_only { 0 } else { peak_shape(level(i, s, k), i.z_m as int, i.sigma as int) };
            let v = p.prochloro_surface as int * (SCALE - g) / SCALE as int
                + p.prochloro_maximum as int * g / SCALE as int;
            if v <= biomass(i, s, k) { v } else { biomass(i, s, k) }
        },
    }
}

/// The light-following share of the subpopulation at level `k`.
pub open spec fn pro_1(i: ModelInputs, s: ModelSettings, k: int) -> int {
    pro_total(i, s, k) * light_fraction(i, s, k) / SCALE as int
}

/// The rest of the subpopulation at level `k`.
pub open spec fn pro_2(i: ModelInputs, s: ModelSettings, k: int) -> int {
    pro_total(i, s, k) - pro_1(i, s, k)
}

/// Daily production at level `k` attributed to the subpopulation, by its share of biomass.
pub open spec fn pp_prochloro(i: ModelInputs, s: ModelSettings, k: int) -> int {
    if biomass(i, s, k) == 0 { 0 } else { daily(i, s, k) * pro_total(i, s, k) / biomass(i, s, k) }
}

pub open spec fn column_matches(i: ModelInputs, s: ModelSettings, levels: Seq<u64>, bio: Seq<u64>, tr: Seq<u64>) -> bool {
    &&& levels.len() == DEPTH_PROFILE_COUNT
    &&& bio.len() == DEPTH_PROFILE_COUNT
    &&& tr.len() == DEPTH_PROFILE_COUNT
    &&& forall|k: int| 0 <= k < DEPTH_PROFILE_COUNT ==> #[trigger] levels[k] == level(i, s, k)
    &&& forall|k: int| 0 <= k < DEPTH_PROFILE_COUNT ==> #[trigger] bio[k] == biomass(i, s, k)
    &&& forall|k: int| 0 <= k < DEPTH_PROFILE_COUNT ==> #[trigger] bio[k] <= MAX_BIOMASS
    &&& forall|k: int| 0 <= k < DEPTH_PROFILE_COUNT ==> #[trigger] tr[k] == light_fraction(i, s, k)
    &&& forall|k: int| 0 <= k < DEPTH_PROFILE_COUNT ==> #[trigger] tr[k] <= SCALE
    &&& 0 <= grid_bottom(i, s) <= MAX_DEPTH_MM
}

pub open spec fn schedule_matches(i: ModelInputs, surf: Seq<u64>) -> bool {
    &&& surf.len() == TIME_STEPS
    &&& forall|t: int| 0 <= t < TIME_STEPS ==> #[trigger] surf[t] == surface(i, t)
    &&& forall|t: int| 0 <= t < TIME_STEPS ==> #[trigger] surf[t] <= MAX_PAR
}


fn surface_schedule(i: &ModelInputs, e: &Vec<u64>, total: u64, par_eff: u64) -> (r: Vec<u64>)
    requires
        e@.len() == TIME_STEPS,
        forall|t: int| 0 <= t < TIME_STEPS ==> e@[t] == elevation(i.lat as int, i.iday as int, t),
        forall|t: int| 0 <= t < TIME_STEPS ==> e@[t] <= SCALE,
        total == day_elevation(*i),
        par_eff == day_light(*i),
        par_eff <= MAX_PAR,
    ensures
        schedule_matches(*i, r@),
{
    let mut r: Vec<u64> = Vec::new();
    let mut t: usize = 0;
    while t < TIME_STEPS
        invariant
            t <= TIME_STEPS,
            r@.len() == t,
            e@.len() == TIME_STEPS,
            forall|j: int| 0 <= j < TIME_STEPS ==> e@[j] == elevation(i.lat as int, i.iday as int, j),
            forall|j: int| 0 <= j < TIME_STEPS ==> e@[j] <= SCALE,
            total == day_elevation(*i),
            par_eff == day_light(*i),
            par_eff <= MAX_PAR,
            forall|j: int| 0 <= j < t ==> #[trigger] r@[j] == surface(*i, j),
            forall|j: int| 0 <= j < t ==> #[trigger] r@[j] <= MAX_PAR,
        decreases TIME_STEPS - t,
    {
        if total == 0 {
            r.push(0);
        } else {
            proof {
                assert forall|j: int| 0 <= j < TIME_STEPS implies 0 <= #[trigger] elevation(i.lat as int, i.iday as int, j) <= SCALE by {
                    assert(e@[j] == elevation(i.lat as int, i.iday as int, j));
                }
                lemma_elevation_sum_bounds(i.lat as int, i.iday as int, TIME_STEPS as int, t as int);
                lemma_mul_div_le(par_eff as int, e@[t as int] as int, total as int);
            }
            r.push(mul_div(par_eff, e[t], total));
        }
        t += 1;
    }
    r
}

fn noon_maximum(surf: &Vec<u64>, Ghost(i): Ghost<ModelInputs>) -> (r: u64)
    requires
        schedule_matches(i, surf@),
    ensures
        r == noon_max(i),
{
    let mut m: u64 = 0;
    let mut t: usize = 0;
    while t < TIME_STEPS
        invariant
            t <= TIME_STEPS,
            schedule_matches(i, surf@),
            m == noon_max_upto(i, t as int),
        decreases TIME_STEPS - t,
    {
        if surf[t] > m {
            m = surf[t];
        }
        t += 1;
    }
    m
}

proof fn lemma_daily_bounded(i: ModelInputs, s: ModelSettings, k: int, n: int, surf: Seq<u64>, bk: int, tk: int)
    requires
        0 <= n <= TIME_STEPS,
        schedule_matches(i, surf),
        bk == biomass(i, s, k),
        0 <= bk <= MAX_BIOMASS,
        tk == light_fraction(i, s, k),
        0 <= tk <= SCALE,
        i.alpha_b <= MAX_RATE,
        0 < i.pmb <= MAX_RATE,
    ensures
        0 <= daily_upto(i, s, k, n) <= n * 110_000_000_000,
    decreases n,
{
    if n > 0 {
        lemma_daily_bounded(i, s, k, n - 1, surf, bk, tk);
        let t = n - 1;
        assert(surf[t] == surface(i, t) && surf[t] <= MAX_PAR);
        let irr = surface(i, t) * tk / SCALE as int;
        lemma_mul_div_le(surface(i, t), tk, SCALE as int);
        let a = i.alpha_b as int * irr / SCALE as int;
        assert(0 <= i.alpha_b as int * irr) by (nonlinear_arith) requires 0 <= irr, 0 <= i.alpha_b;
        assert(0 <= a);
        lemma_mul_div_le(i.pmb as int, a, i.pmb + a);
        let p = pi_rate(i.alpha_b as int, i.pmb as int, irr);
        assert(bk * p / SCALE as int <= 110_000_000_000) by (nonlinear_arith)
            requires 0 <= bk <= 1_100_000_000, 0 <= p <= 100_000_000;
        assert(0 <= bk * p) by (nonlinear_arith) requires 0 <= bk, 0 <= p;
        assert((n - 1) * 110_000_000_000 + 110_000_000_000 == n * 110_000_000_000) by (nonlinear_arith);
    }
}

fn daily_profile(i: &ModelInputs, s: &ModelSettings, bio: &Vec<u64>, tr: &Vec<u64>, surf: &Vec<u64>,
    Ghost(levels): Ghost<Seq<u64>>) -> (r: Vec<u64>)
    requires
        column_matches(*i, *s, levels, bio@, tr@),
        schedule_matches(*i, surf@),
        i.alpha_b <= MAX_RATE,
        0 < i.pmb <= MAX_RATE,
    ensures
        r@.len() == DEPTH_PROFILE_COUNT,
        forall|k: int| 0 <= k < DEPTH_PROFILE_COUNT ==> #[trigger] r@[k] == daily(*i, *s, k),
        forall|k: int| 0 <= k < DEPTH_PROFILE_COUNT ==> #[trigger] r@[k] <= MAX_DAILY,
{
    let mut r: Vec<u64> = Vec::new();
    let mut k: usize = 0;
    while k < DEPTH_PROFILE_COUNT
        invariant
            k <= DEPTH_PROFILE_COUNT,
            r@.len() == k,
            column_matches(*i, *s, levels, bio@, tr@),
            schedule_matches(*i, surf@),
            i.alpha_b <= MAX_RATE,
            0 < i.pmb <= MAX_RATE,
            forall|j: int| 0 <= j < k ==> #[trigger] r@[j] == daily(*i, *s, j),
            forall|j: int| 0 <= j < k ==> #[trigger] r@[j] <= MAX_DAILY,
        decreases DEPTH_PROFILE_COUNT - k,
    {
        let bk = bio[k];
        let tk = tr[k];
        let mut acc: u64 = 0;
        let mut t: usize = 0;
        while t < TIME_STEPS
            invariant
                k < DEPTH_PROFILE_COUNT,
                t <= TIME_STEPS,
                column_matches(*i, *s, levels, bio@, tr@),
                schedule_matches(*i, surf@),
                i.alpha_b <= MAX_RATE,
                0 < i.pmb <= MAX_RATE,
                bk == bio@[k as int],
                tk == tr@[k as int],
                acc == daily_upto(*i, *s, k as int, t as int),
            decreases TIME_STEPS - t,
        {
            proof {
                lemma_daily_bounded(*i, *s, k as int, t + 1, surf@, bk as int, tk as int);
                lemma_mul_div_le(surf@[t as int] as int, tk as int, SCALE as int);
            }
            let irr = mul_div(surf[t], tk, SCALE);
            let p = pi_rate_exec(i.alpha_b, i.pmb, irr);
            assert(bk * p / 1_000_000 <= 110_000_000_000) by (nonlinear_arith)
                requires bk <= 1_100_000_000, p <= 100_000_000;
            acc = acc + mul_div(bk, p, SCALE);
            t += 1;
        }
        proof {
            lemma_daily_bounded(*i, *s, k as int, TIME_STEPS as int, surf@, bk as int, tk as int);
        }
        r.push(acc);
        k += 1;
    }
    r
}

fn column_integral(daily_p: &Vec<u64>, levels: &Vec<u64>, Ghost(i): Ghost<ModelInputs>, Ghost(s): Ghost<ModelSettings>,
    Ghost(bio): Ghost<Seq<u64>>, Ghost(tr): Ghost<Seq<u64>>) -> (r: u64)
    requires
        column_matches(i, s, levels@, bio, tr),
        daily_p@.len() == DEPTH_PROFILE_COUNT,
        forall|k: int| 0 <= k < DEPTH_PROFILE_COUNT ==> #[trigger] daily_p@[k] == daily(i, s, k),
        forall|k: int| 0 <= k < DEPTH_PROFILE_COUNT ==> #[trigger] daily_p@[k] <= MAX_DAILY,
    ensures
        r == pp_day(i, s),
{
    let mut acc: u64 = 0;
    let mut k: usize = 0;
    while k + 1 < DEPTH_PROFILE_COUNT
        invariant
            k < DEPTH_PROFILE_COUNT,
            column_matches(i, s, levels@, bio, tr),
            daily_p@.len() == DEPTH_PROFILE_COUNT,
            forall|j: int| 0 <= j < DEPTH_PROFILE_COUNT ==> #[trigger] daily_p@[j] == daily(i, s, j),
            forall|j: int| 0 <= j < DEPTH_PROFILE_COUNT ==> #[trigger] daily_p@[j] <= MAX_DAILY,
            acc == column_upto(i, s, k as int),
            acc <= k * 31_680_000_000_000_000,
        decreases DEPTH_PROFILE_COUNT - k,
    {
        proof {
            lemma_depth_levels_ordered(grid_bottom(i, s), k as int, k + 1);
            lemma_depth_levels_ordered(grid_bottom(i, s), k + 1, (DEPTH_PROFILE_COUNT - 1) as int);
        }
        let dz: u64 = levels[k + 1] - levels[k];
        let sum: u64 = daily_p[k] + daily_p[k + 1];
        assert(sum * dz / 2000 <= 31_680_000_000_000_000) by (nonlinear_arith)
            requires sum <= 5_280_000_000_000, dz <= 12_000_000;
        let layer = mul_div(sum, dz, 2000);
        assert(k * 31_680_000_000_000_000 + 31_680_000_000_000_000 == (k + 1) * 31_680_000_000_000_000)
            by (nonlinear_arith);
        acc = acc + layer;
        k += 1;
    }
    acc
}


/// The four subpopulation profiles at each level: total, light-following share, rest,
/// and attributed production.
fn prochloro_profiles(i: &ModelInputs, s: &ModelSettings, levels: &Vec<u64>, bio: &Vec<u64>, tr: &Vec<u64>,
    daily_p: &Vec<u64>) -> (r: (Vec<u64>, Vec<u64>, Vec<u64>, Vec<u64>))
    requires
        column_matches(*i, *s, levels@, bio@, tr@),
        valid_inputs(*i, *s),
        daily_p@.len() == DEPTH_PROFILE_COUNT,
        forall|k: int| 0 <= k < DEPTH_PROFILE_COUNT ==> #[trigger] daily_p@[k] == daily(*i, *s, k),
        forall|k: int| 0 <= k < DEPTH_PROFILE_COUNT ==> #[trigger] daily_p@[k] <= MAX_DAILY,
    ensures
        profiles_match(*i, *s, r.0@, r.1@, r.2@, r.3@),
{
    let mut pt: Vec<u64> = Vec::new();
    let mut lit: Vec<u64> = Vec::new();
    let mut rest: Vec<u64> = Vec::new();
    let mut pp: Vec<u64> = Vec::new();
    let mut k: usize = 0;
    while k < DEPTH_PROFILE_COUNT
        invariant
            k <= DEPTH_PROFILE_COUNT,
            pt@.len() == k && lit@.len() == k && rest@.len() == k && pp@.len() == k,
            column_matches(*i, *s, levels@, bio@, tr@),
            valid_inputs(*i, *s),
            daily_p@.len() == DEPTH_PROFILE_COUNT,
            forall|j: int| 0 <= j < DEPTH_PROFILE_COUNT ==> #[trigger] daily_p@[j] == daily(*i, *s, j),
            forall|j: int| 0 <= j < DEPTH_PROFILE_COUNT ==> #[trigger] daily_p@[j] <= MAX_DAILY,
            forall|j: int| 0 <= j < k ==> #[trigger] pt@[j] == pro_total(*i, *s, j),
            forall|j: int| 0 <= j < k ==> #[trigger] lit@[j] == pro_1(*i, *s, j),
            forall|j: int| 0 <= j < k ==> #[trigger] rest@[j] == pro_2(*i, *s, j),
            forall|j: int| 0 <= j < k ==> #[trigger] pp@[j] == pp_prochloro(*i, *s, j),
        decreases DEPTH_PROFILE_COUNT - k,
    {
        let b = bio[k];
        let total: u64 = match s.prochloro_inputs {
            None => 0,
            Some(p) => {
                proof {
                    lemma_depth_levels_ordered(grid_bottom(*i, *s), k as int, (DEPTH_PROFILE_COUNT - 1) as int);
                }
                let g: u64 = if s.mld_only { 0 } else { peak_shape_exec(levels[k], i.z_m, i.sigma) };
                proof {
                    lemma_mul_div_le(p.prochloro_surface as int, (SCALE - g) as int, SCALE as int);
                    lemma_mul_div_le(p.prochloro_maximum as int, g as int, SCALE as int);
                }
                let v = mul_div(p.prochloro_surface, SCALE - g, SCALE) + mul_div(p.prochloro_maximum, g, SCALE);
                if v <= b { v } else { b }
            },
        };
        assert(total <= b);
        proof { lemma_mul_div_le(total as int, tr@[k as int] as int, SCALE as int); }
        let share = mul_div(total, tr[k], SCALE);
        let attributed: u64 = if b == 0 {
            0
        } else {
            proof { lemma_mul_div_le(daily_p@[k as int] as int, total as int, b as int); }
            mul_div(daily_p[k], total, b)
        };
        pt.push(total);
        lit.push(share);
        rest.push(total - share);
        pp.push(attributed);
        k += 1;
    }
    (pt, lit, rest, pp)
}

/// The four subpopulation profiles hold the model's values at every level.
pub open spec fn profiles_match(i: ModelInputs, s: ModelSettings, pt: Seq<u64>, lit: Seq<u64>, rest: Seq<u64>,
    pp: Seq<u64>) -> bool {
    &&& pt.len() == DEPTH_PROFILE_COUNT
    &&& lit.len() == DEPTH_PROFILE_COUNT
    &&& rest.len() == DEPTH_PROFILE_COUNT
    &&& pp.len() == DEPTH_PROFILE_COUNT
    &&& forall|k: int| 0 <= k < DEPTH_PROFILE_COUNT ==> #[trigger] pt[k] == pro_total(i, s, k)
    &&& forall|k: int| 0 <= k < DEPTH_PROFILE_COUNT ==> #[trigger] lit[k] == pro_1(i, s, k)
    &&& forall|k: int| 0 <= k < DEPTH_PROFILE_COUNT ==> #[trigger] rest[k] == pro_2(i, s, k)
    &&& forall|k: int| 0 <= k < DEPTH_PROFILE_COUNT ==> #[trigger] pp[k] == pp_prochloro(i, s, k)
}

/// The light fraction at every level, as a sequence.
pub open spec fn light_profile(i: ModelInputs, s: ModelSettings) -> Seq<u64> {
    Seq::new(DEPTH_PROFILE_COUNT as nat, |k: int| light_fraction(i, s, k) as u64)
}

/// What the engine returns for these inputs and settings.
pub open spec fn is_production_result(i: ModelInputs, s: ModelSettings, r: Result<ModelOutputs, ModelError>) -> bool {
    if !valid_inputs(i, s) {
        r == Err::<ModelOutputs, ModelError>(ModelError::InvalidInput)
    } else if degenerate_day(i) {
        r == Err::<ModelOutputs, ModelError>(ModelError::NumericalFailure)
    } else {
        match r {
            Ok(ModelOutputs::NoonMaximum { par_noon_max }) => s.iom_only && par_noon_max == noon_max(i),
            Ok(ModelOutputs::Full { pp_day: pp, euphotic_depth, par_noon_max, pro_total_profile, pro_1_profile,
                pro_2_profile, pp_prochloro_profile }) => {
                &&& !s.iom_only
                &&& pp == pp_day(i, s)
                &&& par_noon_max == noon_max(i)
                &&& exists|e: int| is_euphotic_index(light_profile(i, s), e) && euphotic_depth == level(i, s, e)
                &&& profiles_match(i, s, pro_total_profile@, pro_1_profile@, pro_2_profile@, pp_prochloro_profile@)
            },
            Err(_) => false,
        }
    }
}

/// Daily primary production of one pixel: rejects out-of-range inputs, and in the
/// noon-maximum mode stops once the day's largest surface light is known.
pub fn calc_production(i: &ModelInputs, s: &ModelSettings) -> (r: Result<ModelOutputs, ModelError>)
    ensures
        is_production_result(*i, *s, r),
{
    if !check_inputs(i, s) {
        return Err(ModelError::InvalidInput);
    }
    let e = elevations(i.lat, i.iday);
    let total = elevation_total(&e, Ghost(i.lat as int), Ghost(i.iday as int));
    proof { lemma_mul_div_le(i.par as int, (200 - i.cloud) as int, 200); }
    let par_eff = mul_div(i.par, 200 - i.cloud, 200);
    if total == 0 && par_eff > 0 {
        return Err(ModelError::NumericalFailure);
    }
    let surf = surface_schedule(i, &e, total, par_eff);
    let noon = noon_maximum(&surf, Ghost(*i));
    if s.iom_only {
        return Ok(ModelOutputs::NoonMaximum { par_noon_max: noon });
    }
    let bottom = bottom_of(i.z_bottom, i.mld, s.mld_only);
    let levels = depth_levels(bottom);
    proof {
        assert forall|k: int| 0 <= k < DEPTH_PROFILE_COUNT implies levels@[k] <= MAX_DEPTH_MM by {
            lemma_depth_levels_ordered(bottom as int, k, (DEPTH_PROFILE_COUNT - 1) as int);
        }
    }
    let bio = biomass_profile(i, s.mld_only, &levels);
    let tr = transmittance_profile(i, s.mld_only, bottom, &levels, &bio);
    let daily_p = daily_profile(i, s, &bio, &tr, &surf, Ghost(levels@));
    let pp = column_integral(&daily_p, &levels, Ghost(*i), Ghost(*s), Ghost(bio@), Ghost(tr@));
    let ei = euphotic_index(&tr);
    assert(tr@ =~= light_profile(*i, *s));
    assert(is_euphotic_index(light_profile(*i, *s), ei as int) && levels@[ei as int] == level(*i, *s, ei as int));
    let (pt, lit, rest, ppp) = prochloro_profiles(i, s, &levels, &bio, &tr, &daily_p);
    Ok(ModelOutputs::Full {
        pp_day: pp,
        euphotic_depth: levels[ei],
        par_noon_max: noon,
        pro_total_profile: pt,
        pro_1_profile: lit,
        pro_2_profile: rest,
        pp_prochloro_profile: ppp,
    })
}

} // verus!
