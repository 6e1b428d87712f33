//! The per-pixel input, settings and output records of the production engine.
use vstd::prelude::*;
use crate::config::{MAX_DEPTH_MM, NUM_BANDS};
use crate::fixed::SCALE;

verus! {

/// One pixel's physical inputs, in fixed point: depths in millimetres, angles in
/// milli-degrees, every other quantity in units of `1 / SCALE`.
#[derive(Clone, Copy, Debug)]
pub struct ModelInputs {
    /// Latitude, milli-degrees north.
    pub lat: i64,
    /// Longitude, milli-degrees east.
    pub lon: i64,
    /// Bottom depth (bathymetry).
    pub z_bottom: u64,
    /// Day of the year, from 1.
    pub iday: u16,
    /// Initial slope of the P-I curve.
    pub alpha_b: u64,
    /// Maximum photosynthetic rate of the P-I curve.
    pub pmb: u64,
    /// Depth of the chlorophyll maximum.
    pub z_m: u64,
    /// Mixed-layer depth.
    pub mld: u64,
    /// Surface chlorophyll concentration, mg per m³; outside the mixed-layer mode a
    /// Gaussian peak adds to it at depth.
    pub chl: u64,
    /// Height of the chlorophyll peak relative to the background.
    pub rho: u64,
    /// Width of the chlorophyll peak.
    pub sigma: u64,
    /// Cloud cover, percent.
    pub cloud: u64,
    /// Yellow-substance attenuation, per metre.
    pub yel_sub: u64,
    /// Daily surface photosynthetically available radiation.
    pub par: u64,
    /// Pure-water attenuation per band.
    pub bw: [u64; NUM_BANDS],
    /// Biogenic backscatter per unit chlorophyll per band.
    pub bbr: [u64; NUM_BANDS],
    /// Chlorophyll-specific attenuation per band.
    pub ay: [u64; NUM_BANDS],
}

/// Surface and maximum biomass of the distinguished subpopulation.
#[derive(Clone, Copy, Debug)]
pub struct ProchloroInputs {
    pub prochloro_surface: u64,
    pub prochloro_maximum: u64,
}

#[derive(Clone, Copy, Debug)]
pub struct ModelSettings {
    /// Restrict the depth grid to the mixed layer, with uniform chlorophyll.
    pub mld_only: bool,
    /// Stop once the noon irradiance maximum is known.
    pub iom_only: bool,
    pub prochloro_inputs: Option<ProchloroInputs>,
}

/// What one engine call returns, by mode.
#[derive(Clone, Debug, PartialEq)]
pub enum ModelOutputs {
    /// The noon irradiance maximum alone.
    NoonMaximum { par_noon_max: u64 },
    /// Every result of the full integration.
    Full {
        pp_day: u64,
        euphotic_depth: u64,
        par_noon_max: u64,
        pro_total_profile: Vec<u64>,
        pro_1_profile: Vec<u64>,
        pro_2_profile: Vec<u64>,
        pp_prochloro_profile: Vec<u64>,
    },
}

#[derive(Clone, Copy, Debug, PartialEq, Eq)]
pub enum ModelError {
    /// A physical input lies outside its accepted range.
    InvalidInput,
    /// Surface light is positive on a day without daylight.
    NumericalFailure,
}

pub const MAX_CHL: u64 = 100_000_000;
pub const MAX_RHO: u64 = 10_000_000;
pub const MAX_RATE: u64 = 100_000_000;
pub const MAX_PAR: u64 = 10_000_000_000;
pub const MAX_COEFF: u64 = 1_000_000;
pub const MAX_YEL_SUB: u64 = 10_000_000;

pub open spec fn table_in_range(t: Seq<u64>) -> bool {
    forall|w: int| 0 <= w < NUM_BANDS ==> #[trigger] t[w] <= MAX_COEFF
}

/// The inputs on which the engine computes rather than reporting `InvalidInput`.
pub open spec fn valid_inputs(i: ModelInputs, s: ModelSettings) -> bool {
    &&& -90_000 <= i.lat <= 90_000
    &&& -180_000 <= i.lon <= 180_000
    &&& 0 < i.z_bottom <= MAX_DEPTH_MM
    &&& 1 <= i.iday <= 366
    &&& i.alpha_b <= MAX_RATE
    &&& 0 < i.pmb <= MAX_RATE
    &&& i.z_m <= MAX_DEPTH_MM
    &&& i.mld <= MAX_DEPTH_MM
    &&& i.chl <= MAX_CHL
    &&& i.rho <= MAX_RHO
    &&& 0 < i.sigma <= MAX_DEPTH_MM
    &&& i.cloud <= 100
    &&& i.yel_sub <= MAX_YEL_SUB
    &&& i.par <= MAX_PAR
    &&& table_in_range(i.bw@)
    &&& table_in_range(i.bbr@)
    &&& table_in_range(i.ay@)
    &&& match s.prochloro_inputs {
        Some(p) => p.prochloro_surface <= MAX_CHL && p.prochloro_maximum <= MAX_CHL,
        None => true,
    }
}

fn table_ok(t: &[u64; NUM_BANDS]) -> (r: bool)
    ensures
        r == table_in_range(t@),
{
    let mut w: usize = 0;
    while w < NUM_BANDS
        invariant
            w <= NUM_BANDS,
            forall|v: int| 0 <= v < w ==> #[trigger] t@[v] <= MAX_COEFF,
        decreases NUM_BANDS - w,
    {
        if t[w] > MAX_COEFF {
            return false;
        }
        w += 1;
    }
    true
}

/// Whether the engine accepts these inputs.
pub fn check_inputs(i: &ModelInputs, s: &ModelSettings) -> (r: bool)
    ensures
        r == valid_inputs(*i, *s),
{
    let pro_ok = match s.prochloro_inputs {
        Some(p) => p.prochloro_surface <= MAX_CHL && p.prochloro_maximum <= MAX_CHL,
        None => true,
    };
    -90_000 <= i.lat && i.lat <= 90_000 && -180_000 <= i.lon && i.lon <= 180_000
        && 0 < i.z_bottom && i.z_bottom <= MAX_DEPTH_MM && 1 <= i.iday && i.iday <= 366
        && i.alpha_b <= MAX_RATE && 0 < i.pmb && i.pmb <= MAX_RATE
        && i.z_m <= MAX_DEPTH_MM && i.mld <= MAX_DEPTH_MM && i.chl <= MAX_CHL
        && i.rho <= MAX_RHO && 0 < i.sigma && i.sigma <= MAX_DEPTH_MM && i.cloud <= 100
        && i.yel_sub <= MAX_YEL_SUB && i.par <= MAX_PAR && table_ok(&i.bw)
        && table_ok(&i.bbr) && table_ok(&i.ay) && pro_ok
}

} // verus!
