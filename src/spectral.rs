//! Per-waveband optical coefficients, bands centred on 430, 490, 550, 610 and 670 nm.
use vstd::prelude::*;
use crate::config::NUM_BANDS;

verus! {

/// Diffuse attenuation of pure sea water per band, in millionths of a reciprocal metre.
pub open spec fn water_coefficients() -> Seq<u64> {
    seq![17_100u64, 16_600, 63_800, 266_500, 439_000]
}

/// Biogenic backscatter per unit chlorophyll per band, in millionths of m² per mg.
pub open spec fn backscatter_ratios() -> Seq<u64> {
    seq![4_000u64, 3_500, 3_000, 2_500, 2_000]
}

/// Chlorophyll-specific attenuation per band, in millionths of m² per mg.
pub open spec fn chlorophyll_absorption() -> Seq<u64> {
    seq![120_000u64, 90_000, 50_000, 40_000, 70_000]
}

/// The pure-water coefficient table.
pub fn calculate_bw() -> (r: [u64; NUM_BANDS])
    ensures
        r@ == water_coefficients(),
{
    let r: [u64; NUM_BANDS] = [17_100, 16_600, 63_800, 266_500, 439_000];
    assert(r@ =~= water_coefficients());
    r
}

/// The biogenic backscatter table.
pub fn calculate_bbr() -> (r: [u64; NUM_BANDS])
    ensures
        r@ == backscatter_ratios(),
{
    let r: [u64; NUM_BANDS] = [4_000, 3_500, 3_000, 2_500, 2_000];
    assert(r@ =~= backscatter_ratios());
    r
}

/// The chlorophyll-specific absorption table.
pub fn calculate_ay() -> (r: [u64; NUM_BANDS])
    ensures
        r@ == chlorophyll_absorption(),
{
    let r: [u64; NUM_BANDS] = [120_000, 90_000, 50_000, 40_000, 70_000];
    assert(r@ =~= chlorophyll_absorption());
    r
}

} // verus!
