//! Depth levels of a pixel's water column and its daylight schedule.
use vstd::prelude::*;
use vstd::arithmetic::div_mod::{lemma_div_is_ordered, lemma_div_by_multiple};
use vstd::arithmetic::mul::lemma_mul_inequality;
use crate::config::{DEPTH_PROFILE_COUNT, MAX_DEPTH_MM, TIME_STEPS};
use crate::fixed::{SCALE, sin_spec, sin_mdeg, cos_mdeg};

verus! {

/// The deepest level of the grid: the bottom, or the mixed layer when that is shallower and
/// the grid is restricted to it.
pub open spec fn effective_bottom(z_bottom: int, mld: int, mld_only: bool) -> int {
    if mld_only && mld < z_bottom { mld } else { z_bottom }
}

/// Depth of level `i`, evenly spaced from the surface to `bottom`.
pub open spec fn depth_level(bottom: int, i: int) -> int {
    bottom * i / (DEPTH_PROFILE_COUNT - 1) as int
}

pub fn bottom_of(z_bottom: u64, mld: u64, mld_only: bool) -> (r: u64)
    ensures
        r == effective_bottom(z_bottom as int, mld as int, mld_only),
{
    if mld_only && mld < z_bottom { mld } else { z_bottom }
}

/// Levels are ordered from the surface down and stay within `[0, bottom]`.
pub proof fn lemma_depth_levels_ordered(bottom: int, i: int, j: int)
    requires
        0 <= bottom,
        0 <= i <= j < DEPTH_PROFILE_COUNT,
    ensures
        0 <= depth_level(bottom, i) <= depth_level(bottom, j) <= bottom,
        depth_level(bottom, 0) == 0,
        depth_level(bottom, (DEPTH_PROFILE_COUNT - 1) as int) == bottom,
{
    let n = (DEPTH_PROFILE_COUNT - 1) as int;
    lemma_mul_inequality(i, j, bottom);
    assert(bottom * i == i * bottom && bottom * j == j * bottom) by (nonlinear_arith);
    lemma_div_is_ordered(bottom * i, bottom * j, n);
    lemma_mul_inequality(j, n, bottom);
    assert(bottom * n == n * bottom) by (nonlinear_arith);
    lemma_div_is_ordered(bottom * j, bottom * n, n);
    lemma_div_by_multiple(bottom, n);
    assert(0 <= bottom * i) by (nonlinear_arith) requires 0 <= bottom, 0 <= i;
    lemma_div_is_ordered(0, bottom * i, n);
    assert(bottom * 0 == 0);
}

/// Depths of the `DEPTH_PROFILE_COUNT` levels between the surface and `bottom`.
pub fn depth_levels(bottom: u64) -> (r: Vec<u64>)
    requires
        bottom <= MAX_DEPTH_MM,
    ensures
        r@.len() == DEPTH_PROFILE_COUNT,
        forall|i: int| 0 <= i < DEPTH_PROFILE_COUNT ==> r@[i] == depth_level(bottom as int, i),
{
    let mut r: Vec<u64> = Vec::new();
    let mut i: usize = 0;
    while i < DEPTH_PROFILE_COUNT
        invariant
            bottom <= MAX_DEPTH_MM,
            i <= DEPTH_PROFILE_COUNT,
            r@.len() == i,
            forall|j: int| 0 <= j < i ==> r@[j] == depth_level(bottom as int, j),
        decreases DEPTH_PROFILE_COUNT - i,
    {
        assert(bottom * (i as u64) <= MAX_DEPTH_MM * 101) by (nonlinear_arith)
            requires bottom <= MAX_DEPTH_MM, i <= 101;
        r.push(bottom * (i as u64) / ((DEPTH_PROFILE_COUNT - 1) as u64));
        i += 1;
    }
    r
}

/// Solar declination in milli-degrees on day `iday` (Cooper's formula).
pub open spec fn declination(iday: int) -> int {
    let s = sin_spec(360_000 * (284 + iday) / 365);
    if s >= 0 { 23_450 * s / SCALE as int } else { -(23_450 * (-s) / SCALE as int) }
}

/// Hour angle of time sample `k`, in milli-degrees.
pub open spec fn hour_angle(k: int) -> int {
    15_000 * k - 180_000
}

/// Sine of the solar elevation, times `SCALE` cubed, before clipping.
pub open spec fn elevation_numerator(lat: int, iday: int, k: int) -> int {
    let d = declination(iday);
    sin_spec(lat) * sin_spec(d) * SCALE as int
        + sin_spec(lat + 90_000) * sin_spec(d + 90_000) * sin_spec(hour_angle(k) + 90_000)
}

/// Sine of the solar elevation at time sample `k`, scaled, zero while the sun is down.
pub open spec fn elevation(lat: int, iday: int, k: int) -> int {
    let e = elevation_numerator(lat, iday, k);
    if e <= 0 {
        0
    } else if e / (SCALE * SCALE) as int >= SCALE {
        SCALE as int
    } else {
        e / (SCALE * SCALE) as int
    }
}

fn declination_exec(iday: u16) -> (r: i64)
    requires
        1 <= iday <= 366,
    ensures
        r == declination(iday as int),
        -23_450 <= r <= 23_450,
{
    let a: i64 = 360_000 * (284 + iday as i64) / 365;
    let s = sin_mdeg(a);
    if s >= 0 {
        assert(23_450 * s / 1_000_000 <= 23_450) by (nonlinear_arith) requires 0 <= s <= 1_000_000;
        23_450 * s / 1_000_000
    } else {
        assert(23_450 * (-s) / 1_000_000 <= 23_450) by (nonlinear_arith) requires 0 < -s <= 1_000_000;
        -(23_450 * (-s) / 1_000_000)
    }
}

/// Clipped sines of the solar elevation at every time sample of day `iday` at latitude `lat`
/// (milli-degrees).
pub fn elevations(lat: i64, iday: u16) -> (r: Vec<u64>)
    requires
        -90_000 <= lat <= 90_000,
        1 <= iday <= 366,
    ensures
        r@.len() == TIME_STEPS,
        forall|k: int| 0 <= k < TIME_STEPS ==> r@[k] == elevation(lat as int, iday as int, k),
        forall|k: int| 0 <= k < TIME_STEPS ==> r@[k] <= SCALE,
{
    let d = declination_exec(iday);
    let sl = sin_mdeg(lat);
    let sd = sin_mdeg(d);
    let cl = cos_mdeg(lat);
    let cd = cos_mdeg(d);
    let mut r: Vec<u64> = Vec::new();
    let mut k: usize = 0;
    while k < TIME_STEPS
        invariant
            k <= TIME_STEPS,
            r@.len() == k,
            d == declination(iday as int),
            sl == sin_spec(lat as int),
            sd == sin_spec(d as int),
            cl == sin_spec(lat + 90_000),
            cd == sin_spec(d + 90_000),
            -1_000_000 <= sl <= 1_000_000,
            -1_000_000 <= sd <= 1_000_000,
            -1_000_000 <= cl <= 1_000_000,
            -1_000_000 <= cd <= 1_000_000,
            forall|j: int| 0 <= j < k ==> r@[j] == elevation(lat as int, iday as int, j),
            forall|j: int| 0 <= j < k ==> r@[j] <= SCALE,
        decreases TIME_STEPS - k,
    {
        let cw = cos_mdeg(15_000 * (k as i64) - 180_000);
        assert(-1_000_000_000_000 <= sl * sd <= 1_000_000_000_000) by (nonlinear_arith)
            requires -1_000_000 <= sl <= 1_000_000, -1_000_000 <= sd <= 1_000_000;
        assert(-1_000_000_000_000 <= cl * cd <= 1_000_000_000_000) by (nonlinear_arith)
            requires -1_000_000 <= cl <= 1_000_000, -1_000_000 <= cd <= 1_000_000;
        let a: i64 = sl * sd;
        let b: i64 = cl * cd;
        assert(-1_000_000_000_000_000_000 <= b * cw <= 1_000_000_000_000_000_000) by (nonlinear_arith)
            requires -1_000_000_000_000 <= b <= 1_000_000_000_000, -1_000_000 <= cw <= 1_000_000;
        let e: i64 = a * 1_000_000 + b * cw;
        assert(e == elevation_numerator(lat as int, iday as int, k as int)) by (nonlinear_arith)
            requires e == a * 1_000_000 + b * cw, a == sl * sd, b == cl * cd,
                elevation_numerator(lat as int, iday as int, k as int)
                    == sl * sd * 1_000_000 + cl * cd * cw;
        let v: u64 = if e <= 0 {
            0
        } else if e / 1_000_000_000_000 >= 1_000_000 {
            1_000_000
        } else {
            (e / 1_000_000_000_000) as u64
        };
        r.push(v);
        k += 1;
    }
    r
}

} // verus!
