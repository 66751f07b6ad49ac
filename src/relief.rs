//! The height of one column: a fractal sum of noise samples, normalized,
//! remapped by a fixed curve, attenuated with distance from the origin and
//! scaled to the maximum height.
use vstd::prelude::*;
use vstd::arithmetic::div_mod::{lemma_div_is_ordered, lemma_div_multiples_vanish, lemma_div_pos_is_pos};
use crate::fixed::{is_isqrt, isqrt};
use crate::terrain_configuration::TerrainConfiguration;

verus! {

/// Division rounding toward zero, as integer division in Rust does, for a
/// positive divisor.
pub open spec fn div_toward_zero(a: int, d: int) -> int {
    if a >= 0 {
        a / d
    } else {
        -((-a) / d)
    }
}

/// `v` kept within `[-cap, cap]`.
pub open spec fn clamp_magnitude(v: int, cap: int) -> int {
    if v > cap {
        cap
    } else if v < -cap {
        -cap
    } else {
        v
    }
}

fn div_toward_zero_exec(a: i128, d: i128) -> (r: i128)
    requires
        d > 0,
        a > i128::MIN,
    ensures
        r == div_toward_zero(a as int, d as int),
{
    if a >= 0 {
        a / d
    } else {
        proof {
            lemma_div_pos_is_pos(-a, d as int);
            assert((-a) / (d as int) <= -a) by (nonlinear_arith)
                requires
                    -a > 0,
                    d >= 1,
            ;
        }
        -((-a) / d)
    }
}

fn clamp_magnitude_exec(v: i128, cap: i128) -> (r: i128)
    requires
        cap >= 0,
    ensures
        r == clamp_magnitude(v as int, cap as int),
{
    if v > cap {
        cap
    } else if v < -cap {
        -cap
    } else {
        v
    }
}

/// Largest magnitude of an octave's amplitude (a million units), so that any
/// gain keeps the sum finite.
pub const AMPLITUDE_CAP: i128 = 1000000000;

/// Amplitude of octave `i`: one unit, multiplied by the gain at each octave
/// (rounded toward zero), its magnitude never above `AMPLITUDE_CAP`.
pub open spec fn octave_amplitude(gain: int, i: nat) -> int
    decreases i,
{
    if i == 0 {
        1000
    } else {
        clamp_magnitude(
            div_toward_zero(octave_amplitude(gain, (i - 1) as nat) * gain, 1000),
            AMPLITUDE_CAP as int,
        )
    }
}

pub proof fn lemma_octave_amplitude_bounds(gain: int, i: nat)
    ensures
        -AMPLITUDE_CAP <= octave_amplitude(gain, i) <= AMPLITUDE_CAP,
{
}

/// Sum of the octaves' samples, each weighted by its amplitude (in
/// millionths: a sample and an amplitude are both thousandths).
pub open spec fn fractal_sum(gain: int, samples: Seq<i32>) -> int
    decreases samples.len(),
{
    if samples.len() == 0 {
        0
    } else {
        fractal_sum(gain, samples.drop_last()) + samples.last() * octave_amplitude(
            gain,
            (samples.len() - 1) as nat,
        )
    }
}

/// Bound on the sum of samples of range `[-2^31, 2^31]` times the amplitude cap.
proof fn lemma_fractal_sum_bounds(gain: int, samples: Seq<i32>)
    ensures
        -samples.len() * 2147483648000000000 <= fractal_sum(gain, samples) <= samples.len()
            * 2147483648000000000,
    decreases samples.len(),
{
    if samples.len() > 0 {
        lemma_fractal_sum_bounds(gain, samples.drop_last());
        let n = (samples.len() - 1) as nat;
        lemma_octave_amplitude_bounds(gain, n);
        let a = octave_amplitude(gain, n);
        let s = samples.last() as int;
        assert(-2147483648000000000 <= s * a <= 2147483648000000000) by (nonlinear_arith)
            requires
                -1000000000 <= a <= 1000000000,
                -2147483648 <= s <= 2147483647,
        ;
    }
}

/// The largest magnitude the sum can reach, `2 (1 - gain^octaves)` units,
/// kept at one thousandth at least so that it can divide.
pub open spec fn fractal_bound(gain: int, octaves: nat) -> int {
    let m = 2 * (1000 - octave_amplitude(gain, octaves));
    if m < 1 {
        1
    } else {
        m
    }
}

/// The fractal sum of one column's samples mapped to `[0, 1]` by
/// `(sum / bound + 1) / 2`, clamped at both ends.
pub open spec fn normalized_height(gain: int, samples: Seq<i32>) -> int {
    let bound = 1000 * fractal_bound(gain, samples.len());
    let shifted = fractal_sum(gain, samples) + bound;
    if shifted <= 0 {
        0
    } else if shifted >= 2 * bound {
        1000
    } else {
        shifted * 1000 / (2 * bound)
    }
}

/// Combines the `fractal_octaves` noise samples of one column, which stand at
/// `samples[start..start + fractal_octaves]`, into a height in `[0, 1]`.
pub fn fractal_noise(
    terrain_configuration: &TerrainConfiguration,
    samples: &Vec<i32>,
    start: usize,
) -> (r: u64)
    requires
        start + terrain_configuration.fractal_octaves <= samples.len(),
    ensures
        r == normalized_height(
            terrain_configuration.fractal_amplitude as int,
            samples@.subrange(start as int, start + terrain_configuration.fractal_octaves),
        ),
        r <= 1000,
{
    let gain = terrain_configuration.fractal_amplitude as i128;
    let octaves = terrain_configuration.fractal_octaves;
    let ghost column = samples@.subrange(start as int, start + octaves);
    let mut height: i128 = 0;
    let mut amplitude: i128 = 1000;
    let mut i: u32 = 0;
    while i < octaves
        invariant
            i <= octaves,
            start + octaves <= samples.len(),
            column == samples@.subrange(start as int, start + octaves),
            gain == terrain_configuration.fractal_amplitude,
            octaves == terrain_configuration.fractal_octaves,
            height == fractal_sum(gain as int, column.subrange(0, i as int)),
            amplitude == octave_amplitude(gain as int, i as nat),
        decreases octaves - i,
    {
        proof {
            lemma_octave_amplitude_bounds(gain as int, i as nat);
            lemma_fractal_sum_bounds(gain as int, column.subrange(0, i as int));
            assert(column.subrange(0, i + 1).drop_last() =~= column.subrange(0, i as int));
        }
        let sample = samples[start + i as usize];
        assert(-2147483648000000000 <= sample * amplitude <= 2147483648000000000) by (nonlinear_arith)
            requires
                -1000000000 <= amplitude <= 1000000000,
                -2147483648 <= sample <= 2147483647,
        ;
        height = height + (sample as i128) * amplitude;
        assert(-1000000000 * 2147483648 <= amplitude * gain <= 1000000000 * 2147483648) by (nonlinear_arith)
            requires
                -1000000000 <= amplitude <= 1000000000,
                -2147483648 <= gain <= 2147483647,
        ;
        let next = div_toward_zero_exec(amplitude * gain, 1000);
        amplitude = clamp_magnitude_exec(next, AMPLITUDE_CAP);
        i = i + 1;
    }
    assert(column.subrange(0, octaves as int) =~= column);
    proof {
        lemma_octave_amplitude_bounds(gain as int, octaves as nat);
        lemma_fractal_sum_bounds(gain as int, column);
    }
    let doubled: i128 = 2 * (1000 - amplitude);
    let bound: i128 = if doubled < 1 {
        1000
    } else {
        1000 * doubled
    };
    let shifted: i128 = height + bound;
    if shifted <= 0 {
        0
    } else if shifted >= 2 * bound {
        1000
    } else {
        assert(shifted * 1000 / (2 * bound) <= 1000) by (nonlinear_arith)
            requires
                0 < shifted < 2 * bound,
        ;
        (shifted * 1000 / (2 * bound)) as u64
    }
}

/// Linear interpolation between the knots `(x0, y0)` and `(x1, y1)`, rounded down.
pub open spec fn interpolate(x0: int, y0: int, x1: int, y1: int, x: int) -> int {
    y0 + (x - x0) * (y1 - y0) / (x1 - x0)
}

/// The remapping curve through the knots (0, 0), (0.2, 0.02), (0.3, 0.05),
/// (0.5, 0.15), (0.7, 0.35), (0.85, 0.6), (0.95, 0.8) and (1, 1), linear
/// between knots; inputs past either end take that end's output.
pub open spec fn remap(x: int) -> int {
    if x <= 0 {
        0
    } else if x <= 200 {
        interpolate(0, 0, 200, 20, x)
    } else if x <= 300 {
        interpolate(200, 20, 300, 50, x)
    } else if x <= 500 {
        interpolate(300, 50, 500, 150, x)
    } else if x <= 700 {
        interpolate(500, 150, 700, 350, x)
    } else if x <= 850 {
        interpolate(700, 350, 850, 600, x)
    } else if x <= 950 {
        interpolate(850, 600, 950, 800, x)
    } else if x <= 1000 {
        interpolate(950, 800, 1000, 1000, x)
    } else {
        1000
    }
}

fn interpolate_exec(x0: u64, y0: u64, x1: u64, y1: u64, x: u64) -> (r: u64)
    requires
        x0 <= x <= x1 <= 1000,
        x0 < x1,
        y0 <= y1 <= 1000,
    ensures
        r == interpolate(x0 as int, y0 as int, x1 as int, y1 as int, x as int),
        y0 <= r <= y1,
{
    proof {
        lemma_interpolate_bounds(x0 as int, y0 as int, x1 as int, y1 as int, x as int, x as int);
    }
    assert((x - x0) * (y1 - y0) <= 1000 * 1000) by (nonlinear_arith)
        requires
            x - x0 <= 1000,
            y1 - y0 <= 1000,
            x >= x0,
            y1 >= y0,
    ;
    y0 + (x - x0) * (y1 - y0) / (x1 - x0)
}

/// Between its two knots an interpolation stays within their outputs and
/// does not decrease.
proof fn lemma_interpolate_bounds(x0: int, y0: int, x1: int, y1: int, a: int, b: int)
    requires
        x0 <= a <= b <= x1,
        x0 < x1,
        y0 <= y1,
    ensures
        y0 <= interpolate(x0, y0, x1, y1, a) <= interpolate(x0, y0, x1, y1, b) <= y1,
{
    let dx = x1 - x0;
    let dy = y1 - y0;
    assert(0 <= (a - x0) * dy <= (b - x0) * dy <= dx * dy) by (nonlinear_arith)
        requires
            0 <= a - x0 <= b - x0 <= dx,
            dy >= 0,
    ;
    lemma_div_pos_is_pos((a - x0) * dy, dx);
    lemma_div_is_ordered((a - x0) * dy, (b - x0) * dy, dx);
    lemma_div_is_ordered((b - x0) * dy, dx * dy, dx);
    lemma_div_multiples_vanish(dy, dx);
}

/// Applies the remapping curve to a normalized height.
pub fn piecewise_linear(x: u64) -> (r: u64)
    ensures
        r == remap(x as int),
        r <= 1000,
{
    if x == 0 {
        0
    } else if x <= 200 {
        interpolate_exec(0, 0, 200, 20, x)
    } else if x <= 300 {
        interpolate_exec(200, 20, 300, 50, x)
    } else if x <= 500 {
        interpolate_exec(300, 50, 500, 150, x)
    } else if x <= 700 {
        interpolate_exec(500, 150, 700, 350, x)
    } else if x <= 850 {
        interpolate_exec(700, 350, 850, 600, x)
    } else if x <= 950 {
        interpolate_exec(850, 600, 950, 800, x)
    } else if x <= 1000 {
        interpolate_exec(950, 800, 1000, 1000, x)
    } else {
        1000
    }
}

/// The remapping curve keeps both ends of `[0, 1]` in place and never
/// decreases on it.
pub proof fn lemma_remap_endpoints_and_monotonic(a: int, b: int)
    requires
        0 <= a <= b <= 1000,
    ensures
        remap(0) == 0,
        remap(1000) == 1000,
        remap(a) <= remap(b),
{
    let xs = seq![0int, 200, 300, 500, 700, 850, 950, 1000];
    let ys = seq![0int, 20, 50, 150, 350, 600, 800, 1000];
    lemma_interpolate_bounds(950, 800, 1000, 1000, 1000, 1000);
    lemma_remap_segment(xs[0], ys[0], xs[1], ys[1], a, b);
    lemma_remap_segment(xs[1], ys[1], xs[2], ys[2], a, b);
    lemma_remap_segment(xs[2], ys[2], xs[3], ys[3], a, b);
    lemma_remap_segment(xs[3], ys[3], xs[4], ys[4], a, b);
    lemma_remap_segment(xs[4], ys[4], xs[5], ys[5], a, b);
    lemma_remap_segment(xs[5], ys[5], xs[6], ys[6], a, b);
    lemma_remap_segment(xs[6], ys[6], xs[7], ys[7], a, b);
}

spec fn clamp_to(v: int, lo: int, hi: int) -> int {
    if v < lo {
        lo
    } else if v > hi {
        hi
    } else {
        v
    }
}

/// One segment of the curve, at `a` and `b` moved into the segment.
proof fn lemma_remap_segment(x0: int, y0: int, x1: int, y1: int, a: int, b: int)
    requires
        x0 < x1,
        y0 <= y1,
        a <= b,
    ensures
        y0 <= interpolate(x0, y0, x1, y1, clamp_to(a, x0, x1)) <= interpolate(
            x0,
            y0,
            x1,
            y1,
            clamp_to(b, x0, x1),
        ) <= y1,
        interpolate(x0, y0, x1, y1, x0) == y0,
        interpolate(x0, y0, x1, y1, x1) == y1,
{
    lemma_interpolate_bounds(x0, y0, x1, y1, clamp_to(a, x0, x1), clamp_to(b, x0, x1));
    lemma_interpolate_bounds(x0, y0, x1, y1, x1, x1);
    lemma_interpolate_bounds(x0, y0, x1, y1, x0, x0);
    lemma_div_multiples_vanish(y1 - y0, x1 - x0);
    assert((x1 - x0) * (y1 - y0) / (x1 - x0) == y1 - y0);
}

/// Distance of the column at `(x, y)` from the origin, rounded down.
pub open spec fn column_distance(x: int, y: int) -> int {
    choose|d: int| #[trigger] is_isqrt(x * x + y * y, d)
}

proof fn lemma_isqrt_exists(n: nat)
    ensures
        exists|r: int| #[trigger] is_isqrt(n as int, r),
    decreases n,
{
    if n == 0 {
        assert(is_isqrt(0, 0));
    } else {
        lemma_isqrt_exists((n - 1) as nat);
        let r = choose|r: int| #[trigger] is_isqrt(n - 1, r);
        if n < (r + 1) * (r + 1) {
            assert(is_isqrt(n as int, r));
        } else {
            assert(n < (r + 2) * (r + 2)) by (nonlinear_arith)
                requires
                    n - 1 < (r + 1) * (r + 1),
                    r >= 0,
            ;
            assert(is_isqrt(n as int, r + 1));
        }
    }
}

proof fn lemma_isqrt_unique(n: int, a: int, b: int)
    requires
        is_isqrt(n, a),
        is_isqrt(n, b),
    ensures
        a == b,
{
    if a < b {
        assert((a + 1) * (a + 1) <= b * b) by (nonlinear_arith)
            requires
                0 <= a + 1 <= b,
        ;
    } else if b < a {
        assert((b + 1) * (b + 1) <= a * a) by (nonlinear_arith)
            requires
                0 <= b + 1 <= a,
        ;
    }
}

/// The distance of `(x, y)` is the rounded-down root of `x^2 + y^2`.
proof fn lemma_column_distance(x: int, y: int, d: int)
    requires
        is_isqrt(x * x + y * y, d),
    ensures
        column_distance(x, y) == d,
{
    assert(x * x + y * y >= 0) by (nonlinear_arith);
    lemma_isqrt_exists((x * x + y * y) as nat);
    lemma_isqrt_unique(x * x + y * y, column_distance(x, y), d);
}

/// Radial attenuation `max(0, 1 - distance / radius)`; a zero radius flattens
/// every column.
pub open spec fn falloff_factor(distance: int, radius: int) -> int {
    if radius == 0 || distance >= radius {
        0
    } else {
        1000 - distance * 1000 / radius
    }
}

/// Attenuation of a column at `distance` from the origin.
pub fn falloff(distance: u64, radius: u32) -> (r: u64)
    ensures
        r == falloff_factor(distance as int, radius as int),
        r <= 1000,
{
    if radius == 0 || distance >= radius as u64 {
        0
    } else {
        assert(distance * 1000 / (radius as int) <= 1000) by (nonlinear_arith)
            requires
                0 <= distance < radius,
        ;
        1000 - distance * 1000 / radius as u64
    }
}

/// Final column height: the remapped height scaled by the maximum height and
/// the falloff, on top of one voxel edge.
pub open spec fn shaped_height(remapped: int, max_height: int, falloff: int, cube_size: int) -> int {
    remapped * max_height * falloff / 1000000 + cube_size
}

/// Shaped height of the column at `(x, y)` whose octave samples are `samples`.
pub open spec fn column_height_of(
    t: TerrainConfiguration,
    x: int,
    y: int,
    samples: Seq<i32>,
) -> int {
    shaped_height(
        remap(normalized_height(t.fractal_amplitude as int, samples)),
        t.max_height as int,
        falloff_factor(column_distance(x, y), t.failoff as int),
        t.cube_size as int,
    )
}

/// Largest column coordinate: every footprint extent is below it.
pub const COORDINATE_LIMIT: i64 = 2147483648;

/// Shaped height of the column at `(x, y)`, whose octave samples stand at
/// `samples[start..start + fractal_octaves]`.
pub fn column_height(
    terrain_configuration: &TerrainConfiguration,
    x: i64,
    y: i64,
    samples: &Vec<i32>,
    start: usize,
) -> (r: u64)
    requires
        0 <= x <= COORDINATE_LIMIT,
        0 <= y <= COORDINATE_LIMIT,
        start + terrain_configuration.fractal_octaves <= samples.len(),
    ensures
        r == column_height_of(
            *terrain_configuration,
            x as int,
            y as int,
            samples@.subrange(start as int, start + terrain_configuration.fractal_octaves),
        ),
        terrain_configuration.cube_size <= r <= terrain_configuration.max_height
            + terrain_configuration.cube_size,
{
    let t = terrain_configuration;
    let value = fractal_noise(t, samples, start);
    let value_piecewise = piecewise_linear(value);
    assert(x * x + y * y <= 2 * COORDINATE_LIMIT * COORDINATE_LIMIT) by (nonlinear_arith)
        requires
            0 <= x <= COORDINATE_LIMIT,
            0 <= y <= COORDINATE_LIMIT,
    ;
    let ux = x as u64;
    let uy = y as u64;
    let dist = isqrt(ux * ux + uy * uy);
    proof {
        lemma_column_distance(x as int, y as int, dist as int);
    }
    let fo = falloff(dist, t.failoff);
    let mh = t.max_height as u64;
    assert(value_piecewise * mh <= 1000 * 4294967295) by (nonlinear_arith)
        requires
            value_piecewise <= 1000,
            mh <= 4294967295,
    ;
    assert(value_piecewise * mh * fo <= 1000 * mh * 1000) by (nonlinear_arith)
        requires
            value_piecewise <= 1000,
            fo <= 1000,
    ;
    assert(1000 * mh * 1000 <= 1000 * 4294967295 * 1000) by (nonlinear_arith)
        requires
            mh <= 4294967295,
    ;
    assert(value_piecewise * mh * fo / 1000000 <= mh) by (nonlinear_arith)
        requires
            value_piecewise * mh * fo <= 1000 * mh * 1000,
            0 <= value_piecewise * mh * fo,
    ;
    value_piecewise * mh * fo / 1000000 + t.cube_size as u64
}

/// A column at least `failoff` from the origin is exactly one voxel edge
/// high, whatever its noise samples are.
pub proof fn lemma_falloff_boundary(t: TerrainConfiguration, x: int, y: int, samples: Seq<i32>)
    requires
        x * x + y * y >= t.failoff * t.failoff,
    ensures
        column_height_of(t, x, y, samples) == t.cube_size,
{
    assert(x * x + y * y >= 0) by (nonlinear_arith);
    lemma_isqrt_exists((x * x + y * y) as nat);
    let d = column_distance(x, y);
    let radius = t.failoff as int;
    if d < radius {
        assert((d + 1) * (d + 1) <= radius * radius) by (nonlinear_arith)
            requires
                0 <= d + 1 <= radius,
        ;
    }
    let m = remap(normalized_height(t.fractal_amplitude as int, samples)) * t.max_height;
    assert(m * 0 == 0);
}

/// Every column is at least one voxel edge high and at most the maximum
/// height above that.
pub proof fn lemma_column_height_bounds(t: TerrainConfiguration, x: int, y: int, samples: Seq<i32>)
    ensures
        t.cube_size <= column_height_of(t, x, y, samples) <= t.max_height + t.cube_size,
{
    let n = normalized_height(t.fractal_amplitude as int, samples);
    let r = remap(n);
    lemma_remap_range(n);
    let f = falloff_factor(column_distance(x, y), t.failoff as int);
    assert(x * x + y * y >= 0) by (nonlinear_arith);
    lemma_isqrt_exists((x * x + y * y) as nat);
    if t.failoff != 0 && column_distance(x, y) < t.failoff {
        let d = column_distance(x, y);
        assert(d * 1000 / (t.failoff as int) <= 1000) by (nonlinear_arith)
            requires
                0 <= d < t.failoff,
        ;
        lemma_div_pos_is_pos(d * 1000, t.failoff as int);
    }
    let m = t.max_height as int;
    assert(0 <= r * m * f <= 1000 * m * 1000) by (nonlinear_arith)
        requires
            0 <= r <= 1000,
            0 <= f <= 1000,
            m >= 0,
    ;
    assert(r * m * f / 1000000 <= m) by (nonlinear_arith)
        requires
            0 <= r * m * f <= 1000 * m * 1000,
    ;
    lemma_div_pos_is_pos(r * m * f, 1000000);
}

/// The remapping curve takes values in `[0, 1]`.
pub proof fn lemma_remap_range(x: int)
    ensures
        0 <= remap(x) <= 1000,
{
    if 0 < x <= 1000 {
        lemma_remap_endpoints_and_monotonic(0, x);
        lemma_remap_endpoints_and_monotonic(x, 1000);
    }
}

/// One unit of frequency: frequencies are carried in units of 10^-18, far
/// finer than the thousandths of the lacunarity, so that rounding does not
/// build up from octave to octave.
pub const FREQUENCY_ONE: i128 = 1000000000000000000;

/// Largest magnitude of an octave's frequency (2^31), so that scaled
/// coordinates stay representable.
pub const FREQUENCY_CAP: i128 = 2147483648000000000000000000;

/// Frequency of octave `i`, in units of `FREQUENCY_ONE`: one, multiplied by
/// the lacunarity at each octave (rounded toward zero), its magnitude never
/// above `FREQUENCY_CAP`.
pub open spec fn octave_frequency(lacunarity: int, i: nat) -> int
    decreases i,
{
    if i == 0 {
        FREQUENCY_ONE as int
    } else {
        clamp_magnitude(
            div_toward_zero(octave_frequency(lacunarity, (i - 1) as nat) * lacunarity, 1000),
            FREQUENCY_CAP as int,
        )
    }
}

pub proof fn lemma_octave_frequency_bounds(lacunarity: int, i: nat)
    ensures
        -FREQUENCY_CAP <= octave_frequency(lacunarity, i) <= FREQUENCY_CAP,
{
}

/// Next octave's frequency from this one's.
pub fn next_frequency(frequency: i128, lacunarity: i32) -> (r: i128)
    requires
        -FREQUENCY_CAP <= frequency <= FREQUENCY_CAP,
    ensures
        r == clamp_magnitude(div_toward_zero(frequency * lacunarity, 1000), FREQUENCY_CAP as int),
{
    assert(-FREQUENCY_CAP * 2147483648 <= frequency * lacunarity <= FREQUENCY_CAP * 2147483648) by (nonlinear_arith)
        requires
            -FREQUENCY_CAP <= frequency <= FREQUENCY_CAP,
            -2147483648 <= lacunarity <= 2147483647,
    ;
    let next = div_toward_zero_exec(frequency * (lacunarity as i128), 1000);
    clamp_magnitude_exec(next, FREQUENCY_CAP)
}

/// A ground coordinate (thousandths) scaled by a frequency.
pub fn scale_coordinate(x: i64, frequency: i128) -> (r: i64)
    requires
        0 <= x <= 2147483647,
        -FREQUENCY_CAP <= frequency <= FREQUENCY_CAP,
    ensures
        r == div_toward_zero(x * frequency, FREQUENCY_ONE as int),
{
    assert(-2147483647 * FREQUENCY_CAP <= x * frequency <= 2147483647 * FREQUENCY_CAP) by (nonlinear_arith)
        requires
            -FREQUENCY_CAP <= frequency <= FREQUENCY_CAP,
            0 <= x <= 2147483647,
    ;
    let r = div_toward_zero_exec((x as i128) * frequency, FREQUENCY_ONE);
    proof {
        let p = x * frequency;
        if p >= 0 {
            assert(p / (FREQUENCY_ONE as int) <= 2147483647 * 2147483648) by (nonlinear_arith)
                requires
                    0 <= p <= 2147483647 * FREQUENCY_CAP,
            ;
            lemma_div_pos_is_pos(p, FREQUENCY_ONE as int);
        } else {
            assert((-p) / (FREQUENCY_ONE as int) <= 2147483647 * 2147483648) by (nonlinear_arith)
                requires
                    0 <= -p <= 2147483647 * FREQUENCY_CAP,
            ;
            lemma_div_pos_is_pos(-p, FREQUENCY_ONE as int);
        }
    }
    r as i64
}

/// Where the noise is read for one octave of one column: the seed, the
/// column's coordinates scaled by the octave's frequency, and the fixed depth
/// coordinate, all in thousandths but the seed.
#[derive(Clone, Copy, Debug, PartialEq, Eq, Structural)]
pub struct NoiseQuery {
    pub seed: i64,
    pub x: i64,
    pub y: i64,
    pub z: i64,
}

/// The query for octave `octave` of the column at `(x, y)`.
pub open spec fn octave_query(t: TerrainConfiguration, x: int, y: int, octave: nat) -> NoiseQuery {
    let f = octave_frequency(t.fractal_frequency as int, octave);
    NoiseQuery {
        seed: t.seed,
        x: div_toward_zero(x * f, FREQUENCY_ONE as int) as i64,
        y: div_toward_zero(y * f, FREQUENCY_ONE as int) as i64,
        z: t.z,
    }
}

} // verus!
