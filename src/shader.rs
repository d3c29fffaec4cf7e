//! The integer parts of the four procedural shading models: variant
//! selection, the dual-phase flow animation, the gas giant's flow-texture UV
//! distortion, the wrap-around diffuse terms and the byte output.
use vstd::prelude::*;
use crate::fixed::{channel, channel_spec, clamp01_spec, smoothstep, smoothstep_spec, ONE, SCALAR_MAX};
use crate::texture::{flow_of, FlowmapTexture};

verus! {

/// Flow-cycle rate of the star's plasma (0.4 per second).
pub const SUN_FLOW_RATE: i64 = 26214;

/// Flow-cycle length of the star's plasma (0.5).
pub const SUN_FLOW_CYCLE: i64 = 32768;

/// Flow-cycle rate of the gas giant (0.25 per second).
pub const GAS_FLOW_RATE: i64 = 16384;

/// Flow-cycle length of the gas giant (1.5).
pub const GAS_FLOW_CYCLE: i64 = 98304;

/// Strength of the gas giant's flow distortion (0.2).
pub const GAS_FLOW_STRENGTH: i64 = 13107;

/// Wrap offset of the rocky planet's diffuse term (0.3).
pub const ROCKY_WRAP: i64 = 19661;

/// Wrap offset of the gas giant's diffuse term (0.4).
pub const GAS_WRAP: i64 = 26214;

/// Metal shader: faceted panels, scratches and anisotropic highlights.
pub struct MetalLambert;

/// Star shader: flow-distorted plasma, sunspots and corona.
pub struct SunShader;

/// Rocky planet shader: terrain octaves, craters and polar caps.
pub struct RockyPlanetShader;

/// Gas giant shader: flow-texture distortion, cloud bands and a storm.
pub struct GasGiantShader;

/// The shading model chosen for a frame.
#[derive(Clone, Copy, Debug, PartialEq, Eq, Structural)]
pub enum ShaderKind {
    Metal,
    Star,
    RockyPlanet,
    GasGiant,
}

impl ShaderKind {
    /// Picks a shading model by selector: 1 is the star, 2 the rocky planet,
    /// 3 the gas giant, and every other value the metal.
    pub fn from_index(index: usize) -> (r: ShaderKind)
        ensures
            r == (if index == 1 {
                ShaderKind::Star
            } else if index == 2 {
                ShaderKind::RockyPlanet
            } else if index == 3 {
                ShaderKind::GasGiant
            } else {
                ShaderKind::Metal
            }),
    {
        if index == 1 {
            ShaderKind::Star
        } else if index == 2 {
            ShaderKind::RockyPlanet
        } else if index == 3 {
            ShaderKind::GasGiant
        } else {
            ShaderKind::Metal
        }
    }
}

/// The two phase offsets of a dual-phase flow cycle and the weight of the
/// second one.
#[derive(Clone, Copy, Debug, PartialEq, Eq, Structural)]
pub struct Phases {
    pub phase0: i64,
    pub phase1: i64,
    pub blend: i64,
}

/// Phases at `time` for a cycle advancing at `rate` per second with length
/// `cycle`: the second phase trails the first by half a cycle, and the blend
/// rises smoothly from 0 to 1 over the first half of each cycle.
pub open spec fn phases_spec(time: int, rate: int, cycle: int) -> Phases {
    let t = time * rate / ONE as int;
    let p0 = t % cycle;
    let p1 = (t + cycle / 2) % cycle;
    let ramp = if 2 * p0 * ONE / cycle > ONE { ONE as int } else { 2 * p0 * ONE / cycle };
    Phases { phase0: p0 as i64, phase1: p1 as i64, blend: smoothstep_spec(0, ONE as int, ramp) as i64 }
}

/// Computes the phases of a dual-phase flow cycle.
pub fn flow_phases(time: i64, rate: i64, cycle: i64) -> (r: Phases)
    requires
        0 <= rate <= ONE,
        2 <= cycle <= 4 * ONE,
    ensures
        r == phases_spec(time as int, rate as int, cycle as int),
        0 <= r.phase0 < cycle,
        0 <= r.phase1 < cycle,
        0 <= r.blend <= ONE,
{
    proof {
        let (a, b) = (time as int, rate as int);
        assert(-0x8000_0000_0000_0000 * ONE <= a * b <= 0x8000_0000_0000_0000 * ONE) by (nonlinear_arith)
            requires
                -0x8000_0000_0000_0000 <= a <= 0x8000_0000_0000_0000,
                0 <= b <= ONE,
        ;
    }
    let prod = (time as i128) * (rate as i128);
    let t = match prod.checked_div_euclid(ONE as i128) {
        Some(q) => q,
        None => 0,
    };
    assert(-0x8000_0000_0000_0000 <= t <= 0x8000_0000_0000_0000) by (nonlinear_arith)
        requires
            -0x8000_0000_0000_0000 * ONE <= prod <= 0x8000_0000_0000_0000 * ONE,
            t == (prod as int) / (ONE as int),
    ;
    let c = cycle as i128;
    let p0 = match t.checked_rem_euclid(c) {
        Some(p) => p as i64,
        None => 0,
    };
    let p1 = match (t + c / 2).checked_rem_euclid(c) {
        Some(p) => p as i64,
        None => 0,
    };
    proof {
        let (p, c) = (p0 as int, cycle as int);
        assert(0 <= 2 * p * ONE <= 2 * c * ONE) by (nonlinear_arith)
            requires
                0 <= p < c,
        ;
    }
    let q = 2 * p0 * ONE / cycle;
    let ramp = if q > ONE { ONE } else { q };
    let blend = smoothstep(0, ONE, ramp);
    Phases { phase0: p0, phase1: p1, blend }
}

impl SunShader {
    /// Phases of the star's plasma flow at `time`.
    pub fn flow_phases(&self, time: i64) -> (r: Phases)
        ensures
            r == phases_spec(time as int, SUN_FLOW_RATE as int, SUN_FLOW_CYCLE as int),
    {
        flow_phases(time, SUN_FLOW_RATE, SUN_FLOW_CYCLE)
    }
}

/// A texture coordinate displaced by a flow component (in 1/255 units) over
/// `phase`, at the gas giant's flow strength.
pub open spec fn displaced(base: int, flow: int, phase: int) -> int {
    base + flow * phase * GAS_FLOW_STRENGTH / (255 * ONE as int)
}

/// Blend of two coordinates by a weight in `[0, ONE]`.
pub open spec fn mix(a: int, b: int, w: int) -> int {
    (a * (ONE - w) + b * w) / ONE as int
}

/// The gas giant's UV after flow distortion: with a texture, the base UV is
/// displaced by the flow sampled there, at both phases, and the two results
/// are blended; without one, the base UV is returned unchanged.
pub open spec fn distorted_uv(tex: Option<FlowmapTexture>, u: int, v: int, time: int) -> (int, int) {
    match tex {
        Some(t) => {
            let (r, g, _b) = t.sample_spec(u, v);
            let (fu, fv) = (flow_of(r), flow_of(g));
            let ph = phases_spec(time, GAS_FLOW_RATE as int, GAS_FLOW_CYCLE as int);
            (
                mix(displaced(u, fu, ph.phase0 as int), displaced(u, fu, ph.phase1 as int), ph.blend as int),
                mix(displaced(v, fv, ph.phase0 as int), displaced(v, fv, ph.phase1 as int), ph.blend as int),
            )
        },
        None => (u, v),
    }
}

pub open spec fn flowmap_ok(tex: FlowmapTexture) -> bool {
    tex.wf()
}

/// Displaces `base` by `flow` over `phase`.
fn displace(base: i64, flow: i32, phase: i64) -> (r: i64)
    requires
        -SCALAR_MAX <= base <= SCALAR_MAX,
        -255 <= flow <= 255,
        0 <= phase < GAS_FLOW_CYCLE,
    ensures
        r == displaced(base as int, flow as int, phase as int),
        -SCALAR_MAX - ONE <= r <= SCALAR_MAX + ONE,
{
    let ghost (f, p) = (flow as int, phase as int);
    proof {
        assert(-255 * GAS_FLOW_CYCLE <= f * p <= 255 * GAS_FLOW_CYCLE) by (nonlinear_arith)
            requires
                -255 <= f <= 255,
                0 <= p < GAS_FLOW_CYCLE,
        ;
        assert(-255 * GAS_FLOW_CYCLE * GAS_FLOW_STRENGTH <= f * p * GAS_FLOW_STRENGTH <= 255 * GAS_FLOW_CYCLE
            * GAS_FLOW_STRENGTH) by (nonlinear_arith)
            requires
                -255 * GAS_FLOW_CYCLE <= f * p <= 255 * GAS_FLOW_CYCLE,
        ;
    }
    let n = (flow as i64) * phase * GAS_FLOW_STRENGTH;
    let d = match n.checked_div_euclid(255 * ONE) {
        Some(q) => q,
        None => 0,
    };
    assert(-ONE <= d <= ONE) by (nonlinear_arith)
        requires
            -255 * GAS_FLOW_CYCLE * GAS_FLOW_STRENGTH <= n <= 255 * GAS_FLOW_CYCLE * GAS_FLOW_STRENGTH,
            d == (n as int) / (255 * (ONE as int)),
    ;
    base + d
}

/// Blends `a` and `b` by the weight `w`.
fn blend_coord(a: i64, b: i64, w: i64) -> (r: i64)
    requires
        -2 * SCALAR_MAX <= a <= 2 * SCALAR_MAX,
        -2 * SCALAR_MAX <= b <= 2 * SCALAR_MAX,
        0 <= w <= ONE,
    ensures
        r == mix(a as int, b as int, w as int),
{
    let ghost (x, y, k) = (a as int, b as int, w as int);
    proof {
        assert(-0x200_0000_0000 * 0x1_0000 <= x * (ONE - k) <= 0x200_0000_0000 * 0x1_0000) by (nonlinear_arith)
            requires
                -0x200_0000_0000 <= x <= 0x200_0000_0000,
                0 <= k <= 0x1_0000,
        ;
        assert(-0x200_0000_0000 * 0x1_0000 <= y * k <= 0x200_0000_0000 * 0x1_0000) by (nonlinear_arith)
            requires
                -0x200_0000_0000 <= y <= 0x200_0000_0000,
                0 <= k <= 0x1_0000,
        ;
    }
    let n = a * (ONE - w) + b * w;
    match n.checked_div_euclid(ONE) {
        Some(q) => q,
        None => 0,
    }
}

impl GasGiantShader {
    /// The UV at which the gas giant's cloud patterns are evaluated. Without
    /// a flow texture the base UV passes through undistorted.
    pub fn distort_uv(&self, base_u: i64, base_v: i64, time: i64, flowmap: Option<&FlowmapTexture>) -> (r: (i64, i64))
        requires
            -SCALAR_MAX <= base_u <= SCALAR_MAX,
            -SCALAR_MAX <= base_v <= SCALAR_MAX,
            flowmap matches Some(t) ==> flowmap_ok(*t),
        ensures
            (r.0 as int, r.1 as int) == distorted_uv(
                match flowmap {
                    Some(t) => Some(*t),
                    None => None,
                },
                base_u as int,
                base_v as int,
                time as int,
            ),
    {
        match flowmap {
            Some(tex) => {
                let (fu, fv) = tex.sample_flow(base_u, base_v);
                let ph = flow_phases(time, GAS_FLOW_RATE, GAS_FLOW_CYCLE);
                let u0 = displace(base_u, fu, ph.phase0);
                let u1 = displace(base_u, fu, ph.phase1);
                let v0 = displace(base_v, fv, ph.phase0);
                let v1 = displace(base_v, fv, ph.phase1);
                (blend_coord(u0, u1, ph.blend), blend_coord(v0, v1, ph.blend))
            },
            None => (base_u, base_v),
        }
    }
}

/// Gain of the gas giant's wrapped diffuse ramp (0.9).
pub const GAS_DIFFUSE_GAIN: i64 = 58982;

/// Wrap-around diffuse: `ambient + (1 - ambient) * smoothstep(0, 1, gain * (n.l + wrap) / (1 + wrap))`,
/// with `n.l` clamped to `[0, 1]` first, which keeps the terminator soft.
pub open spec fn wrapped_diffuse_spec(ambient: int, ndotl: int, wrap: int, gain: int) -> int {
    let w = (clamp01_spec(ndotl) + wrap) * ONE / (ONE + wrap) * gain / ONE as int;
    ambient + (ONE - ambient) * smoothstep_spec(0, ONE as int, w) / ONE as int
}

/// Computes the wrap-around diffuse term.
pub fn wrapped_diffuse(ambient: i64, ndotl: i64, wrap: i64, gain: i64) -> (r: i64)
    requires
        0 <= ambient <= ONE,
        0 <= wrap <= ONE,
        0 <= gain <= ONE,
    ensures
        r == wrapped_diffuse_spec(ambient as int, ndotl as int, wrap as int, gain as int),
        0 <= r <= ONE,
{
    let n = crate::fixed::clamp01(ndotl);
    let ghost (ni, wi, gi) = (n as int, wrap as int, gain as int);
    proof {
        assert(0 <= (ni + wi) * ONE <= 2 * ONE * ONE) by (nonlinear_arith)
            requires
                0 <= ni <= ONE,
                0 <= wi <= ONE,
        ;
        assert(0 <= (ni + wi) * ONE / (ONE + wi) <= ONE) by (nonlinear_arith)
            requires
                0 <= ni <= ONE,
                0 <= wi,
        ;
    }
    let q = (n + wrap) * ONE / (ONE + wrap);
    proof {
        assert(0 <= (q as int) * gi <= ONE * ONE) by (nonlinear_arith)
            requires
                0 <= q <= ONE,
                0 <= gi <= ONE,
        ;
        assert((q as int) * gi / (ONE as int) <= ONE) by (nonlinear_arith)
            requires
                0 <= (q as int) * gi <= ONE * ONE,
        ;
    }
    let w = q * gain / ONE;
    let sm = smoothstep(0, ONE, w);
    let ghost (a, m) = (ambient as int, sm as int);
    proof {
        assert(0 <= (ONE - a) * m <= (ONE - a) * ONE) by (nonlinear_arith)
            requires
                0 <= a <= ONE,
                0 <= m <= ONE,
        ;
        assert(a + (ONE - a) * m / (ONE as int) <= ONE) by (nonlinear_arith)
            requires
                0 <= (ONE - a) * m <= (ONE - a) * ONE,
                0 <= a <= ONE,
        ;
    }
    ambient + (ONE - ambient) * sm / ONE
}

impl RockyPlanetShader {
    /// The rocky planet's diffuse term, wrapped by 0.3.
    pub fn diffuse(&self, ambient: i64, ndotl: i64) -> (r: i64)
        requires
            0 <= ambient <= ONE,
        ensures
            r == wrapped_diffuse_spec(ambient as int, ndotl as int, ROCKY_WRAP as int, ONE as int),
            0 <= r <= ONE,
    {
        wrapped_diffuse(ambient, ndotl, ROCKY_WRAP, ONE)
    }
}

impl GasGiantShader {
    /// The gas giant's diffuse term, wrapped by 0.4 with a gain of 0.9.
    pub fn diffuse(&self, ambient: i64, ndotl: i64) -> (r: i64)
        requires
            0 <= ambient <= ONE,
        ensures
            r == wrapped_diffuse_spec(ambient as int, ndotl as int, GAS_WRAP as int, GAS_DIFFUSE_GAIN as int),
            0 <= r <= ONE,
    {
        wrapped_diffuse(ambient, ndotl, GAS_WRAP, GAS_DIFFUSE_GAIN)
    }
}

/// Byte of a base channel scaled by an intensity: `round(base * clamp01(i))`,
/// halves rounded up.
pub open spec fn tint_spec(base: u8, intensity: int) -> int {
    (base * clamp01_spec(intensity) + ONE / 2) / ONE as int
}

/// `round(b * i / ONE)` for an intensity `i` in `[0, ONE]`.
fn scale_byte(b: u8, i: i64) -> (r: u8)
    requires
        0 <= i <= ONE,
    ensures
        r == ((b as int) * (i as int) + ONE / 2) / ONE as int,
{
    proof {
        assert(0 <= (b as int) * (i as int) <= 255 * ONE) by (nonlinear_arith)
            requires
                0 <= i <= ONE,
                b <= 255,
        ;
    }
    let v = ((b as i64) * i + ONE / 2) / ONE;
    assert(v <= 255) by (nonlinear_arith)
        requires
            0 <= (b as int) * (i as int) <= 255 * 65536,
            v == ((b as int) * (i as int) + 32768) / 65536,
    ;
    v as u8
}

impl MetalLambert {
    /// The metal's color: the base color scaled by the clamped final intensity.
    pub fn tint(&self, base: (u8, u8, u8), intensity: i64) -> (out: (u8, u8, u8))
        ensures
            out.0 as int == tint_spec(base.0, intensity as int),
            out.1 as int == tint_spec(base.1, intensity as int),
            out.2 as int == tint_spec(base.2, intensity as int),
    {
        let i = crate::fixed::clamp01(intensity);
        (scale_byte(base.0, i), scale_byte(base.1, i), scale_byte(base.2, i))
    }
}

/// `frac * x`, for a fraction in `[0, ONE]`, rounded down.
pub open spec fn part(frac: int, x: int) -> int {
    frac * x / ONE as int
}

/// Byte-scale fixed-point value (255 * ONE is full) to a byte, after scaling
/// by a clamped intensity: `round(min(x * clamp01(i), 255))`.
pub open spec fn lit_byte(x: int, intensity: int) -> int {
    let v = part(clamp01_spec(intensity), x);
    ((if v > 255 * ONE { 255 * ONE } else { v }) + ONE / 2) / ONE as int
}

pub open spec fn unit(x: int) -> bool {
    0 <= x <= ONE
}

/// Computes `part(frac, x)`.
fn scale_by(frac: i64, x: i64) -> (r: i64)
    requires
        0 <= frac <= ONE,
        0 <= x <= 0x100_0000_0000,
    ensures
        r == part(frac as int, x as int),
        0 <= r <= x,
{
    proof {
        let (f, v) = (frac as int, x as int);
        assert(0 <= f * v <= ONE * v) by (nonlinear_arith)
            requires
                0 <= f <= ONE,
                0 <= v,
        ;
        assert(f * v / (ONE as int) <= v) by (nonlinear_arith)
            requires
                0 <= f * v <= ONE * v,
        ;
    }
    frac * x / ONE
}

/// Computes `lit_byte(x, intensity)`.
fn lit(x: i64, intensity: i64) -> (r: u8)
    requires
        0 <= x <= 0x100_0000_0000,
    ensures
        r == lit_byte(x as int, intensity as int),
{
    let i = crate::fixed::clamp01(intensity);
    let v = scale_by(i, x);
    let c = if v > 255 * ONE { 255 * ONE } else { v };
    assert(((c as int) + 32768) / 65536 <= 255) by (nonlinear_arith)
        requires
            0 <= c <= 255 * 65536,
    ;
    ((c + ONE / 2) / ONE) as u8
}

/// The rocky planet's surface color: rock-brown channels interpolated by the
/// terrain value `t`, the green one raised by the crater value `k`, lit by
/// the clamped intensity.
pub open spec fn rocky_rgb_spec(t: int, k: int, intensity: int) -> (int, int, int) {
    (
        lit_byte(135 * ONE + 55 * t, intensity),
        lit_byte(68 * ONE + 48 * t + 22 * k, intensity),
        lit_byte(32 * ONE + 32 * t, intensity),
    )
}

impl RockyPlanetShader {
    /// Final color from the terrain and crater values, each clamped to `[0, ONE]`.
    pub fn surface_color(&self, terrain: i64, crater: i64, intensity: i64) -> (r: (u8, u8, u8))
        ensures
            (r.0 as int, r.1 as int, r.2 as int) == rocky_rgb_spec(
                clamp01_spec(terrain as int),
                clamp01_spec(crater as int),
                intensity as int,
            ),
    {
        let terrain = crate::fixed::clamp01(terrain);
        let crater = crate::fixed::clamp01(crater);
        (
            lit(135 * ONE + 55 * terrain, intensity),
            lit(68 * ONE + 48 * terrain + 22 * crater, intensity),
            lit(32 * ONE + 32 * terrain, intensity),
        )
    }
}

/// The star's warm palette: each channel is the intensity and the corona
/// weighted by fixed factors (1.08 and 0.3 for red, 0.98 and 0.25 for green,
/// 0.68 and 0.15 for blue), clamped and scaled to a byte.
pub open spec fn sun_rgb_spec(intensity: int, corona: int) -> (int, int, int) {
    (
        channel_spec((intensity * 70779 + corona * 19661) / ONE as int),
        channel_spec((intensity * 64225 + corona * 16384) / ONE as int),
        channel_spec((intensity * 44564 + corona * 9830) / ONE as int),
    )
}

/// `(i wi + c wc) / ONE`, saturated to `[-ONE, 2 ONE]`, which leaves its
/// channel byte unchanged.
fn weigh(i: i64, wi: i64, c: i64, wc: i64) -> (r: i64)
    requires
        unit(i as int),
        0 <= wi <= 2 * ONE,
        0 <= wc <= ONE,
    ensures
        channel_spec(r as int) == channel_spec((i * wi + c * wc) / ONE as int),
{
    proof {
        assert(0 <= (i as int) * (wi as int) <= 2 * ONE * ONE) by (nonlinear_arith)
            requires
                unit(i as int),
                0 <= wi <= 2 * ONE,
        ;
        assert(-0x8000_0000_0000_0000 * ONE <= (c as int) * (wc as int) <= 0x8000_0000_0000_0000 * ONE)
            by (nonlinear_arith)
            requires
                -0x8000_0000_0000_0000 <= c <= 0x8000_0000_0000_0000,
                0 <= wc <= ONE,
        ;
    }
    let n = (i as i128) * (wi as i128) + (c as i128) * (wc as i128);
    let q = match n.checked_div_euclid(ONE as i128) {
        Some(q) => q,
        None => 0,
    };
    assert(-0x8000_0000_0000_0000 - 2 * ONE <= q <= 0x8000_0000_0000_0000 + 2 * ONE) by (nonlinear_arith)
        requires
            -0x8000_0000_0000_0000 * ONE <= n <= 0x8000_0000_0000_0000 * ONE + 2 * ONE * ONE,
            q == (n as int) / (ONE as int),
    ;
    if q < -ONE as i128 {
        -ONE
    } else if q > 2 * ONE as i128 {
        2 * ONE
    } else {
        q as i64
    }
}

impl SunShader {
    /// Final color from the clamped intensity and the corona term.
    pub fn palette(&self, intensity: i64, corona: i64) -> (r: (u8, u8, u8))
        ensures
            (r.0 as int, r.1 as int, r.2 as int) == sun_rgb_spec(clamp01_spec(intensity as int), corona as int),
    {
        let i = crate::fixed::clamp01(intensity);
        (
            channel(weigh(i, 70779, corona, 19661)),
            channel(weigh(i, 64225, corona, 16384)),
            channel(weigh(i, 44564, corona, 9830)),
        )
    }
}

/// One channel of the gas giant's color before lighting: light and dark band
/// colors (each raised by the turbulence) mixed by the band value, cloud
/// detail applied as a gain of `0.85 + 0.3 cloud`, then the storm color
/// blended in by the storm weight. All in byte-scale fixed point.
pub open spec fn gas_channel(light: int, light_turb: int, dark: int, dark_turb: int, storm_color: int, band: int, cloud: int, turb: int, storm: int) -> int {
    let l = light * ONE + light_turb * turb;
    let d = dark * ONE + dark_turb * turb;
    let base = part(band, l) + part(ONE - band, d);
    let clouded = part(55706, base) + part(cloud, part(19661, base));
    part(ONE - storm, clouded) + part(storm, storm_color * ONE)
}

pub open spec fn gas_rgb_spec(band: int, cloud: int, turb: int, storm: int, intensity: int) -> (int, int, int) {
    (
        lit_byte(gas_channel(210, 25, 150, 20, 200, band, cloud, turb, storm), intensity),
        lit_byte(gas_channel(175, 30, 110, 20, 80, band, cloud, turb, storm), intensity),
        lit_byte(gas_channel(130, 20, 70, 15, 60, band, cloud, turb, storm), intensity),
    )
}

fn gas_mix(
    light: i64,
    light_turb: i64,
    dark: i64,
    dark_turb: i64,
    storm_color: i64,
    band: i64,
    cloud: i64,
    turb: i64,
    storm: i64,
) -> (r: i64)
    requires
        0 <= light <= 255,
        0 <= light_turb <= 255,
        0 <= dark <= 255,
        0 <= dark_turb <= 255,
        0 <= storm_color <= 255,
        unit(band as int),
        unit(cloud as int),
        unit(turb as int),
        unit(storm as int),
    ensures
        r == gas_channel(light as int, light_turb as int, dark as int, dark_turb as int, storm_color as int,
            band as int, cloud as int, turb as int, storm as int),
        0 <= r <= 0x100_0000_0000,
{
    proof {
        assert(0 <= (light_turb as int) * (turb as int) <= 255 * ONE) by (nonlinear_arith)
            requires
                0 <= light_turb <= 255,
                unit(turb as int),
        ;
        assert(0 <= (dark_turb as int) * (turb as int) <= 255 * ONE) by (nonlinear_arith)
            requires
                0 <= dark_turb <= 255,
                unit(turb as int),
        ;
    }
    let l = light * ONE + light_turb * turb;
    let d = dark * ONE + dark_turb * turb;
    let base = scale_by(band, l) + scale_by(ONE - band, d);
    let clouded = scale_by(55706, base) + scale_by(cloud, scale_by(19661, base));
    scale_by(ONE - storm, clouded) + scale_by(storm, storm_color * ONE)
}

impl GasGiantShader {
    /// Final color from the band, cloud, turbulence and storm values, each
    /// clamped to `[0, ONE]`, lit by the clamped intensity.
    pub fn cloud_color(&self, band: i64, cloud: i64, turb: i64, storm: i64, intensity: i64) -> (r: (u8, u8, u8))
        ensures
            (r.0 as int, r.1 as int, r.2 as int) == gas_rgb_spec(
                clamp01_spec(band as int),
                clamp01_spec(cloud as int),
                clamp01_spec(turb as int),
                clamp01_spec(storm as int),
                intensity as int,
            ),
    {
        let (band, cloud) = (crate::fixed::clamp01(band), crate::fixed::clamp01(cloud));
        let (turb, storm) = (crate::fixed::clamp01(turb), crate::fixed::clamp01(storm));
        (
            lit(gas_mix(210, 25, 150, 20, 200, band, cloud, turb, storm), intensity),
            lit(gas_mix(175, 30, 110, 20, 80, band, cloud, turb, storm), intensity),
            lit(gas_mix(130, 20, 70, 15, 60, band, cloud, turb, storm), intensity),
        )
    }
}

/// The metal's final intensity: the diffuse term `ambient + (1 - ambient) * 0.7 n.l`
/// scaled by the panel brightness and the scratch factor, plus the rim,
/// specular and environment reflections weighted 0.4, 0.8 and 0.3, clamped.
pub open spec fn metal_intensity_spec(ambient: int, ndotl: int, panel: int, scratch: int, rim: int, spec: int, env: int) -> int {
    let diffuse = ambient + part(ONE - ambient, part(45875, ndotl));
    let base = part(scratch, part(diffuse, panel));
    clamp01_spec(base + (rim * 26214 + spec * 52429 + env * 19661) / ONE as int)
}

impl MetalLambert {
    /// Combines the metal's lighting terms into one intensity in `[0, ONE]`.
    pub fn intensity(&self, ambient: i64, ndotl: i64, panel: i64, scratch: i64, rim: i64, spec: i64, env: i64) -> (r: i64)
        requires
            unit(ambient as int),
            unit(ndotl as int),
            0 <= panel <= 2 * ONE,
            unit(scratch as int),
            0 <= rim <= 4 * ONE,
            0 <= spec <= 4 * ONE,
            0 <= env <= 4 * ONE,
        ensures
            r == metal_intensity_spec(ambient as int, ndotl as int, panel as int, scratch as int, rim as int,
                spec as int, env as int),
            unit(r as int),
    {
        let x = scale_by(45875, ndotl);
        let y = scale_by(ONE - ambient, x);
        assert(y <= ONE - ambient) by (nonlinear_arith)
            requires
                0 <= x <= ONE,
                0 <= ONE - ambient,
                y == ((ONE - ambient) as int) * (x as int) / (ONE as int),
        ;
        let diffuse = ambient + y;
        let base = scale_by(scratch, scale_by(diffuse, panel));
        proof {
            assert(0 <= (rim as int) * 26214 <= 4 * ONE * ONE) by (nonlinear_arith)
                requires
                    0 <= rim <= 4 * ONE,
            ;
            assert(0 <= (spec as int) * 52429 <= 4 * ONE * ONE) by (nonlinear_arith)
                requires
                    0 <= spec <= 4 * ONE,
            ;
            assert(0 <= (env as int) * 19661 <= 4 * ONE * ONE) by (nonlinear_arith)
                requires
                    0 <= env <= 4 * ONE,
            ;
        }
        crate::fixed::clamp01(base + (rim * 26214 + spec * 52429 + env * 19661) / ONE)
    }
}

} // verus!
