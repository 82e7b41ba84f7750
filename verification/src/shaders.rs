//! Procedural fragment shading: a closed set of material functions, each a
//! pure function of interpolated world position and scene time, dispatched
//! by a material tag. Every function combines its pattern with the
//! fragment's incoming lit base color and is total: no input can make one
//! trap or leave the representable band.

use vstd::prelude::*;
use crate::fixed::{
    fx_clamp, fx_mul, fx_ok, lemma_psin_periodic, psin, spec_clamp, spec_fx_mul, spec_psin,
    FX_ONE,
};
use crate::vecfx::{spec_len3, Vec3Fx};
use crate::vertex::{frag_ok, Fragment};
use crate::transform::Uniforms;

verus! {

/// The closed set of procedural materials; adding a material means adding
/// one tag and one pure shading function.
#[derive(Debug, Clone, Copy, PartialEq, Eq, Structural)]
pub enum PlanetShaderType {
    Terra,
    Vulcan,
    Solarius,
    Nepturion,
    Mossar,
}

/// One full cycle of the Solarius material's dominant term: all its time
/// coefficients are 2, so advancing time by half a wave period repeats it.
pub const SOLAR_CYCLE: i64 = 131072;

/// The wave shifted and scaled into [0, 1]: the building block of every
/// material pattern.
pub open spec fn spec_wave01(a: int) -> int {
    (spec_psin(a) + FX_ONE as int) / 2
}

pub fn wave01(a: i64) -> (r: i64)
    ensures
        r == spec_wave01(a as int),
        0 <= r <= FX_ONE,
{
    let s = psin(a);
    (s + FX_ONE) / 2
}

/// Linear blend from `lo` to `hi` by `t` in [0, 1] fixed point.
pub open spec fn spec_mix(lo: int, hi: int, t: int) -> int {
    lo + spec_fx_mul(t, hi - lo)
}

fn mix_fx(lo: i64, hi: i64, t: i64) -> (r: i64)
    requires
        -(2 * FX_ONE as int) <= lo <= 2 * FX_ONE as int,
        -(2 * FX_ONE as int) <= hi <= 2 * FX_ONE as int,
    ensures
        r == spec_mix(lo as int, hi as int, t as int),
{
    lo + fx_mul(t, hi - lo)
}

/// Oceans, continents and clouds: two interference patterns blended from
/// blue to green, lightened by a cloud band, multiplied into the base.
pub open spec fn spec_shader_terra(p: Vec3Fx, base: Vec3Fx, t: int) -> Vec3Fx {
    let land = spec_wave01(2 * p.x + p.z - t);
    let clouds = spec_wave01(5 * p.x + 5 * p.y + 2 * t);
    let r = spec_mix(0, 6554, land) + spec_fx_mul(clouds, 16384);
    let g = spec_mix(16384, 39322, land) + spec_fx_mul(clouds, 16384);
    let b = spec_mix(52429, 13107, land) + spec_fx_mul(clouds, 16384);
    Vec3Fx {
        x: spec_clamp(spec_fx_mul(base.x as int, r)) as i64,
        y: spec_clamp(spec_fx_mul(base.y as int, g)) as i64,
        z: spec_clamp(spec_fx_mul(base.z as int, b)) as i64,
    }
}

/// Cracked rock with lava showing through where the crack pattern and the
/// heat wave coincide, multiplied into the base.
pub open spec fn spec_shader_vulcan(p: Vec3Fx, base: Vec3Fx, t: int) -> Vec3Fx {
    let crack = spec_wave01(8 * p.x + 8 * p.y + 6 * p.z);
    let heat = spec_wave01(3 * p.x + 2 * p.y + 5 * t);
    let lava = spec_fx_mul(crack, heat);
    let r = spec_mix(19661, 65536, lava);
    let g = spec_mix(13107, 26214, lava);
    let b = spec_mix(9830, 3277, lava);
    Vec3Fx {
        x: spec_clamp(spec_fx_mul(base.x as int, r)) as i64,
        y: spec_clamp(spec_fx_mul(base.y as int, g)) as i64,
        z: spec_clamp(spec_fx_mul(base.z as int, b)) as i64,
    }
}

/// A star: plasma flow and turbulence mix a bright core against a dark red
/// rim, with a radiant pulse; mostly self-emissive, so the pattern is added
/// to a dimmed base rather than multiplied.
pub open spec fn spec_shader_solarius(p: Vec3Fx, base: Vec3Fx, t: int) -> Vec3Fx {
    let plasma = spec_wave01(4 * p.x + 2 * t);
    let turb = spec_wave01(6 * p.z + 4 * t);
    let spots = spec_fx_mul(plasma, turb);
    let pulse = spec_wave01(2 * t);
    let gain = 2 * FX_ONE as int + pulse;
    let r = spec_fx_mul(spec_mix(65536, 65536, spots), gain);
    let g = spec_fx_mul(spec_mix(9830, 58982, spots), gain);
    let b = spec_fx_mul(spec_mix(0, 19661, spots), gain);
    Vec3Fx {
        x: spec_clamp(spec_fx_mul(base.x as int, 19661) + r) as i64,
        y: spec_clamp(spec_fx_mul(base.y as int, 19661) + g) as i64,
        z: spec_clamp(spec_fx_mul(base.z as int, 19661) + b) as i64,
    }
}

/// A gas giant: horizontal bands with turbulent highlights, multiplied into
/// the base; within a fixed radial interval around the y axis a ring
/// pattern is added, fading toward the outer rim.
pub open spec fn spec_shader_nepturion(p: Vec3Fx, base: Vec3Fx, t: int) -> Vec3Fx {
    let band = spec_wave01(4 * p.y + t);
    let turb = spec_wave01(6 * p.x + 4 * p.z + 2 * t);
    let r = spec_mix(13107, 3277, band) + spec_fx_mul(turb, 13107);
    let g = spec_mix(26214, 13107, band) + spec_fx_mul(turb, 19661);
    let b = spec_mix(58982, 45875, band) + spec_fx_mul(turb, 26214);
    let cx = spec_clamp(spec_fx_mul(base.x as int, r));
    let cy = spec_clamp(spec_fx_mul(base.y as int, g));
    let cz = spec_clamp(spec_fx_mul(base.z as int, b));
    let radius = spec_len3(Vec3Fx { x: p.x, y: 0i64, z: p.z });
    if 78643 < radius && radius < 163840 {
        let pattern = spec_wave01(30 * radius + t);
        let fade = FX_ONE as int - crate::fixed::spec_fx_div(radius - 78643, 163840 - 78643);
        let glow = spec_fx_mul(pattern, fade);
        Vec3Fx {
            x: spec_clamp(cx + spec_fx_mul(glow, 45875)) as i64,
            y: spec_clamp(cy + spec_fx_mul(glow, 58982)) as i64,
            z: spec_clamp(cz + spec_fx_mul(glow, 65536)) as i64,
        }
    } else {
        Vec3Fx { x: cx as i64, y: cy as i64, z: cz as i64 }
    }
}

/// Mossy growth: two interfering patterns pick between dark and bright
/// green, with a slow bioluminescent glow, multiplied into the base.
pub open spec fn spec_shader_mossar(p: Vec3Fx, base: Vec3Fx, t: int) -> Vec3Fx {
    let moss = spec_fx_mul(spec_wave01(3 * p.x + 2 * p.y), spec_wave01(3 * p.z + p.y));
    let glow = spec_wave01(p.x + p.y + t);
    let r = spec_mix(3277, 6554, moss) + spec_fx_mul(glow, 13107);
    let g = spec_mix(16384, 39322, moss) + spec_fx_mul(glow, 26214);
    let b = spec_mix(3277, 13107, moss) + spec_fx_mul(glow, 19661);
    Vec3Fx {
        x: spec_clamp(spec_fx_mul(base.x as int, r)) as i64,
        y: spec_clamp(spec_fx_mul(base.y as int, g)) as i64,
        z: spec_clamp(spec_fx_mul(base.z as int, b)) as i64,
    }
}

/// The color the dispatch produces for a material, world position, base
/// color and time.
pub open spec fn spec_fragment_shade(
    m: PlanetShaderType,
    p: Vec3Fx,
    base: Vec3Fx,
    t: int,
) -> Vec3Fx {
    match m {
        PlanetShaderType::Terra => spec_shader_terra(p, base, t),
        PlanetShaderType::Vulcan => spec_shader_vulcan(p, base, t),
        PlanetShaderType::Solarius => spec_shader_solarius(p, base, t),
        PlanetShaderType::Nepturion => spec_shader_nepturion(p, base, t),
        PlanetShaderType::Mossar => spec_shader_mossar(p, base, t),
    }
}

pub fn shader_terra(fragment: &Fragment, time: i64) -> (r: Vec3Fx)
    requires
        frag_ok(*fragment),
        fx_ok(time as int),
    ensures
        r == spec_shader_terra(fragment.world_position, fragment.color, time as int),
{
    let p = fragment.world_position;
    let base = fragment.color;
    let land = wave01(2 * p.x + p.z - time);
    let clouds = wave01(5 * p.x + 5 * p.y + 2 * time);
    let r = mix_fx(0, 6554, land) + fx_mul(clouds, 16384);
    let g = mix_fx(16384, 39322, land) + fx_mul(clouds, 16384);
    let b = mix_fx(52429, 13107, land) + fx_mul(clouds, 16384);
    Vec3Fx {
        x: fx_clamp(fx_mul(base.x, r)),
        y: fx_clamp(fx_mul(base.y, g)),
        z: fx_clamp(fx_mul(base.z, b)),
    }
}

pub fn shader_vulcan(fragment: &Fragment, time: i64) -> (r: Vec3Fx)
    requires
        frag_ok(*fragment),
        fx_ok(time as int),
    ensures
        r == spec_shader_vulcan(fragment.world_position, fragment.color, time as int),
{
    let p = fragment.world_position;
    let base = fragment.color;
    let crack = wave01(8 * p.x + 8 * p.y + 6 * p.z);
    let heat = wave01(3 * p.x + 2 * p.y + 5 * time);
    let lava = fx_mul(crack, heat);
    let r = mix_fx(19661, 65536, lava);
    let g = mix_fx(13107, 26214, lava);
    let b = mix_fx(9830, 3277, lava);
    Vec3Fx {
        x: fx_clamp(fx_mul(base.x, r)),
        y: fx_clamp(fx_mul(base.y, g)),
        z: fx_clamp(fx_mul(base.z, b)),
    }
}

pub fn shader_solarius(fragment: &Fragment, time: i64) -> (r: Vec3Fx)
    requires
        frag_ok(*fragment),
        fx_ok(time as int),
    ensures
        r == spec_shader_solarius(fragment.world_position, fragment.color, time as int),
{
    let p = fragment.world_position;
    let base = fragment.color;
    let plasma = wave01(4 * p.x + 2 * time);
    let turb = wave01(6 * p.z + 4 * time);
    let spots = fx_mul(plasma, turb);
    let pulse = wave01(2 * time);
    let gain = 2 * FX_ONE + pulse;
    let r = fx_mul(mix_fx(65536, 65536, spots), gain);
    let g = fx_mul(mix_fx(9830, 58982, spots), gain);
    let b = fx_mul(mix_fx(0, 19661, spots), gain);
    Vec3Fx {
        x: fx_clamp(fx_mul(base.x, 19661) + r),
        y: fx_clamp(fx_mul(base.y, 19661) + g),
        z: fx_clamp(fx_mul(base.z, 19661) + b),
    }
}

pub fn shader_nepturion(fragment: &Fragment, time: i64) -> (r: Vec3Fx)
    requires
        frag_ok(*fragment),
        fx_ok(time as int),
    ensures
        r == spec_shader_nepturion(fragment.world_position, fragment.color, time as int),
{
    let p = fragment.world_position;
    let base = fragment.color;
    let band = wave01(4 * p.y + time);
    let turb = wave01(6 * p.x + 4 * p.z + 2 * time);
    let r = mix_fx(13107, 3277, band) + fx_mul(turb, 13107);
    let g = mix_fx(26214, 13107, band) + fx_mul(turb, 19661);
    let b = mix_fx(58982, 45875, band) + fx_mul(turb, 26214);
    let cx = fx_clamp(fx_mul(base.x, r));
    let cy = fx_clamp(fx_mul(base.y, g));
    let cz = fx_clamp(fx_mul(base.z, b));
    let flat = Vec3Fx { x: p.x, y: 0, z: p.z };
    let radius = flat.len();
    if 78643 < radius && radius < 163840 {
        let pattern = wave01(30 * radius + time);
        let fade = FX_ONE - crate::fixed::fx_div(radius - 78643, 163840 - 78643);
        let glow = fx_mul(pattern, fade);
        Vec3Fx {
            x: fx_clamp(cx + fx_mul(glow, 45875)),
            y: fx_clamp(cy + fx_mul(glow, 58982)),
            z: fx_clamp(cz + fx_mul(glow, 65536)),
        }
    } else {
        Vec3Fx { x: cx, y: cy, z: cz }
    }
}

pub fn shader_mossar(fragment: &Fragment, time: i64) -> (r: Vec3Fx)
    requires
        frag_ok(*fragment),
        fx_ok(time as int),
    ensures
        r == spec_shader_mossar(fragment.world_position, fragment.color, time as int),
{
    let p = fragment.world_position;
    let base = fragment.color;
    let moss = fx_mul(wave01(3 * p.x + 2 * p.y), wave01(3 * p.z + p.y));
    let glow = wave01(p.x + p.y + time);
    let r = mix_fx(3277, 6554, moss) + fx_mul(glow, 13107);
    let g = mix_fx(16384, 39322, moss) + fx_mul(glow, 26214);
    let b = mix_fx(3277, 13107, moss) + fx_mul(glow, 19661);
    Vec3Fx {
        x: fx_clamp(fx_mul(base.x, r)),
        y: fx_clamp(fx_mul(base.y, g)),
        z: fx_clamp(fx_mul(base.z, b)),
    }
}

/// Dispatches a fragment to its material's shading function. Pure and
/// stateless: the result depends only on the fragment's world position, its
/// incoming base color, the bundle's time, and the tag.
pub fn fragment_shader(fragment: &Fragment, uniforms: &Uniforms, planet_type: PlanetShaderType)
    -> (r: Vec3Fx)
    requires
        frag_ok(*fragment),
        fx_ok(uniforms.time as int),
    ensures
        r == spec_fragment_shade(planet_type, fragment.world_position, fragment.color,
            uniforms.time as int),
{
    let time = uniforms.time;
    match planet_type {
        PlanetShaderType::Terra => shader_terra(fragment, time),
        PlanetShaderType::Vulcan => shader_vulcan(fragment, time),
        PlanetShaderType::Solarius => shader_solarius(fragment, time),
        PlanetShaderType::Nepturion => shader_nepturion(fragment, time),
        PlanetShaderType::Mossar => shader_mossar(fragment, time),
    }
}

/// Law: fragment shading is deterministic. The color is a function of the
/// material tag, the world position, the base color, and the time alone, so
/// two fragments agreeing on those always shade to the same color.
pub proof fn lemma_shading_deterministic(
    m: PlanetShaderType,
    a: Fragment,
    b: Fragment,
    ta: int,
    tb: int,
)
    requires
        a.world_position == b.world_position,
        a.color == b.color,
        ta == tb,
    ensures
        spec_fragment_shade(m, a.world_position, a.color, ta) == spec_fragment_shade(m,
            b.world_position, b.color, tb),
{
}

/// Law: the Solarius material is periodic in time. Advancing the scene time
/// by one [`SOLAR_CYCLE`] leaves its color exactly unchanged, since every
/// time coefficient of its waves is 2.
pub proof fn lemma_solarius_periodic(p: Vec3Fx, base: Vec3Fx, t: int)
    ensures
        spec_shader_solarius(p, base, t + SOLAR_CYCLE) == spec_shader_solarius(p, base, t),
{
    lemma_psin_periodic(4 * p.x + 2 * t);
    lemma_psin_periodic(6 * p.z + 4 * t + crate::fixed::WAVE_PERIOD);
    lemma_psin_periodic(6 * p.z + 4 * t);
    lemma_psin_periodic(2 * t);
    assert(4 * p.x + 2 * (t + SOLAR_CYCLE) == 4 * p.x + 2 * t + crate::fixed::WAVE_PERIOD);
    assert(6 * p.z + 4 * (t + SOLAR_CYCLE) == 6 * p.z + 4 * t + 2 * crate::fixed::WAVE_PERIOD);
    assert(2 * (t + SOLAR_CYCLE) == 2 * t + crate::fixed::WAVE_PERIOD);
}

} // verus!
