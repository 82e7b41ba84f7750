//! The render orchestrator: vertex, triangle and fragment budgets, the
//! depth-range cull, batched shading under a wall-clock time box, and the
//! bounds-checked conversion of shaded fragments into framebuffer writes.

use vstd::prelude::*;
use vstd::math::min;
use crate::color::Color;
use crate::fixed::{fx_ok, FX_ONE};
use crate::raster::{lemma_spec_triangle_ok, spec_triangle, triangle};
use crate::shaders::{spec_fragment_shade, fragment_shader, PlanetShaderType};
use crate::transform::{spec_transformed_vertex, uniforms_ok, vertex_shader, Uniforms};
use crate::vecfx::vec3_ok;
use crate::vertex::{frag_ok, vertex_ok, Fragment, Light, Vertex};

verus! {

/// At most this many vertices of a stream are transformed per render call.
pub const MAX_VERTICES: usize = 1500;

/// At most this many visible triangles are rasterized per render call.
pub const MAX_TRIANGLES: usize = 500;

/// At most this many fragments are produced per render call.
pub const MAX_FRAGMENTS: usize = 15000;

/// Fragments are shaded in batches of this size between deadline checks.
pub const SHADE_BATCH: usize = 1000;

/// Half-width of the screen-depth acceptance window, in fixed point.
pub const DEPTH_WINDOW: i64 = 2000 * 65536;

/// Wall-clock budget of one render call, in milliseconds.
pub const FRAME_TIME_LIMIT_MS: u128 = 50;

/// The transform stage output: the stream's prefix up to the vertex budget,
/// each vertex put through the vertex shader.
pub open spec fn spec_transform_stage(vs: Seq<Vertex>, u: Uniforms) -> Seq<Vertex> {
    vs.take(min(vs.len() as int, MAX_VERTICES as int)).map_values(
        |v: Vertex| spec_transformed_vertex(v, u),
    )
}

/// Transforms the vertex stream, honoring the vertex budget: exactly
/// `min(len, MAX_VERTICES)` vertices are transformed and the rest of the
/// stream is dropped for this call.
pub fn transform_vertices(vertices: &Vec<Vertex>, uniforms: &Uniforms) -> (r: Vec<Vertex>)
    requires
        forall|i: int| 0 <= i < vertices@.len() ==> vertex_ok(#[trigger] vertices@[i]),
        uniforms_ok(*uniforms),
    ensures
        r@ == spec_transform_stage(vertices@, *uniforms),
        r@.len() == min(vertices@.len() as int, MAX_VERTICES as int),
        forall|i: int| 0 <= i < r@.len() ==> vertex_ok(#[trigger] r@[i]),
{
    let n = if vertices.len() > MAX_VERTICES {
        MAX_VERTICES
    } else {
        vertices.len()
    };
    let mut out: Vec<Vertex> = Vec::new();
    let mut i: usize = 0;
    while i < n
        invariant
            i <= n,
            n == min(vertices@.len() as int, MAX_VERTICES as int),
            out@.len() == i,
            forall|j: int|
                0 <= j < i ==> #[trigger] out@[j] == spec_transformed_vertex(vertices@[j],
                    *uniforms),
            forall|j: int| 0 <= j < i ==> vertex_ok(#[trigger] out@[j]),
            forall|k: int| 0 <= k < vertices@.len() ==> vertex_ok(#[trigger] vertices@[k]),
            uniforms_ok(*uniforms),
        decreases n - i,
    {
        let tv = vertex_shader(&vertices[i], uniforms);
        out.push(tv);
        i = i + 1;
    }
    proof {
        assert(out@ =~= spec_transform_stage(vertices@, *uniforms));
    }
    out
}

/// The assembly stage output: consecutive triples of the transformed
/// stream; a trailing remainder of one or two vertices forms no triangle.
pub open spec fn spec_triples(s: Seq<Vertex>) -> Seq<(Vertex, Vertex, Vertex)> {
    Seq::new((s.len() / 3) as nat, |i: int| (s[3 * i], s[3 * i + 1], s[3 * i + 2]))
}

/// Groups the transformed vertices into consecutive triples, dropping any
/// trailing one or two leftover vertices.
pub fn assemble_triangles(tv: &Vec<Vertex>) -> (r: Vec<(Vertex, Vertex, Vertex)>)
    ensures
        r@ == spec_triples(tv@),
        r@.len() == tv@.len() / 3,
        forall|i: int|
            0 <= i < r@.len() ==> #[trigger] r@[i] == (tv@[3 * i], tv@[3 * i + 1], tv@[3 * i
                + 2]),
{
    let n = tv.len() / 3;
    proof {
        assert(3 * (tv@.len() as int / 3) <= tv@.len() as int) by (nonlinear_arith);
    }
    let mut out: Vec<(Vertex, Vertex, Vertex)> = Vec::new();
    let mut i: usize = 0;
    while i < n
        invariant
            i <= n,
            n == tv@.len() as int / 3,
            3 * (n as int) <= tv@.len() as int,
            tv@.len() <= usize::MAX,
            out@.len() == i,
            forall|j: int|
                0 <= j < i ==> #[trigger] out@[j] == (tv@[3 * j], tv@[3 * j + 1], tv@[3 * j
                    + 2]),
        decreases n - i,
    {
        proof {
            assert(3 * (i as int) + 2 < tv@.len() as int);
        }
        let t = (tv[3 * i], tv[3 * i + 1], tv[3 * i + 2]);
        out.push(t);
        i = i + 1;
    }
    proof {
        assert(out@ =~= spec_triples(tv@));
    }
    out
}

/// Whether a triangle's average screen depth lies strictly inside the
/// depth window: `-DEPTH_WINDOW < (z1 + z2 + z3) / 3 < DEPTH_WINDOW`,
/// stated without division by comparing the sum against three windows.
pub open spec fn spec_depth_ok(t: (Vertex, Vertex, Vertex)) -> bool {
    let s = t.0.transformed_position.z + t.1.transformed_position.z
        + t.2.transformed_position.z;
    -3 * (DEPTH_WINDOW as int) < s && s < 3 * (DEPTH_WINDOW as int)
}

/// The depth cull's output: the triangles whose centroid depth lies in the
/// window, in their original order.
pub open spec fn spec_depth_filter(s: Seq<(Vertex, Vertex, Vertex)>) -> Seq<
    (Vertex, Vertex, Vertex),
>
    decreases s.len(),
{
    if s.len() == 0 {
        Seq::empty()
    } else {
        spec_depth_filter(s.drop_last()) + (if spec_depth_ok(s.last()) {
            seq![s.last()]
        } else {
            Seq::empty()
        })
    }
}

/// Law: the depth cull is sound. Every triangle it passes on toward the
/// rasterizer has its centroid depth strictly inside the window; one
/// entirely outside never gets through, whatever its screen footprint.
pub proof fn lemma_depth_cull_sound(s: Seq<(Vertex, Vertex, Vertex)>)
    ensures
        forall|j: int|
            0 <= j < spec_depth_filter(s).len() ==> spec_depth_ok(
                #[trigger] spec_depth_filter(s)[j]),
    decreases s.len(),
{
    if s.len() > 0 {
        lemma_depth_cull_sound(s.drop_last());
        let head = spec_depth_filter(s.drop_last());
        let tail = if spec_depth_ok(s.last()) {
            seq![s.last()]
        } else {
            Seq::<(Vertex, Vertex, Vertex)>::empty()
        };
        assert(spec_depth_filter(s) == head + tail);
        assert forall|j: int| 0 <= j < (head + tail).len() implies spec_depth_ok(
            (head + tail)[j]) by {
            if j < head.len() {
                assert((head + tail)[j] == head[j]);
            } else {
                assert((head + tail)[j] == s.last());
            }
        }
    }
}

/// Coarse object-level depth cull: keeps exactly the triangles whose
/// average transformed z lies strictly inside the window. Triangles are not
/// split; a straddling triangle is kept or rejected wholesale.
pub fn cull_depth(tris: &Vec<(Vertex, Vertex, Vertex)>) -> (r: Vec<(Vertex, Vertex, Vertex)>)
    requires
        forall|i: int|
            0 <= i < tris@.len() ==> vertex_ok(#[trigger] tris@[i].0) && vertex_ok(tris@[i].1)
                && vertex_ok(tris@[i].2),
    ensures
        r@ == spec_depth_filter(tris@),
        forall|j: int| 0 <= j < r@.len() ==> spec_depth_ok(#[trigger] r@[j]),
        forall|j: int|
            0 <= j < r@.len() ==> vertex_ok(#[trigger] r@[j].0) && vertex_ok(r@[j].1)
                && vertex_ok(r@[j].2),
{
    let mut out: Vec<(Vertex, Vertex, Vertex)> = Vec::new();
    let mut i: usize = 0;
    while i < tris.len()
        invariant
            i <= tris@.len(),
            out@ == spec_depth_filter(tris@.subrange(0, i as int)),
            forall|j: int| 0 <= j < out@.len() ==> spec_depth_ok(#[trigger] out@[j]),
            forall|j: int|
                0 <= j < out@.len() ==> vertex_ok(#[trigger] out@[j].0) && vertex_ok(out@[j].1)
                    && vertex_ok(out@[j].2),
            forall|k: int|
                0 <= k < tris@.len() ==> vertex_ok(#[trigger] tris@[k].0) && vertex_ok(
                    tris@[k].1) && vertex_ok(tris@[k].2),
        decreases tris@.len() - i,
    {
        let t = tris[i];
        let s = t.0.transformed_position.z + t.1.transformed_position.z
            + t.2.transformed_position.z;
        let ghost pre = tris@.subrange(0, i as int);
        proof {
            assert(tris@.subrange(0, i as int + 1).drop_last() =~= pre);
            assert(tris@.subrange(0, i as int + 1).last() == tris@[i as int]);
        }
        if s > -(3 * DEPTH_WINDOW) && s < 3 * DEPTH_WINDOW {
            out.push(t);
            proof {
                assert(out@ =~= spec_depth_filter(tris@.subrange(0, i as int + 1)));
            }
        } else {
            proof {
                assert(out@ =~= spec_depth_filter(tris@.subrange(0, i as int + 1)));
            }
        }
        i = i + 1;
    }
    proof {
        assert(tris@.subrange(0, tris@.len() as int) =~= tris@);
    }
    out
}

/// All fragments the rasterizer would emit for a triangle list, in mesh
/// order, scanline-major within each triangle.
pub open spec fn spec_raster_concat(s: Seq<(Vertex, Vertex, Vertex)>, light: Light) -> Seq<
    Fragment,
>
    decreases s.len(),
{
    if s.len() == 0 {
        Seq::empty()
    } else {
        spec_raster_concat(s.drop_last(), light) + spec_triangle(s.last().0, s.last().1,
            s.last().2, light)
    }
}

/// The fragment budget: at most [`MAX_FRAGMENTS`] fragments survive, and a
/// triangle in progress when the budget fills is truncated mid-stream.
pub open spec fn spec_budget_cap(c: Seq<Fragment>) -> Seq<Fragment> {
    if c.len() <= MAX_FRAGMENTS {
        c
    } else {
        c.take(MAX_FRAGMENTS as int)
    }
}

/// The rasterization stage: the first [`MAX_TRIANGLES`] visible triangles,
/// rasterized in order, capped at the fragment budget.
pub open spec fn spec_raster_stage(s: Seq<(Vertex, Vertex, Vertex)>, light: Light) -> Seq<
    Fragment,
> {
    spec_budget_cap(
        spec_raster_concat(s.take(min(s.len() as int, MAX_TRIANGLES as int)), light),
    )
}

/// Concatenated rasterization splits at any triangle boundary.
proof fn lemma_concat_split(s: Seq<(Vertex, Vertex, Vertex)>, light: Light, i: int)
    requires
        0 <= i <= s.len(),
    ensures
        spec_raster_concat(s, light) == spec_raster_concat(s.subrange(0, i), light)
            + spec_raster_concat(s.subrange(i, s.len() as int), light),
    decreases s.len(),
{
    let len = s.len() as int;
    if i == len {
        assert(s.subrange(0, i) =~= s);
        assert(spec_raster_concat(s.subrange(i, len), light) == Seq::<Fragment>::empty());
        assert(spec_raster_concat(s, light) + Seq::<Fragment>::empty() =~= spec_raster_concat(
            s, light));
    } else {
        let dl = s.drop_last();
        lemma_concat_split(dl, light, i);
        assert(dl.subrange(0, i) =~= s.subrange(0, i));
        assert(dl.subrange(i, len - 1) =~= s.subrange(i, len - 1));
        assert(s.subrange(i, len).drop_last() =~= s.subrange(i, len - 1));
        assert(s.subrange(i, len).last() == s.last());
        assert(spec_raster_concat(s.subrange(i, len), light) == spec_raster_concat(s.subrange(
            i, len - 1), light) + spec_triangle(s.last().0, s.last().1, s.last().2, light));
        assert(spec_raster_concat(s, light) =~= spec_raster_concat(s.subrange(0, i), light)
            + spec_raster_concat(s.subrange(i, len), light));
    }
}

/// Appends the first `k` fragments of `src` onto `out`.
fn push_prefix(out: &mut Vec<Fragment>, src: &Vec<Fragment>, k: usize)
    requires
        k <= src@.len(),
        old(out)@.len() + k <= usize::MAX,
    ensures
        final(out)@ == old(out)@ + src@.take(k as int),
{
    let mut j: usize = 0;
    while j < k
        invariant
            j <= k,
            k <= src@.len(),
            out@ == old(out)@ + src@.take(j as int),
        decreases k - j,
    {
        let f = src[j];
        out.push(f);
        proof {
            assert(out@ =~= old(out)@ + src@.take(j as int + 1));
        }
        j = j + 1;
    }
}

/// Rasterizes the visible triangles under the triangle and fragment
/// budgets: only the first [`MAX_TRIANGLES`] triangles are considered, and
/// rasterization stops the moment [`MAX_FRAGMENTS`] fragments exist, keeping
/// whatever prefix of the triangle in progress still fit.
pub fn rasterize_budgeted(tris: &Vec<(Vertex, Vertex, Vertex)>, light: &Light) -> (r: Vec<
    Fragment,
>)
    requires
        forall|i: int|
            0 <= i < tris@.len() ==> vertex_ok(#[trigger] tris@[i].0) && vertex_ok(tris@[i].1)
                && vertex_ok(tris@[i].2),
        vec3_ok(light.position),
    ensures
        r@ == spec_raster_stage(tris@, *light),
        r@.len() <= MAX_FRAGMENTS,
        forall|j: int| 0 <= j < r@.len() ==> frag_ok(#[trigger] r@[j]),
{
    let n = if tris.len() > MAX_TRIANGLES {
        MAX_TRIANGLES
    } else {
        tris.len()
    };
    let ghost limited = tris@.take(n as int);
    let mut out: Vec<Fragment> = Vec::new();
    let mut i: usize = 0;
    while i < n && out.len() < MAX_FRAGMENTS
        invariant
            i <= n,
            n == min(tris@.len() as int, MAX_TRIANGLES as int),
            limited == tris@.take(n as int),
            tris@.len() <= usize::MAX,
            out@.len() <= MAX_FRAGMENTS,
            out@ == spec_budget_cap(spec_raster_concat(limited.take(i as int), *light)),
            out@.len() < MAX_FRAGMENTS ==> out@ == spec_raster_concat(limited.take(i as int),
                *light),
            forall|j: int| 0 <= j < out@.len() ==> frag_ok(#[trigger] out@[j]),
            forall|k: int|
                0 <= k < tris@.len() ==> vertex_ok(#[trigger] tris@[k].0) && vertex_ok(
                    tris@[k].1) && vertex_ok(tris@[k].2),
            vec3_ok(light.position),
        decreases n - i,
    {
        let t = tris[i];
        let mut tf = triangle(&t.0, &t.1, &t.2, light);
        let ghost pre = limited.take(i as int);
        let ghost tfs = tf@;
        proof {
            lemma_spec_triangle_ok(t.0, t.1, t.2, *light);
            assert(limited.take(i as int + 1).drop_last() =~= pre);
            assert(limited.take(i as int + 1).last() == t);
            assert(spec_raster_concat(limited.take(i as int + 1), *light)
                == spec_raster_concat(pre, *light) + tfs);
        }
        let space = MAX_FRAGMENTS - out.len();
        if tf.len() <= space {
            out.append(&mut tf);
            proof {
                assert(out@ == spec_raster_concat(limited.take(i as int + 1), *light));
                assert(out@ == spec_budget_cap(spec_raster_concat(limited.take(i as int + 1),
                    *light)));
            }
        } else {
            push_prefix(&mut out, &tf, space);
            proof {
                let full = spec_raster_concat(limited.take(i as int + 1), *light);
                assert(out@ =~= full.take(MAX_FRAGMENTS as int));
                assert(full.len() > MAX_FRAGMENTS);
                assert(out@ == spec_budget_cap(full));
            }
        }
        i = i + 1;
    }
    proof {
        if i == n {
            assert(limited.take(n as int) =~= limited);
            assert(tris@.take(min(tris@.len() as int, MAX_TRIANGLES as int)) == limited);
        } else {
            assert(out@.len() == MAX_FRAGMENTS);
            let part = limited.take(i as int);
            let partc = spec_raster_concat(part, *light);
            lemma_concat_split(limited, *light, i as int);
            assert(limited.subrange(0, i as int) =~= part);
            let rest = spec_raster_concat(limited.subrange(i as int, limited.len() as int),
                *light);
            assert(spec_raster_concat(limited, *light) == partc + rest);
            assert(partc.len() >= MAX_FRAGMENTS);
            assert(out@ =~= partc.take(MAX_FRAGMENTS as int));
            assert(out@ =~= (partc + rest).take(MAX_FRAGMENTS as int));
            assert(out@ == spec_budget_cap(spec_raster_concat(limited, *light)));
        }
    }
    out
}

#[verifier::external_type_specification]
#[verifier::external_body]
pub struct ExInstant(std::time::Instant);

/// Relies on `std::time::Instant::now`: an opaque timestamp of the moment
/// the render call began; nothing is assumed about its value.
#[verifier::external_body]
fn clock_now() -> std::time::Instant {
    std::time::Instant::now()
}

/// Relies on `std::time::Instant::elapsed` and `Duration::as_millis`: the
/// wall-clock milliseconds since `start`. The value depends on the clock,
/// so nothing is promised of it; the shading loop is verified for every
/// outcome.
#[verifier::external_body]
fn elapsed_millis(start: &std::time::Instant) -> u128 {
    start.elapsed().as_millis()
}

/// A whole-batch prefix: the first `min(nb * SHADE_BATCH, len)` entries.
pub open spec fn spec_batch_prefix(s: Seq<Fragment>, nb: int) -> Seq<Fragment> {
    s.take(min(nb * SHADE_BATCH as int, s.len() as int))
}

/// A fragment after shading: the dispatch's color replaces the provisional
/// lit color, everything else is untouched.
pub open spec fn spec_shade_frag(f: Fragment, t: int, m: PlanetShaderType) -> Fragment {
    Fragment { color: spec_fragment_shade(m, f.world_position, f.color, t), ..f }
}

/// The whole fragment list after shading.
pub open spec fn spec_shaded(s: Seq<Fragment>, t: int, m: PlanetShaderType) -> Seq<Fragment> {
    s.map_values(|f: Fragment| spec_shade_frag(f, t, m))
}

/// Shades fragments in batches of [`SHADE_BATCH`], checking the wall clock
/// between batches against [`FRAME_TIME_LIMIT_MS`] measured from `start`.
/// The result is always a whole-batch prefix of the shaded list: fragments
/// past the deadline are discarded, never passed on unshaded, and the first
/// batch is always completed.
pub fn shade_fragments(
    frags: &Vec<Fragment>,
    uniforms: &Uniforms,
    planet_type: PlanetShaderType,
    start: &std::time::Instant,
) -> (r: Vec<Fragment>)
    requires
        forall|i: int| 0 <= i < frags@.len() ==> frag_ok(#[trigger] frags@[i]),
        fx_ok(uniforms.time as int),
    ensures
        exists|nb: int|
            nb >= 1 && r@ == #[trigger] spec_batch_prefix(spec_shaded(frags@,
                uniforms.time as int, planet_type), nb),
        r@.len() <= frags@.len(),
{
    let ghost all = spec_shaded(frags@, uniforms.time as int, planet_type);
    let flen = frags.len();
    proof {
        assert(flen == frags@.len());
    }
    let mut out: Vec<Fragment> = Vec::new();
    let mut idx: usize = 0;
    let mut stop = false;
    let ghost mut nbatches: int = 0;
    while idx < frags.len() && !stop
        invariant
            idx <= frags@.len(),
            frags@.len() <= usize::MAX,
            all == spec_shaded(frags@, uniforms.time as int, planet_type),
            all.len() == frags@.len(),
            out@ == all.take(idx as int),
            nbatches >= 0,
            idx as int == min(nbatches * SHADE_BATCH as int, frags@.len() as int),
            stop ==> nbatches >= 1,
            forall|i: int| 0 <= i < frags@.len() ==> frag_ok(#[trigger] frags@[i]),
            fx_ok(uniforms.time as int),
        decreases frags@.len() - idx,
    {
        let batch_end = if frags.len() - idx < SHADE_BATCH {
            frags.len()
        } else {
            idx + SHADE_BATCH
        };
        while idx < batch_end
            invariant
                idx <= batch_end,
                batch_end <= frags@.len(),
                frags@.len() <= usize::MAX,
                all == spec_shaded(frags@, uniforms.time as int, planet_type),
                all.len() == frags@.len(),
                out@ == all.take(idx as int),
                forall|i: int| 0 <= i < frags@.len() ==> frag_ok(#[trigger] frags@[i]),
                fx_ok(uniforms.time as int),
            decreases batch_end - idx,
        {
            let f = frags[idx];
            let c = fragment_shader(&f, uniforms, planet_type);
            let sf = Fragment { color: c, ..f };
            out.push(sf);
            proof {
                assert(all[idx as int] == spec_shade_frag(frags@[idx as int],
                    uniforms.time as int, planet_type));
                assert(out@ =~= all.take(idx as int + 1));
            }
            idx = idx + 1;
        }
        proof {
            nbatches = nbatches + 1;
        }
        if elapsed_millis(start) > FRAME_TIME_LIMIT_MS {
            stop = true;
        }
    }
    proof {
        let len = frags@.len() as int;
        let bi = SHADE_BATCH as int;
        if idx as int == len {
            let nb: int = if nbatches >= 1 {
                nbatches
            } else {
                1
            };
            assert(min(nb * bi, len) == idx as int);
            assert(nb >= 1 && out@ == spec_batch_prefix(all, nb));
        } else {
            assert(stop);
            assert(nbatches >= 1 && out@ == spec_batch_prefix(all, nbatches));
        }
    }
    out
}

/// The fragments one render call hands to shading: the transformed prefix
/// of the stream, grouped into triples, depth-culled, and rasterized under
/// the triangle and fragment budgets.
pub open spec fn spec_pipeline_frags(vs: Seq<Vertex>, u: Uniforms, l: Light) -> Seq<Fragment> {
    spec_raster_stage(spec_depth_filter(spec_triples(spec_transform_stage(vs, u))), l)
}

/// Drives the full pipeline for one drawable: transform under the vertex
/// budget, assembly, depth cull, rasterization under the triangle and
/// fragment budgets, and batched shading under the wall-clock time box.
/// Returns the shaded fragments ready for depth-tested framebuffer writes;
/// every outcome is a whole-batch prefix of the shaded fragment list, and
/// never more than [`MAX_FRAGMENTS`] fragments.
pub fn render(
    vertices: &Vec<Vertex>,
    uniforms: &Uniforms,
    light: &Light,
    planet_type: PlanetShaderType,
) -> (r: Vec<Fragment>)
    requires
        forall|i: int| 0 <= i < vertices@.len() ==> vertex_ok(#[trigger] vertices@[i]),
        uniforms_ok(*uniforms),
        fx_ok(uniforms.time as int),
        vec3_ok(light.position),
    ensures
        exists|nb: int|
            nb >= 1 && r@ == #[trigger] spec_batch_prefix(
                spec_shaded(spec_pipeline_frags(vertices@, *uniforms, *light),
                uniforms.time as int, planet_type), nb),
        r@.len() <= MAX_FRAGMENTS,
{
    let start = clock_now();
    let tv = transform_vertices(vertices, uniforms);
    let tris = assemble_triangles(&tv);
    proof {
        assert forall|i: int| 0 <= i < tris@.len() implies vertex_ok(#[trigger] tris@[i].0)
            && vertex_ok(tris@[i].1) && vertex_ok(tris@[i].2) by {
            assert(tris@[i] == (tv@[3 * i], tv@[3 * i + 1], tv@[3 * i + 2]));
        }
    }
    let vis = cull_depth(&tris);
    let raw = rasterize_budgeted(&vis, light);
    let shaded = shade_fragments(&raw, uniforms, planet_type, &start);
    proof {
        assert(raw@ == spec_pipeline_frags(vertices@, *uniforms, *light));
    }
    shaded
}

/// One accepted framebuffer write: an in-bounds pixel, a packed 0xRRGGBB
/// color, and the fragment's interpolated depth for the depth test.
#[derive(Debug, Clone, Copy, PartialEq, Eq, Structural)]
pub struct PixelWrite {
    pub x: usize,
    pub y: usize,
    pub color: u32,
    pub depth: i64,
}

/// A color channel clamped to [0, 1] and scaled to a byte; clamping to the
/// displayable range happens only here, at the framebuffer boundary.
pub open spec fn spec_channel_byte(c: int) -> int {
    let cl = if c < 0 {
        0
    } else if c > FX_ONE as int {
        FX_ONE as int
    } else {
        c
    };
    (cl * 255) / (FX_ONE as int)
}

fn channel_byte(c: i64) -> (r: u8)
    ensures
        r == spec_channel_byte(c as int),
{
    let cl = if c < 0 {
        0
    } else if c > FX_ONE {
        FX_ONE
    } else {
        c
    };
    ((cl * 255) / FX_ONE) as u8
}

/// The write a fragment produces, if its pixel lies inside the buffer.
/// Negative pixel-center coordinates collapse to column or row zero, as a
/// saturating cast would; the bounds test then decides.
pub open spec fn spec_write_of(f: Fragment, w: int, h: int) -> Option<PixelWrite> {
    let xi = if f.x < 0 {
        0
    } else {
        f.x as int / (FX_ONE as int)
    };
    let yi = if f.y < 0 {
        0
    } else {
        f.y as int / (FX_ONE as int)
    };
    if xi < w && yi < h {
        Some(
            PixelWrite {
                x: xi as usize,
                y: yi as usize,
                color: (spec_channel_byte(f.color.x as int) * 0x10000 + spec_channel_byte(
                    f.color.y as int) * 0x100 + spec_channel_byte(f.color.z as int)) as u32,
                depth: f.depth,
            },
        )
    } else {
        None
    }
}

/// The in-bounds writes of a shaded fragment list, in order.
pub open spec fn spec_frame_writes(s: Seq<Fragment>, w: int, h: int) -> Seq<PixelWrite>
    decreases s.len(),
{
    if s.len() == 0 {
        Seq::empty()
    } else {
        spec_frame_writes(s.drop_last(), w, h) + (match spec_write_of(s.last(), w, h) {
            Some(p) => seq![p],
            None => Seq::empty(),
        })
    }
}

/// Converts shaded fragments into framebuffer writes: each fragment's color
/// is clamped to the displayable range and packed, and only fragments whose
/// pixel lies inside the `width` by `height` buffer produce a write —
/// out-of-bounds coordinates are silently discarded.
pub fn frame_writes(frags: &Vec<Fragment>, width: usize, height: usize) -> (r: Vec<PixelWrite>)
    requires
        width < 0x8000_0000,
        height < 0x8000_0000,
    ensures
        r@ == spec_frame_writes(frags@, width as int, height as int),
        forall|j: int| 0 <= j < r@.len() ==> (#[trigger] r@[j]).x < width && r@[j].y < height,
{
    let flen = frags.len();
    proof {
        assert(flen == frags@.len());
    }
    let mut out: Vec<PixelWrite> = Vec::new();
    let mut i: usize = 0;
    while i < frags.len()
        invariant
            i <= frags@.len(),
            frags@.len() <= usize::MAX,
            width < 0x8000_0000,
            height < 0x8000_0000,
            out@ == spec_frame_writes(frags@.subrange(0, i as int), width as int,
                height as int),
            forall|j: int|
                0 <= j < out@.len() ==> (#[trigger] out@[j]).x < width && out@[j].y < height,
        decreases frags@.len() - i,
    {
        let f = frags[i];
        proof {
            assert(frags@.subrange(0, i as int + 1).drop_last() =~= frags@.subrange(0,
                i as int));
            assert(frags@.subrange(0, i as int + 1).last() == frags@[i as int]);
        }
        let xi: i64 = if f.x < 0 {
            0
        } else {
            f.x / FX_ONE
        };
        let yi: i64 = if f.y < 0 {
            0
        } else {
            f.y / FX_ONE
        };
        proof {
            if f.x >= 0 {
                vstd::arithmetic::div_mod::lemma_div_pos_is_pos(f.x as int, FX_ONE as int);
            }
            if f.y >= 0 {
                vstd::arithmetic::div_mod::lemma_div_pos_is_pos(f.y as int, FX_ONE as int);
            }
        }
        if xi < width as i64 && yi < height as i64 {
            let r = channel_byte(f.color.x);
            let g = channel_byte(f.color.y);
            let b = channel_byte(f.color.z);
            let color = Color::new(r, g, b).to_hex();
            let w = PixelWrite { x: xi as usize, y: yi as usize, color, depth: f.depth };
            out.push(w);
            proof {
                assert(spec_write_of(frags@[i as int], width as int, height as int) == Some(w));
                assert(out@ =~= spec_frame_writes(frags@.subrange(0, i as int + 1),
                    width as int, height as int));
            }
        } else {
            proof {
                assert(spec_write_of(frags@[i as int], width as int, height as int)
                    is None);
                assert(out@ =~= spec_frame_writes(frags@.subrange(0, i as int + 1),
                    width as int, height as int));
            }
        }
        i = i + 1;
    }
    proof {
        assert(frags@.subrange(0, frags@.len() as int) =~= frags@);
    }
    out
}

} // verus!
