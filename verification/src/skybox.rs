//! The starfield: randomly placed stars in one of four color families,
//! plotted behind everything through an always-passing sentinel depth.

use vstd::prelude::*;
use rand::Rng;

verus! {

/// Relies on `rand::Rng::gen_range` over `lo..hi` (via `rand::thread_rng`):
/// the result lies in `[lo, hi)`. The call panics on an empty range, which
/// the precondition excludes; which value comes back is never assumed.
#[verifier::external_body]
fn rand_in_range(lo: usize, hi: usize) -> (r: usize)
    requires
        lo < hi,
    ensures
        lo <= r < hi,
{
    rand::thread_rng().gen_range(lo..hi)
}

/// Packs three channel bytes into 0xRRGGBB.
fn pack_rgb(r: u32, g: u32, b: u32) -> (c: u32)
    requires
        r < 256,
        g < 256,
        b < 256,
    ensures
        c == r * 0x10000 + g * 0x100 + b,
        c <= 0xFFFFFF,
{
    let c = (r << 16) | (g << 8) | b;
    proof {
        assert(r < 256 && g < 256 && b < 256 ==> ((r << 16) | (g << 8) | b) == r * 0x10000 + g
            * 0x100 + b && ((r << 16) | (g << 8) | b) <= 0xFFFFFF) by (bit_vector);
    }
    c
}

/// A fixed set of stars: each is a pixel position, a packed color, and a
/// flag marking the brightest stars, which are plotted with a small cross.
pub struct Skybox {
    pub stars: Vec<(usize, usize, u32, bool)>,
}

/// The points one star contributes: the star itself if it lies inside the
/// buffer, and for bright stars its four in-bounds neighbors.
pub open spec fn spec_star_plots(star: (usize, usize, u32, bool), w: int, h: int) -> Seq<
    (usize, usize, u32),
> {
    let (x, y, color, bright) = star;
    if x < w && y < h {
        seq![(x, y, color)] + (if bright {
            (if x > 0 {
                seq![(((x - 1) as usize), y, color)]
            } else {
                Seq::empty()
            }) + (if x < w - 1 {
                seq![(((x + 1) as usize), y, color)]
            } else {
                Seq::empty()
            }) + (if y > 0 {
                seq![(x, ((y - 1) as usize), color)]
            } else {
                Seq::empty()
            }) + (if y < h - 1 {
                seq![(x, ((y + 1) as usize), color)]
            } else {
                Seq::empty()
            })
        } else {
            Seq::empty()
        })
    } else {
        Seq::empty()
    }
}

/// The plot list of a whole star set, in order.
pub open spec fn spec_skybox_plots(stars: Seq<(usize, usize, u32, bool)>, w: int, h: int) -> Seq<
    (usize, usize, u32),
>
    decreases stars.len(),
{
    if stars.len() == 0 {
        Seq::empty()
    } else {
        spec_skybox_plots(stars.drop_last(), w, h) + spec_star_plots(stars.last(), w, h)
    }
}

impl Skybox {
    /// Draws `star_count` stars at random positions. Most are white, the
    /// rest bluish, yellowish or reddish; a star is marked bright only when
    /// its color is lighter than 0xCCCCCC. Positions always lie inside the
    /// `width` by `height` buffer.
    pub fn new(width: usize, height: usize, star_count: usize) -> (s: Skybox)
        requires
            width > 0,
            height > 0,
        ensures
            s.stars@.len() == star_count,
            forall|i: int|
                0 <= i < s.stars@.len() ==> (#[trigger] s.stars@[i]).0 < width
                    && s.stars@[i].1 < height && s.stars@[i].2 <= 0xFFFFFF && (s.stars@[i].3
                    ==> s.stars@[i].2 > 0xCCCCCC),
    {
        let mut stars: Vec<(usize, usize, u32, bool)> = Vec::new();
        let mut k: usize = 0;
        while k < star_count
            invariant
                k <= star_count,
                stars@.len() == k,
                width > 0,
                height > 0,
                forall|i: int|
                    0 <= i < stars@.len() ==> (#[trigger] stars@[i]).0 < width && stars@[i].1
                        < height && stars@[i].2 <= 0xFFFFFF && (stars@[i].3 ==> stars@[i].2
                        > 0xCCCCCC),
            decreases star_count - k,
        {
            let x = rand_in_range(0, width);
            let y = rand_in_range(0, height);
            let star_type = rand_in_range(0, 100);
            let color = if star_type < 70 {
                let brightness = rand_in_range(180, 255) as u32;
                pack_rgb(brightness, brightness, brightness)
            } else if star_type < 85 {
                let b = rand_in_range(200, 255) as u32;
                let g = rand_in_range(180, 220) as u32;
                let r = rand_in_range(150, 200) as u32;
                pack_rgb(r, g, b)
            } else if star_type < 95 {
                let r = rand_in_range(220, 255) as u32;
                let g = rand_in_range(200, 240) as u32;
                let b = rand_in_range(100, 150) as u32;
                pack_rgb(r, g, b)
            } else {
                let r = rand_in_range(230, 255) as u32;
                let g = rand_in_range(100, 150) as u32;
                let b = rand_in_range(80, 120) as u32;
                pack_rgb(r, g, b)
            };
            let is_bright = rand_in_range(0, 100) < 10 && color > 0xCCCCCC;
            stars.push((x, y, color, is_bright));
            k = k + 1;
        }
        Skybox { stars }
    }

    /// The points to plot for a `width` by `height` buffer: every star that
    /// lies inside it, and a one-pixel cross around each bright star. The
    /// caller writes them with the always-passing sentinel depth; every
    /// returned point is in bounds.
    #[verifier::rlimit(60)]
    pub fn render(&self, width: usize, height: usize) -> (r: Vec<(usize, usize, u32)>)
        ensures
            r@ == spec_skybox_plots(self.stars@, width as int, height as int),
            forall|j: int|
                0 <= j < r@.len() ==> (#[trigger] r@[j]).0 < width && r@[j].1 < height,
    {
        let slen = self.stars.len();
        let mut out: Vec<(usize, usize, u32)> = Vec::new();
        let mut i: usize = 0;
        while i < slen
            invariant
                i <= slen,
                slen == self.stars@.len(),
                out@ == spec_skybox_plots(self.stars@.subrange(0, i as int), width as int,
                    height as int),
                forall|j: int|
                    0 <= j < out@.len() ==> (#[trigger] out@[j]).0 < width && out@[j].1
                        < height,
            decreases slen - i,
        {
            let (x, y, color, bright) = self.stars[i];
            let ghost star = self.stars@[i as int];
            proof {
                assert(self.stars@.subrange(0, i as int + 1).drop_last() =~= self.stars@
                    .subrange(0, i as int));
                assert(self.stars@.subrange(0, i as int + 1).last() == star);
            }
            if x < width && y < height {
                out.push((x, y, color));
                if bright {
                    if x > 0 {
                        out.push((x - 1, y, color));
                    }
                    if x < width - 1 {
                        out.push((x + 1, y, color));
                    }
                    if y > 0 {
                        out.push((x, y - 1, color));
                    }
                    if y < height - 1 {
                        out.push((x, y + 1, color));
                    }
                }
            }
            proof {
                assert(out@ =~= spec_skybox_plots(self.stars@.subrange(0, i as int + 1),
                    width as int, height as int));
            }
            i = i + 1;
        }
        proof {
            assert(self.stars@.subrange(0, self.stars@.len() as int) =~= self.stars@);
        }
        out
    }
}

} // verus!
