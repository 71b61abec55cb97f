//! Rendering a module matrix into an RGB pixel buffer.
//!
//! Each module becomes a square block of `scale` by `scale` pixels, dark
//! modules black and light modules white, and a quiet zone of
//! [`QUIET_ZONE`] light modules is drawn around the symbol. The scale is
//! the smallest one that makes the image at least `min_size` pixels wide.

use vstd::prelude::*;
use vstd::arithmetic::div_mod::{lemma_fundamental_div_mod, lemma_fundamental_div_mod_converse};
use crate::matrix::ModuleMatrix;

verus! {

/// Width, in modules, of the light border drawn around the symbol.
pub const QUIET_ZONE: usize = 4;

/// Modules across a rendered image of a symbol `width` modules wide:
/// the symbol plus the quiet zone on both sides.
pub open spec fn spec_total_modules(width: int) -> int {
    width + 2 * QUIET_ZONE
}

/// Side length, in pixels, of one module's block: the smallest scale
/// that brings the whole image to at least `min_size` pixels.
pub open spec fn spec_scale(width: int, min_size: int) -> int {
    if min_size <= spec_total_modules(width) {
        1
    } else {
        (min_size - 1) / spec_total_modules(width) + 1
    }
}

/// Side length, in pixels, of the rendered image.
pub open spec fn spec_dim(width: int, min_size: int) -> int {
    spec_scale(width, min_size) * spec_total_modules(width)
}

/// Whether the pixel at `(x, y)` of an image rendered from the grid `g`
/// at the given scale is dark: it lies in the block of a dark module.
pub open spec fn grid_dark_at(g: Seq<Seq<bool>>, scale: int, x: int, y: int) -> bool {
    let mx = x / scale;
    let my = y / scale;
    &&& QUIET_ZONE <= mx < g.len() + QUIET_ZONE
    &&& QUIET_ZONE <= my < g.len() + QUIET_ZONE
    &&& g[my - QUIET_ZONE][mx - QUIET_ZONE]
}

/// Byte `j` of the rendered image's RGB data: every channel of a dark
/// pixel is 0, of a light pixel 255.
pub open spec fn spec_pixel_byte(g: Seq<Seq<bool>>, scale: int, dim: int, j: int) -> u8 {
    if grid_dark_at(g, scale, (j / 3) % dim, (j / 3) / dim) {
        0u8
    } else {
        255u8
    }
}

/// The full RGB byte sequence of the image rendered from `g` with
/// minimum side `min_size`.
pub open spec fn spec_render_data(g: Seq<Seq<bool>>, min_size: int) -> Seq<u8> {
    let scale = spec_scale(g.len() as int, min_size);
    let dim = spec_dim(g.len() as int, min_size);
    Seq::new((3 * dim * dim) as nat, |j: int| spec_pixel_byte(g, scale, dim, j))
}

/// An RGB image, 8 bits per channel, rows top to bottom.
#[derive(Debug)]
pub struct PixelBuffer {
    pub width: usize,
    pub height: usize,
    pub data: Vec<u8>,
}

impl PixelBuffer {
    /// The buffer holds three bytes for each of its pixels.
    pub open spec fn wf(self) -> bool {
        self.data@.len() == 3 * self.width * self.height
    }

    /// Channel `k` (red 0, green 1, blue 2) of the pixel at `(x, y)`.
    pub open spec fn channel_at(self, x: int, y: int, k: int) -> u8 {
        self.data@[3 * (y * self.width + x) + k]
    }

    /// Whether the pixel at `(x, y)` is dark, read off its red channel.
    pub open spec fn dark_at(self, x: int, y: int) -> bool {
        self.channel_at(x, y, 0) == 0
    }
}

/// The scale is at least 1 and scaling reaches the requested minimum:
/// `min_size <= spec_dim(width, min_size)`.
pub proof fn lemma_dim_reaches_min(width: int, min_size: int)
    requires
        0 <= width,
        0 <= min_size,
    ensures
        1 <= spec_scale(width, min_size),
        spec_total_modules(width) <= spec_dim(width, min_size),
        min_size <= spec_dim(width, min_size),
{
    let t = spec_total_modules(width);
    let s = spec_scale(width, min_size);
    if min_size <= t {
        assert(spec_dim(width, min_size) == t);
    } else {
        lemma_fundamental_div_mod(min_size - 1, t);
        let q = (min_size - 1) / t;
        let r = (min_size - 1) % t;
        assert(min_size - 1 == t * q + r);
        assert(0 <= r < t);
        assert(q >= 0) by (nonlinear_arith)
            requires
                t * q + r == min_size - 1,
                0 <= r < t,
                t < min_size,
        ;
        assert(s == q + 1);
        assert(s * t == t * q + t) by (nonlinear_arith)
            requires
                s == q + 1,
        ;
        assert(spec_dim(width, min_size) == s * t);
        assert(s * t >= min_size);
        assert(s * t >= t) by (nonlinear_arith)
            requires
                s >= 1,
                t >= 0,
                s * t == t * q + t,
                q >= 0,
        ;
    }
}

/// The rendered side length overshoots the requested minimum by less
/// than one row of modules: `spec_dim < min_size + total`.
pub proof fn lemma_dim_upper(width: int, min_size: int)
    requires
        0 <= width,
        0 <= min_size,
    ensures
        spec_dim(width, min_size) <= min_size + spec_total_modules(width),
{
    let t = spec_total_modules(width);
    let s = spec_scale(width, min_size);
    if min_size <= t {
        assert(spec_dim(width, min_size) == t);
    } else {
        lemma_fundamental_div_mod(min_size - 1, t);
        let q = (min_size - 1) / t;
        let r = (min_size - 1) % t;
        assert(s * t == t * q + t) by (nonlinear_arith)
            requires
                s == q + 1,
        ;
        assert(t * q <= min_size - 1);
    }
}

/// A pixel coordinate below `scale * total` lies in a module column
/// below `total`.
pub proof fn lemma_pixel_module_bound(x: int, scale: int, total: int)
    requires
        0 <= x,
        1 <= scale,
        x < scale * total,
    ensures
        x / scale < total,
{
    lemma_fundamental_div_mod(x, scale);
    assert(x / scale < total) by (nonlinear_arith)
        requires
            x == scale * (x / scale) + (x % scale),
            0 <= x % scale,
            x < scale * total,
            1 <= scale,
    ;
}

/// Renders the matrix to black-and-white RGB pixels, scaled so that the
/// image is at least `min_size` pixels on each side, with a quiet zone.
pub fn render(m: &ModuleMatrix, min_size: usize) -> (p: PixelBuffer)
    requires
        m.wf(),
        1 <= m.width,
        3 * spec_dim(m.width as int, min_size as int) * spec_dim(m.width as int, min_size as int)
            <= usize::MAX,
    ensures
        p.wf(),
        p.width == spec_dim(m.width as int, min_size as int),
        p.height == p.width,
        min_size <= p.width,
        p.data@ == spec_render_data(m.grid(), min_size as int),
{
    let ghost g = m.grid();
    let ghost sd = spec_dim(m.width as int, min_size as int);
    proof {
        lemma_dim_reaches_min(m.width as int, min_size as int);
        assert(sd <= 3 * sd * sd) by (nonlinear_arith)
            requires
                1 <= sd,
        ;
    }
    let total = m.width + 2 * QUIET_ZONE;
    let scale = if min_size <= total {
        1
    } else {
        (min_size - 1) / total + 1
    };
    proof {
        assert(scale == spec_scale(m.width as int, min_size as int));
        assert(scale * total == sd);
    }
    let dim = scale * total;
    let mut data: Vec<u8> = Vec::new();
    let mut y: usize = 0;
    while y < dim
        invariant
            m.wf(),
            1 <= m.width,
            g == m.grid(),
            total == m.width + 2 * QUIET_ZONE,
            1 <= scale,
            dim == scale * total,
            dim == sd,
            sd == spec_dim(m.width as int, min_size as int),
            scale == spec_scale(m.width as int, min_size as int),
            3 * sd * sd <= usize::MAX,
            y <= dim,
            data@.len() == 3 * (y * dim),
            forall|j: int|
                0 <= j < data@.len() ==> data@[j] == spec_pixel_byte(
                    g,
                    scale as int,
                    dim as int,
                    j,
                ),
        decreases dim - y,
    {
        let mut x: usize = 0;
        proof {
            assert(3 * ((y + 1) * dim) <= 3 * (dim * dim)) by (nonlinear_arith)
                requires
                    y < dim,
            ;
            assert(3 * (dim * dim) == 3 * dim * dim) by (nonlinear_arith);
        }
        while x < dim
            invariant
                m.wf(),
                1 <= m.width,
                g == m.grid(),
                total == m.width + 2 * QUIET_ZONE,
                1 <= scale,
                dim == scale * total,
                y < dim,
                x <= dim,
                3 * ((y + 1) * dim) <= 3 * (dim * dim),
                3 * (dim * dim) <= usize::MAX,
                data@.len() == 3 * (y * dim + x),
                forall|j: int|
                    0 <= j < data@.len() ==> data@[j] == spec_pixel_byte(
                        g,
                        scale as int,
                        dim as int,
                        j,
                    ),
            decreases dim - x,
        {
            proof {
                assert(y * dim + x < (y + 1) * dim) by (nonlinear_arith)
                    requires
                        x < dim,
                ;
            }
            let mx = x / scale;
            let my = y / scale;
            let dark = if QUIET_ZONE <= mx && mx < m.width + QUIET_ZONE && QUIET_ZONE <= my
                && my < m.width + QUIET_ZONE {
                proof {
                    lemma_pixel_module_bound(x as int, scale as int, total as int);
                }
                m.get(my - QUIET_ZONE, mx - QUIET_ZONE)
            } else {
                false
            };
            proof {
                assert(dark == grid_dark_at(g, scale as int, x as int, y as int));
            }
            let v: u8 = if dark {
                0
            } else {
                255
            };
            let ghost pix = y * dim + x;
            data.push(v);
            data.push(v);
            data.push(v);
            proof {
                lemma_fundamental_div_mod_converse(pix as int, dim as int, y as int, x as int);
                assert(pix as int % dim as int == x as int);
                assert(pix as int / dim as int == y as int);
                lemma_fundamental_div_mod_converse(3 * pix, 3, pix as int, 0);
                lemma_fundamental_div_mod_converse(3 * pix + 1, 3, pix as int, 1);
                lemma_fundamental_div_mod_converse(3 * pix + 2, 3, pix as int, 2);
                assert(spec_pixel_byte(g, scale as int, dim as int, 3 * pix) == v);
                assert(spec_pixel_byte(g, scale as int, dim as int, 3 * pix + 1) == v);
                assert(spec_pixel_byte(g, scale as int, dim as int, 3 * pix + 2) == v);
            }
            x = x + 1;
        }
        proof {
            assert((y + 1) * dim == y * dim + dim) by (nonlinear_arith);
        }
        y = y + 1;
    }
    proof {
        assert(data@.len() == 3 * (dim * dim));
        assert(3 * (dim * dim) == 3 * dim * dim) by (nonlinear_arith);
        assert(g.len() == m.width);
        assert(data@ =~= spec_render_data(g, min_size as int));
    }
    PixelBuffer { width: dim, height: dim, data }
}

/// Reads a module matrix back out of a rendered pixel buffer: module
/// `(r, c)` is dark exactly when the top-left pixel of its block is.
pub fn matrix_from_pixels(p: &PixelBuffer, width: usize, scale: usize) -> (m: ModuleMatrix)
    requires
        p.wf(),
        1 <= scale,
        1 <= width,
        p.width == scale * spec_total_modules(width as int),
        p.height == p.width,
    ensures
        m.wf(),
        m.width == width,
        forall|r: int, c: int|
            0 <= r < width && 0 <= c < width ==> #[trigger] m.module_at(r, c) == p.dark_at(
                (c + QUIET_ZONE) * scale,
                (r + QUIET_ZONE) * scale,
            ),
{
    let ghost dim = p.width as int;
    proof {
        assert(p.data.len() == p.data@.len());
        assert(width as int + QUIET_ZONE <= spec_total_modules(width as int));
        assert(spec_total_modules(width as int) <= dim) by (nonlinear_arith)
            requires
                1 <= scale,
                dim == scale * spec_total_modules(width as int),
                0 <= spec_total_modules(width as int),
        ;
        assert(width * width <= dim * dim) by (nonlinear_arith)
            requires
                0 <= width <= dim,
        ;
        assert(dim * dim <= 3 * (dim * dim) <= 3 * dim * dim) by (nonlinear_arith);
    }
    let mut modules: Vec<bool> = Vec::new();
    let mut r: usize = 0;
    while r < width
        invariant
            p.wf(),
            1 <= scale,
            1 <= width,
            dim == p.width,
            p.width == scale * spec_total_modules(width as int),
            p.height == p.width,
            width * width <= 3 * p.width * p.height <= usize::MAX,
            width as int + QUIET_ZONE <= spec_total_modules(width as int),
            r <= width,
            modules@.len() == r * width,
            forall|i: int|
                0 <= i < modules@.len() ==> modules@[i] == p.dark_at(
                    (i % width as int + QUIET_ZONE) * scale,
                    (i / width as int + QUIET_ZONE) * scale,
                ),
        decreases width - r,
    {
        let mut c: usize = 0;
        proof {
            assert((r + 1) * width <= width * width) by (nonlinear_arith)
                requires
                    r < width,
            ;
        }
        while c < width
            invariant
                p.wf(),
                1 <= scale,
                1 <= width,
                dim == p.width,
                p.width == scale * spec_total_modules(width as int),
                p.height == p.width,
                width * width <= 3 * p.width * p.height <= usize::MAX,
                width as int + QUIET_ZONE <= spec_total_modules(width as int),
                r < width,
                c <= width,
                (r + 1) * width <= width * width,
                modules@.len() == r * width + c,
                forall|i: int|
                    0 <= i < modules@.len() ==> modules@[i] == p.dark_at(
                        (i % width as int + QUIET_ZONE) * scale,
                        (i / width as int + QUIET_ZONE) * scale,
                    ),
            decreases width - c,
        {
            proof {
                assert(r * width + c < (r + 1) * width) by (nonlinear_arith)
                    requires
                        c < width,
                ;
                assert(spec_total_modules(width as int) <= p.width) by (nonlinear_arith)
                    requires
                        1 <= scale,
                        p.width == scale * spec_total_modules(width as int),
                        0 <= spec_total_modules(width as int),
                ;
                assert((c + QUIET_ZONE) * scale < p.width && (r + QUIET_ZONE) * scale < p.width)
                    by (nonlinear_arith)
                    requires
                        c + QUIET_ZONE < spec_total_modules(width as int),
                        r + QUIET_ZONE < spec_total_modules(width as int),
                        1 <= scale,
                        p.width == scale * spec_total_modules(width as int),
                        0 <= r,
                        0 <= c,
                ;
            }
            let x = (c + QUIET_ZONE) * scale;
            let y = (r + QUIET_ZONE) * scale;
            proof {
                assert(3 * (y * p.width + x) + 1 <= 3 * p.width * p.height) by (nonlinear_arith)
                    requires
                        0 <= x < p.width,
                        0 <= y < p.height,
                        p.width == p.height,
                ;
            }
            let dark = p.data[3 * (y * p.width + x)] == 0;
            let ghost pix = r * width + c;
            modules.push(dark);
            proof {
                lemma_fundamental_div_mod_converse(pix as int, width as int, r as int, c as int);
                assert(dark == p.dark_at(x as int, y as int));
            }
            c = c + 1;
        }
        proof {
            assert((r + 1) * width == r * width + width) by (nonlinear_arith);
        }
        r = r + 1;
    }
    proof {
        assert(modules@.len() == width * width);
    }
    let m = ModuleMatrix { width, modules };
    proof {
        assert forall|rr: int, cc: int|
            0 <= rr < width && 0 <= cc < width implies #[trigger] m.module_at(rr, cc) == p.dark_at(
            (cc + QUIET_ZONE) * scale,
            (rr + QUIET_ZONE) * scale,
        ) by {
            crate::matrix::lemma_module_index_in_range(width as int, rr, cc);
            lemma_fundamental_div_mod_converse(rr * width + cc, width as int, rr, cc);
        }
    }
    m
}

/// The top-left pixel of the block of module `(r, c)` in a rendered
/// image is dark exactly when the module is dark.
pub proof fn lemma_corner_pixel(m: ModuleMatrix, min_size: int, p: PixelBuffer, r: int, c: int)
    requires
        m.wf(),
        1 <= m.width,
        0 <= min_size,
        0 <= r < m.width,
        0 <= c < m.width,
        p.width == spec_dim(m.width as int, min_size),
        p.height == p.width,
        p.data@ == spec_render_data(m.grid(), min_size),
    ensures
        p.dark_at(
            (c + QUIET_ZONE) * spec_scale(m.width as int, min_size),
            (r + QUIET_ZONE) * spec_scale(m.width as int, min_size),
        ) == m.module_at(r, c),
{
    let g = m.grid();
    let w = m.width as int;
    let t = spec_total_modules(w);
    let s = spec_scale(w, min_size);
    let d = spec_dim(w, min_size);
    lemma_dim_reaches_min(w, min_size);
    let x = (c + QUIET_ZONE) * s;
    let y = (r + QUIET_ZONE) * s;
    assert(0 <= x < d && 0 <= y < d) by (nonlinear_arith)
        requires
            0 <= c + QUIET_ZONE < t,
            0 <= r + QUIET_ZONE < t,
            1 <= s,
            d == s * t,
            x == (c + QUIET_ZONE) * s,
            y == (r + QUIET_ZONE) * s,
    ;
    let pix = y * d + x;
    assert(0 <= pix && 3 * pix + 1 <= 3 * d * d) by (nonlinear_arith)
        requires
            0 <= x < d,
            0 <= y < d,
            pix == y * d + x,
    ;
    lemma_fundamental_div_mod_converse(pix, d, y, x);
    lemma_fundamental_div_mod_converse(3 * pix, 3, pix, 0);
    lemma_fundamental_div_mod_converse(x, s, c + QUIET_ZONE, 0);
    lemma_fundamental_div_mod_converse(y, s, r + QUIET_ZONE, 0);
    assert(p.channel_at(x, y, 0) == spec_pixel_byte(g, s, d, 3 * pix));
    assert(grid_dark_at(g, s, x, y) == m.module_at(r, c));
}

/// Law: a pixel buffer rendered from a matrix, decoded by reading the
/// top-left pixel of every module block, yields the original matrix.
pub proof fn lemma_render_roundtrip(m: ModuleMatrix, min_size: int, p: PixelBuffer, m2: ModuleMatrix)
    requires
        m.wf(),
        1 <= m.width,
        0 <= min_size,
        p.width == spec_dim(m.width as int, min_size),
        p.height == p.width,
        p.data@ == spec_render_data(m.grid(), min_size),
        m2.wf(),
        m2.width == m.width,
        forall|r: int, c: int|
            0 <= r < m.width && 0 <= c < m.width ==> #[trigger] m2.module_at(r, c) == p.dark_at(
                (c + QUIET_ZONE) * spec_scale(m.width as int, min_size),
                (r + QUIET_ZONE) * spec_scale(m.width as int, min_size),
            ),
    ensures
        m2.width == m.width,
        m2.modules@ == m.modules@,
{
    let w = m.width as int;
    assert forall|i: int| 0 <= i < m.modules@.len() implies m2.modules@[i] == m.modules@[i] by {
        lemma_fundamental_div_mod(i, w);
        let r = i / w;
        let c = i % w;
        assert(0 <= r < w && 0 <= c < w) by (nonlinear_arith)
            requires
                0 <= i < w * w,
                i == w * r + c,
                0 <= c < w,
        ;
        assert(i == r * w + c) by (nonlinear_arith)
            requires
                i == w * r + c,
        ;
        lemma_corner_pixel(m, min_size, p, r, c);
        assert(m2.module_at(r, c) == m.module_at(r, c));
    }
    assert(m2.modules@ =~= m.modules@);
}

} // verus!
