use vstd::prelude::*;
use crate::buffer::{Image, pixel_at, lemma_index_in_grid};
use crate::pixel::RGBA;

verus! {

/// Channel `k` of a pixel: 0 red, 1 green, 2 blue, otherwise alpha.
pub open spec fn channel(p: RGBA, k: int) -> int {
    if k == 0 {
        p.r as int
    } else if k == 1 {
        p.g as int
    } else if k == 2 {
        p.b as int
    } else {
        p.a as int
    }
}

/// Sum of channel `k` over the `n` pixels of row `y` from column `x0`.
pub open spec fn row_sum(px: Seq<RGBA>, w: int, k: int, x0: int, y: int, n: int) -> int
    decreases n,
{
    if n <= 0 {
        0
    } else {
        row_sum(px, w, k, x0, y, n - 1) + channel(pixel_at(px, w, x0 + n - 1, y), k)
    }
}

/// Largest value of channel `k` over the `n` pixels of row `y` from column `x0` (0 if none).
pub open spec fn row_max(px: Seq<RGBA>, w: int, k: int, x0: int, y: int, n: int) -> int
    decreases n,
{
    if n <= 0 {
        0
    } else {
        let m = row_max(px, w, k, x0, y, n - 1);
        let c = channel(pixel_at(px, w, x0 + n - 1, y), k);
        if c > m { c } else { m }
    }
}

/// Sum of channel `k` over the first `m` rows of the `f`-wide block at `(x0, y0)`.
pub open spec fn block_sum(px: Seq<RGBA>, w: int, k: int, x0: int, y0: int, f: int, m: int) -> int
    decreases m,
{
    if m <= 0 {
        0
    } else {
        block_sum(px, w, k, x0, y0, f, m - 1) + row_sum(px, w, k, x0, y0 + m - 1, f)
    }
}

/// Largest value of channel `k` over the first `m` rows of the `f`-wide block at `(x0, y0)`.
pub open spec fn block_max(px: Seq<RGBA>, w: int, k: int, x0: int, y0: int, f: int, m: int) -> int
    decreases m,
{
    if m <= 0 {
        0
    } else {
        let a = block_max(px, w, k, x0, y0, f, m - 1);
        let b = row_max(px, w, k, x0, y0 + m - 1, f);
        if b > a { b } else { a }
    }
}

/// Pixel `(x, y)` of a grid reduced by `f`: the `f`-by-`f` block's mean, blended with its
/// maximum for red (half and half) and green (seven tenths mean, three tenths maximum).
pub open spec fn down_pixel(px: Seq<RGBA>, w: int, f: int, x: int, y: int) -> RGBA {
    let ff = f * f;
    let sr = block_sum(px, w, 0, x * f, y * f, f, f);
    let sg = block_sum(px, w, 1, x * f, y * f, f, f);
    let sb = block_sum(px, w, 2, x * f, y * f, f, f);
    let sa = block_sum(px, w, 3, x * f, y * f, f, f);
    let mr = block_max(px, w, 0, x * f, y * f, f, f);
    let mg = block_max(px, w, 1, x * f, y * f, f, f);
    RGBA {
        r: ((sr + mr * ff) / (2 * ff)) as u8,
        g: ((7 * sg + 3 * mg * ff) / (10 * ff)) as u8,
        b: (sb / ff) as u8,
        a: (sa / ff) as u8,
    }
}

fn channel_of(p: RGBA, k: u8) -> (c: u8)
    ensures
        c == channel(p, k as int),
{
    if k == 0 {
        p.r
    } else if k == 1 {
        p.g
    } else if k == 2 {
        p.b
    } else {
        p.a
    }
}

/// Sum and maximum of channel `k` over the `f`-by-`f` block at `(x0, y0)`.
fn block_stats(img: &Image, k: u8, x0: u32, y0: u32, f: u32) -> (r: (u128, u8))
    requires
        img.wf(),
        f >= 1,
        x0 + f <= img.width,
        y0 + f <= img.height,
    ensures
        r.0 == block_sum(img.data@, img.width as int, k as int, x0 as int, y0 as int, f as int, f as int),
        r.1 == block_max(img.data@, img.width as int, k as int, x0 as int, y0 as int, f as int, f as int),
        r.0 <= 255 * (f * f),
{
    let ghost px = img.data@;
    let ghost w = img.width as int;
    let mut s: u128 = 0;
    let mut m: u8 = 0;
    let mut v: u32 = 0;
    while v < f
        invariant
            v <= f,
            img.wf(),
            x0 + f <= img.width,
            y0 + f <= img.height,
            px == img.data@,
            w == img.width,
            s == block_sum(px, w, k as int, x0 as int, y0 as int, f as int, v as int),
            m == block_max(px, w, k as int, x0 as int, y0 as int, f as int, v as int),
            s <= 255 * f * v,
        decreases f - v,
    {
        let mut rs: u128 = 0;
        let mut rm: u8 = 0;
        let mut u: u32 = 0;
        while u < f
            invariant
                u <= f,
                v < f,
                img.wf(),
                x0 + f <= img.width,
                y0 + f <= img.height,
                px == img.data@,
                w == img.width,
                rs == row_sum(px, w, k as int, x0 as int, y0 + v, u as int),
                rm == row_max(px, w, k as int, x0 as int, y0 + v, u as int),
                rs <= 255 * u,
            decreases f - u,
        {
            let c = channel_of(img.get_rgba(x0 + u, y0 + v), k);
            rs = rs + c as u128;
            if c > rm {
                rm = c;
            }
            u = u + 1;
        }
        assert(s + rs <= 255 * f * (v + 1)) by (nonlinear_arith)
            requires s <= 255 * f * v, rs <= 255 * f;
        assert(255 * f * (v + 1) <= 255 * 0x1_0000_0000 * 0x1_0000_0000) by (nonlinear_arith)
            requires f <= 0xffff_ffffu32, v < f;
        s = s + rs;
        if rm > m {
            m = rm;
        }
        v = v + 1;
    }
    assert(s <= 255 * (f * f)) by (nonlinear_arith)
        requires s <= 255 * f * v, v == f;
    (s, m)
}

proof fn lemma_max_bounds(px: Seq<RGBA>, w: int, k: int, x0: int, y0: int, f: int, m: int)
    ensures
        0 <= block_max(px, w, k, x0, y0, f, m) <= 255,
    decreases m,
{
    if m > 0 {
        lemma_max_bounds(px, w, k, x0, y0, f, m - 1);
        lemma_row_max_bounds(px, w, k, x0, y0 + m - 1, f);
    }
}

proof fn lemma_row_max_bounds(px: Seq<RGBA>, w: int, k: int, x0: int, y: int, n: int)
    ensures
        0 <= row_max(px, w, k, x0, y, n) <= 255,
    decreases n,
{
    if n > 0 {
        lemma_row_max_bounds(px, w, k, x0, y, n - 1);
    }
}

proof fn lemma_uniform_row(px: Seq<RGBA>, w: int, h: int, c: RGBA, k: int, x0: int, y: int, n: int)
    requires
        forall|a: int, b: int| 0 <= a < w && 0 <= b < h ==> #[trigger] pixel_at(px, w, a, b) == c,
        0 <= x0,
        x0 + n <= w,
        0 <= y < h,
        0 <= n,
    ensures
        row_sum(px, w, k, x0, y, n) == n * channel(c, k),
        n >= 1 ==> row_max(px, w, k, x0, y, n) == channel(c, k),
    decreases n,
{
    if n > 0 {
        lemma_uniform_row(px, w, h, c, k, x0, y, n - 1);
        assert(pixel_at(px, w, x0 + n - 1, y) == c);
        assert(channel(c, k) >= 0);
        if n == 1 {
            assert(row_max(px, w, k, x0, y, 0) == 0);
        }
        assert(n * channel(c, k) == (n - 1) * channel(c, k) + channel(c, k)) by (nonlinear_arith);
    } else {
        assert(n * channel(c, k) == 0) by (nonlinear_arith)
            requires n == 0;
    }
}

proof fn lemma_uniform_block(
    px: Seq<RGBA>,
    w: int,
    h: int,
    c: RGBA,
    k: int,
    x0: int,
    y0: int,
    f: int,
    m: int,
)
    requires
        forall|a: int, b: int| 0 <= a < w && 0 <= b < h ==> #[trigger] pixel_at(px, w, a, b) == c,
        0 <= x0,
        x0 + f <= w,
        0 <= y0,
        y0 + m <= h,
        f >= 1,
        0 <= m,
    ensures
        block_sum(px, w, k, x0, y0, f, m) == m * (f * channel(c, k)),
        m >= 1 ==> block_max(px, w, k, x0, y0, f, m) == channel(c, k),
    decreases m,
{
    if m > 0 {
        lemma_uniform_block(px, w, h, c, k, x0, y0, f, m - 1);
        lemma_uniform_row(px, w, h, c, k, x0, y0 + m - 1, f);
        assert(m * (f * channel(c, k)) == (m - 1) * (f * channel(c, k)) + f * channel(c, k))
            by (nonlinear_arith);
        if m == 1 {
            assert(block_max(px, w, k, x0, y0, f, 0) == 0);
        }
    } else {
        assert(m * (f * channel(c, k)) == 0) by (nonlinear_arith)
            requires m == 0;
    }
}

/// Reducing a buffer of one colour by any factor gives that colour everywhere: the block
/// mean and the block maximum are both the colour itself.
pub proof fn downsample_uniform(img: Image, factor: u32, c: RGBA)
    requires
        img.wf(),
        factor >= 1,
        forall|x: int, y: int| 0 <= x < img.width && 0 <= y < img.height ==> #[trigger] img.at(x, y) == c,
    ensures
        forall|x: int, y: int|
            0 <= x < img.width / factor && 0 <= y < img.height / factor ==> #[trigger] down_pixel(
                img.data@,
                img.width as int,
                factor as int,
                x,
                y,
            ) == c,
{
    let px = img.data@;
    let w = img.width as int;
    let h = img.height as int;
    let f = factor as int;
    assert forall|x: int, y: int|
        0 <= x < img.width / factor && 0 <= y < img.height / factor implies #[trigger] down_pixel(
            px,
            w,
            f,
            x,
            y,
        ) == c by {
        assert(x * f + f <= w) by (nonlinear_arith)
            requires 0 <= x < w / f, f >= 1;
        assert(y * f + f <= h) by (nonlinear_arith)
            requires 0 <= y < h / f, f >= 1;
        assert(0 <= x * f && 0 <= y * f) by (nonlinear_arith)
            requires 0 <= x, 0 <= y, f >= 1;
        assert forall|a: int, b: int| 0 <= a < w && 0 <= b < h implies #[trigger] pixel_at(px, w, a, b) == c by {
            assert(img.at(a, b) == c);
        }
        let ff = f * f;
        assert(ff >= 1) by (nonlinear_arith)
            requires f >= 1, ff == f * f;
        lemma_uniform_block(px, w, h, c, 0, x * f, y * f, f, f);
        lemma_uniform_block(px, w, h, c, 1, x * f, y * f, f, f);
        lemma_uniform_block(px, w, h, c, 2, x * f, y * f, f, f);
        lemma_uniform_block(px, w, h, c, 3, x * f, y * f, f, f);
        assert forall|k: int| #[trigger] (f * (f * channel(c, k))) == ff * channel(c, k) by {
            assert(f * (f * channel(c, k)) == ff * channel(c, k)) by (nonlinear_arith)
                requires ff == f * f;
        }
        assert(block_sum(px, w, 0, x * f, y * f, f, f) == ff * channel(c, 0));
        assert(block_sum(px, w, 1, x * f, y * f, f, f) == ff * channel(c, 1));
        assert(block_sum(px, w, 2, x * f, y * f, f, f) == ff * channel(c, 2));
        assert(block_sum(px, w, 3, x * f, y * f, f, f) == ff * channel(c, 3));
        let (cr, cg, cb, ca) = (c.r as int, c.g as int, c.b as int, c.a as int);
        assert((ff * cr + cr * ff) / (2 * ff) == cr) by (nonlinear_arith)
            requires ff >= 1;
        assert((7 * (ff * cg) + 3 * cg * ff) / (10 * ff) == cg) by (nonlinear_arith)
            requires ff >= 1;
        assert((ff * cb) / ff == cb) by (nonlinear_arith)
            requires ff >= 1;
        assert((ff * ca) / ff == ca) by (nonlinear_arith)
            requires ff >= 1;
    }
}

impl Image {
    /// This buffer reduced by `factor`: `width / factor` by `height / factor` pixels, each
    /// the `down_pixel` of its block.
    pub fn down_sample(&self, factor: u32) -> (out: Image)
        requires
            self.wf(),
            factor >= 1,
        ensures
            out.wf(),
            out.width == self.width / factor,
            out.height == self.height / factor,
            forall|x: int, y: int|
                0 <= x < out.width && 0 <= y < out.height ==> #[trigger] out.at(x, y)
                    == down_pixel(self.data@, self.width as int, factor as int, x, y),
    {
        let width: u32 = self.width / factor;
        let height: u32 = self.height / factor;
        let ghost f = factor as int;
        let ghost px = self.data@;
        let ghost w = self.width as int;
        proof {
            assert(width * factor <= self.width) by (nonlinear_arith)
                requires width == self.width / factor, factor >= 1;
            assert(height * factor <= self.height) by (nonlinear_arith)
                requires height == self.height / factor, factor >= 1;
            assert(width * height <= self.width * self.height) by (nonlinear_arith)
                requires width * factor <= self.width, height * factor <= self.height,
                    factor >= 1, width >= 0, height >= 0;
        }
        let n: usize = self.data.len();
        let mut output = Image::new(width, height);
        let mut y: u32 = 0;
        while y < height
            invariant
                y <= height,
                self.wf(),
                factor >= 1,
                f == factor,
                px == self.data@,
                w == self.width,
                width == self.width / factor,
                height == self.height / factor,
                width * factor <= self.width,
                height * factor <= self.height,
                output.wf(),
                output.width == width,
                output.height == height,
                forall|a: int, b: int|
                    0 <= a < width && 0 <= b < y ==> #[trigger] output.at(a, b)
                        == down_pixel(px, w, f, a, b),
            decreases height - y,
        {
            let mut x: u32 = 0;
            while x < width
                invariant
                    x <= width,
                    y < height,
                    self.wf(),
                    factor >= 1,
                    f == factor,
                    px == self.data@,
                    w == self.width,
                    width == self.width / factor,
                    height == self.height / factor,
                    width * factor <= self.width,
                    height * factor <= self.height,
                    output.wf(),
                    output.width == width,
                    output.height == height,
                    forall|a: int, b: int|
                        0 <= a < width && 0 <= b < y ==> #[trigger] output.at(a, b)
                            == down_pixel(px, w, f, a, b),
                    forall|a: int| 0 <= a < x ==> #[trigger] output.at(a, y as int)
                        == down_pixel(px, w, f, a, y as int),
                decreases width - x,
            {
                proof {
                    assert((x + 1) * factor <= self.width) by (nonlinear_arith)
                        requires x < width, width * factor <= self.width, factor >= 1;
                    assert((y + 1) * factor <= self.height) by (nonlinear_arith)
                        requires y < height, height * factor <= self.height, factor >= 1;
                    assert(x * factor + factor <= self.width) by (nonlinear_arith)
                        requires (x + 1) * factor <= self.width, factor >= 1;
                    assert(y * factor + factor <= self.height) by (nonlinear_arith)
                        requires (y + 1) * factor <= self.height, factor >= 1;
                    assert(factor * factor <= 0xffff_ffff_ffff_ffffu128) by (nonlinear_arith)
                        requires factor <= 0xffff_ffffu32;
                    assert(factor <= self.width) by (nonlinear_arith)
                        requires (x + 1) * factor <= self.width, x >= 0, factor >= 1;
                    assert(factor <= self.height) by (nonlinear_arith)
                        requires (y + 1) * factor <= self.height, y >= 0, factor >= 1;
                    assert(factor * factor <= self.width * self.height) by (nonlinear_arith)
                        requires factor <= self.width, factor <= self.height, factor >= 1;
                }
                let x0: u32 = x * factor;
                let y0: u32 = y * factor;
                let ff: u128 = factor as u128 * factor as u128;
                let (sr, mr) = block_stats(self, 0, x0, y0, factor);
                let (sg, mg) = block_stats(self, 1, x0, y0, factor);
                let (sb, _) = block_stats(self, 2, x0, y0, factor);
                let (sa, _) = block_stats(self, 3, x0, y0, factor);
                proof {
                    assert(ff <= 0xffff_ffff_ffff_ffffu128) by (nonlinear_arith)
                        requires ff == factor * factor, factor <= 0xffff_ffffu32;
                    assert(ff >= 1) by (nonlinear_arith)
                        requires ff == factor * factor, factor >= 1;
                    assert(mr * ff <= 255 * ff) by (nonlinear_arith)
                        requires mr <= 255, ff >= 1;
                    assert(3 * mg * ff <= 765 * ff) by (nonlinear_arith)
                        requires mg <= 255, ff >= 1;
                    assert((sr + mr * ff) / (2 * ff) <= 255) by (nonlinear_arith)
                        requires sr <= 255 * ff, mr <= 255, ff >= 1;
                    assert((7 * sg + 3 * mg * ff) / (10 * ff) <= 255) by (nonlinear_arith)
                        requires sg <= 255 * ff, 3 * mg * ff <= 765 * ff, ff >= 1;
                    assert(sb / ff <= 255) by (nonlinear_arith)
                        requires sb <= 255 * ff, ff >= 1;
                    assert(sa / ff <= 255) by (nonlinear_arith)
                        requires sa <= 255 * ff, ff >= 1;
                }
                let p = RGBA::new(
                    ((sr + mr as u128 * ff) / (2 * ff)) as u8,
                    ((7 * sg + 3 * mg as u128 * ff) / (10 * ff)) as u8,
                    (sb / ff) as u8,
                    (sa / ff) as u8,
                );
                output.set_rgba(x, y, p);
                x = x + 1;
            }
            y = y + 1;
        }
        output
    }
}

} // verus!
