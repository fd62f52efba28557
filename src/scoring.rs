use vstd::prelude::*;
use crate::options::{SmartCropOption, WEIGHT_BOUND};
use crate::buffer::{Image, pixel_at};
use crate::pixel::{RGBA, UNIT, isqrt, sqrt_floor};

verus! {

/// Largest magnitude of an importance value.
pub const IMPORTANCE_BOUND: i64 = 10_000_000_000;

/// An axis-aligned rectangle.
#[derive(Clone, Copy, Debug, PartialEq, Eq, Structural)]
pub struct Crop {
    pub x: u32,
    pub y: u32,
    pub width: u32,
    pub height: u32,
}

impl Crop {
    pub fn new(x: u32, y: u32, width: u32, height: u32) -> (c: Crop)
        ensures
            c == (Crop { x, y, width, height }),
    {
        Crop { x, y, width, height }
    }
}

/// Rule-of-thirds bump on `[0, UNIT]`: `max(1 - 64 (v - 1/3)^2, 0)`, peaking at one third.
pub open spec fn thirds_spec(v: int) -> int {
    let t = v - UNIT / 3;
    let y2 = 64 * t * t / (UNIT as int);
    if UNIT - y2 > 0 { UNIT - y2 } else { 0 }
}

/// Distance of offset `k` from the centre of a span of `n`, scaled so that the centre is 0 and
/// the near edge is `UNIT`: `|n - 2k| / n`.
pub open spec fn center_distance(k: int, n: int) -> int {
    let a = if n - 2 * k >= 0 { n - 2 * k } else { 2 * k - n };
    a * UNIT / n
}

pub open spec fn edge_excess(p: int, opt: SmartCropOption) -> int {
    if p - UNIT + opt.edge_radius > 0 { p - UNIT + opt.edge_radius } else { 0 }
}

/// The edge falloff term of a point at centre distances `px`, `py`.
pub open spec fn edge_term(px: int, py: int, opt: SmartCropOption) -> int {
    let dx = edge_excess(px, opt);
    let dy = edge_excess(py, opt);
    (dx * dx + dy * dy) / (UNIT as int) * opt.edge_weight / (UNIT as int)
}

/// Importance of a point at centre distances `px`, `py` inside a candidate.
pub open spec fn inner_importance(px: int, py: int, opt: SmartCropOption) -> int {
    let d = edge_term(px, py, opt);
    let s = 1_410_000 - sqrt_floor(px * px + py * py);
    let lift = if s + d + UNIT / 2 > 0 { s + d + UNIT / 2 } else { 0 };
    let s2 = if opt.rule_of_thirds {
        s + lift * 12 / 10 * (thirds_spec(px) + thirds_spec(py)) / (UNIT as int)
    } else {
        s
    };
    s2 + d
}

pub open spec fn inside(crop: Crop, x: int, y: int) -> bool {
    crop.x <= x < crop.x + crop.width && crop.y <= y < crop.y + crop.height
}

/// Importance of the point `(x, y)` for `crop`.
pub open spec fn importance_spec(crop: Crop, x: int, y: int, opt: SmartCropOption) -> int {
    if !inside(crop, x, y) {
        opt.outside_importance as int
    } else {
        inner_importance(
            center_distance(x - crop.x, crop.width as int),
            center_distance(y - crop.y, crop.height as int),
            opt,
        )
    }
}

/// Importance is symmetric under a half turn about the candidate's centre: it depends on a
/// point only through its distances from the centre lines. The point at offset `k` from the
/// candidate's corner is paired with the one at offset `width - k` (and likewise vertically).
pub proof fn importance_half_turn(crop: Crop, x: int, y: int, opt: SmartCropOption)
    requires
        crop.x < x < crop.x + crop.width,
        crop.y < y < crop.y + crop.height,
    ensures
        importance_spec(crop, x, y, opt) == importance_spec(
            crop,
            2 * crop.x + crop.width - x,
            2 * crop.y + crop.height - y,
            opt,
        ),
{
    let x2 = 2 * crop.x + crop.width - x;
    let y2 = 2 * crop.y + crop.height - y;
    assert(inside(crop, x2, y2));
    assert(center_distance(x - crop.x, crop.width as int) == center_distance(x2 - crop.x, crop.width as int));
    assert(center_distance(y - crop.y, crop.height as int) == center_distance(y2 - crop.y, crop.height as int));
}

/// Floor division by a positive divisor.
fn div_floor(a: i128, b: i128) -> (q: i128)
    requires
        b > 0,
        a > i128::MIN,
    ensures
        q == a as int / b as int,
{
    if a >= 0 {
        (a as u128 / b as u128) as i128
    } else {
        let n: u128 = (-a - 1) as u128;
        let m: u128 = n / b as u128;
        proof {
            let ai = a as int;
            let bi = b as int;
            assert(ai / bi == -((n as int) / bi) - 1) by (nonlinear_arith)
                requires ai < 0, bi > 0, n as int == -ai - 1, m == (n as int) / bi;
        }
        -(m as i128) - 1
    }
}

/// The rule-of-thirds bump.
pub fn thirds(v: i64) -> (r: i64)
    requires
        0 <= v <= UNIT,
    ensures
        r == thirds_spec(v as int),
        0 <= r <= UNIT,
{
    let t: i64 = v - 333_333;
    assert(0 <= 64 * t * t <= 64 * 666_667 * 666_667) by (nonlinear_arith)
        requires -333_333 <= t <= 666_667;
    let y2: i64 = ((64 * t * t) as u64 / UNIT) as i64;
    if 1_000_000 - y2 > 0 {
        1_000_000 - y2
    } else {
        0
    }
}

fn center_distance_of(k: u32, n: u32) -> (p: i64)
    requires
        k < n,
    ensures
        p == center_distance(k as int, n as int),
        0 <= p <= UNIT,
{
    let a: u64 = if n as u64 >= 2 * k as u64 { n as u64 - 2 * k as u64 } else { 2 * k as u64 - n as u64 };
    assert(a * UNIT / (n as int) <= UNIT) by (nonlinear_arith)
        requires a <= n, n >= 1;
    (a * UNIT / n as u64) as i64
}

/// Importance of the point `(x, y)` for `crop`: `outside_importance` outside it; inside, a
/// peak at the centre, minus a falloff near the edges, plus the rule-of-thirds bonus when
/// that is enabled.
pub fn importance(crop: &Crop, x: u32, y: u32, opt: &SmartCropOption) -> (i: i64)
    requires
        opt.valid(),
    ensures
        i == importance_spec(*crop, x as int, y as int, *opt),
        -IMPORTANCE_BOUND <= i <= IMPORTANCE_BOUND,
{
    if (crop.x as u64) > (x as u64) || (x as u64) >= crop.x as u64 + crop.width as u64
        || (crop.y as u64) > (y as u64) || (y as u64) >= crop.y as u64 + crop.height as u64 {
        return opt.outside_importance;
    }
    let px = center_distance_of(x - crop.x, crop.width);
    let py = center_distance_of(y - crop.y, crop.height);
    let er = opt.edge_radius as i64;
    let dx: i64 = if px - 1_000_000 + er > 0 { px - 1_000_000 + er } else { 0 };
    let dy: i64 = if py - 1_000_000 + er > 0 { py - 1_000_000 + er } else { 0 };
    assert(0 <= dx * dx + dy * dy <= 2 * UNIT * UNIT) by (nonlinear_arith)
        requires 0 <= dx <= UNIT, 0 <= dy <= UNIT;
    let q: i64 = ((dx * dx + dy * dy) as u64 / UNIT) as i64;
    assert(-2 * UNIT * WEIGHT_BOUND <= q * opt.edge_weight <= 2 * UNIT * WEIGHT_BOUND) by (nonlinear_arith)
        requires 0 <= q <= 2 * UNIT, -WEIGHT_BOUND <= opt.edge_weight <= WEIGHT_BOUND;
    let d: i64 = div_floor((q * opt.edge_weight) as i128, 1_000_000) as i64;
    assert(-2 * WEIGHT_BOUND <= d <= 2 * WEIGHT_BOUND) by (nonlinear_arith)
        requires d == (q * opt.edge_weight) / (UNIT as int),
            -2 * UNIT * WEIGHT_BOUND <= q * opt.edge_weight <= 2 * UNIT * WEIGHT_BOUND;
    assert(0 <= px * px + py * py <= 2 * UNIT * UNIT) by (nonlinear_arith)
        requires 0 <= px <= UNIT, 0 <= py <= UNIT;
    let root = isqrt((px * px + py * py) as u64);
    assert(root <= 1_414_214) by (nonlinear_arith)
        requires root * root <= 2 * UNIT * UNIT;
    let mut s: i64 = 1_410_000 - root as i64;
    if opt.rule_of_thirds {
        let lift: i64 = if s + d + 500_000 > 0 { s + d + 500_000 } else { 0 };
        let tt: i64 = thirds(px) + thirds(py);
        assert(0 <= lift * 12 / 10 * tt <= (3 * WEIGHT_BOUND) * 12 / 10 * (2 * UNIT)) by (nonlinear_arith)
            requires 0 <= lift <= 3 * WEIGHT_BOUND, 0 <= tt <= 2 * UNIT;
        let bonus: i64 = ((lift * 12 / 10 * tt) as u64 / UNIT) as i64;
        s = s + bonus;
    }
    s + d
}

/// Largest number of pixels of a scored buffer.
pub const PIXEL_BOUND: u64 = 0x100_0000_0000;

/// Largest magnitude of one pixel's contribution to a score component.
pub const TERM_BOUND: i128 = 20_000_000_000_000;

/// Component sums of a candidate (fixed-point units) and its area-normalised total.
#[derive(Clone, Copy, Debug)]
pub struct Score {
    pub detail: i128,
    pub saturation: i128,
    pub skin: i128,
    pub boost: i128,
    pub total: i128,
}

/// Contribution of one pixel of the reduced feature map, weighted by importance `imp`, to
/// component `k`: 0 detail (edge channel), 1 skin, 2 saturation.
pub open spec fn pixel_term(k: int, p: RGBA, imp: int, opt: SmartCropOption) -> int {
    if k == 0 {
        p.g * imp / 255
    } else if k == 1 {
        p.r * (p.g * UNIT + 255 * opt.skin_bias) * imp / (255 * 255 * UNIT)
    } else {
        p.b * (p.g * UNIT + 255 * opt.saturation_bias) * imp / (255 * 255 * UNIT)
    }
}

/// Sum of component `k` over the first `n` pixels of row `y` of a feature map reduced by `f`;
/// pixel `(x, y)` stands for the point `(x f, y f)` of the full image.
pub open spec fn score_row(
    crop: Crop,
    px: Seq<RGBA>,
    w: int,
    f: int,
    opt: SmartCropOption,
    k: int,
    y: int,
    n: int,
) -> int
    decreases n,
{
    if n <= 0 {
        0
    } else {
        score_row(crop, px, w, f, opt, k, y, n - 1) + pixel_term(
            k,
            pixel_at(px, w, n - 1, y),
            importance_spec(crop, (n - 1) * f, y * f, opt),
            opt,
        )
    }
}

/// Sum of component `k` over the first `m` rows.
pub open spec fn score_sum(crop: Crop, px: Seq<RGBA>, w: int, f: int, opt: SmartCropOption, k: int, m: int) -> int
    decreases m,
{
    if m <= 0 {
        0
    } else {
        score_sum(crop, px, w, f, opt, k, m - 1) + score_row(crop, px, w, f, opt, k, m - 1, w)
    }
}

/// The weighted sum of the components, divided by the candidate's area.
pub open spec fn score_total(crop: Crop, px: Seq<RGBA>, w: int, h: int, f: int, opt: SmartCropOption) -> int {
    (score_sum(crop, px, w, f, opt, 0, h) * opt.detail_weight + score_sum(crop, px, w, f, opt, 1, h)
        * opt.skin_weight + score_sum(crop, px, w, f, opt, 2, h) * opt.saturation_weight) / (UNIT
        * crop.width * crop.height)
}

proof fn lemma_div_bound(a: int, b: int, c: int)
    requires
        b > 0,
        c >= 0,
        -c * b <= a <= c * b,
    ensures
        -c <= a / b <= c,
{
    assert(-c <= a / b <= c) by (nonlinear_arith)
        requires b > 0, c >= 0, -c * b <= a <= c * b;
}

fn term(k: u8, p: RGBA, imp: i64, opt: &SmartCropOption) -> (t: i128)
    requires
        opt.valid(),
        -IMPORTANCE_BOUND <= imp <= IMPORTANCE_BOUND,
    ensures
        t == pixel_term(k as int, p, imp as int, *opt),
        -TERM_BOUND <= t <= TERM_BOUND,
{
    let g = p.g as i128;
    let i = imp as i128;
    if k == 0 {
        assert(-255 * IMPORTANCE_BOUND <= g * i <= 255 * IMPORTANCE_BOUND) by (nonlinear_arith)
            requires 0 <= g <= 255, -IMPORTANCE_BOUND <= i <= IMPORTANCE_BOUND;
        proof { lemma_div_bound(g * i, 255, IMPORTANCE_BOUND as int); }
        div_floor(g * i, 255)
    } else {
        let (c, bias) = if k == 1 { (p.r as i128, opt.skin_bias as i128) } else { (p.b as i128, opt.saturation_bias as i128) };
        let m: i128 = g * 1_000_000 + 255 * bias;
        let ghost big: int = 255 * (255 * (UNIT as int) + 255 * (WEIGHT_BOUND as int)) * (IMPORTANCE_BOUND as int);
        assert(-big <= c * m * i <= big) by (nonlinear_arith)
            requires 0 <= c <= 255, -(255 * UNIT + 255 * WEIGHT_BOUND) <= m <= 255 * UNIT + 255 * WEIGHT_BOUND,
                -IMPORTANCE_BOUND <= i <= IMPORTANCE_BOUND, big == 255 * (255 * UNIT + 255 * WEIGHT_BOUND) * IMPORTANCE_BOUND;
        assert(-(255 * 255 * 1_001_000_000) <= c * m <= 255 * 255 * 1_001_000_000) by (nonlinear_arith)
            requires 0 <= c <= 255, -(255 * UNIT + 255 * WEIGHT_BOUND) <= m <= 255 * UNIT + 255 * WEIGHT_BOUND;
        assert(c * m * i == (c * m) * i);
        proof { lemma_div_bound(c * m * i, 255 * 255 * UNIT, TERM_BOUND as int); }
        div_floor(c * m * i, 65_025_000_000)
    }
}

/// Scores `crop` against `image`, the feature map reduced by `opt.score_down_sample`.
/// Detail accumulates the edge channel weighted by importance, as skin and saturation
/// accumulate theirs.
pub fn get_score(crop: &Crop, image: &Image, opt: &SmartCropOption) -> (s: Score)
    requires
        opt.valid(),
        image.wf(),
        crop.width >= 1,
        crop.height >= 1,
        image.width * opt.score_down_sample <= u32::MAX,
        image.height * opt.score_down_sample <= u32::MAX,
        image.width * image.height <= PIXEL_BOUND,
    ensures
        s.detail == score_sum(*crop, image.data@, image.width as int, opt.score_down_sample as int, *opt, 0, image.height as int),
        s.skin == score_sum(*crop, image.data@, image.width as int, opt.score_down_sample as int, *opt, 1, image.height as int),
        s.saturation == score_sum(*crop, image.data@, image.width as int, opt.score_down_sample as int, *opt, 2, image.height as int),
        s.boost == 0,
        s.total == score_total(*crop, image.data@, image.width as int, image.height as int, opt.score_down_sample as int, *opt),
{
    let f = opt.score_down_sample;
    let w = image.width;
    let h = image.height;
    let ghost px = image.data@;
    let ghost c = *crop;
    let ghost o = *opt;
    let mut detail: i128 = 0;
    let mut skin: i128 = 0;
    let mut saturation: i128 = 0;
    let mut y: u32 = 0;
    while y < h
        invariant
            y <= h,
            w == image.width,
            h == image.height,
            f == opt.score_down_sample,
            px == image.data@,
            c == *crop,
            o == *opt,
            opt.valid(),
            image.wf(),
            image.width * f <= u32::MAX,
            image.height * f <= u32::MAX,
            w * h <= PIXEL_BOUND,
            detail == score_sum(c, px, w as int, f as int, o, 0, y as int),
            skin == score_sum(c, px, w as int, f as int, o, 1, y as int),
            saturation == score_sum(c, px, w as int, f as int, o, 2, y as int),
            -(y * w) * TERM_BOUND <= detail <= (y * w) * TERM_BOUND,
            -(y * w) * TERM_BOUND <= skin <= (y * w) * TERM_BOUND,
            -(y * w) * TERM_BOUND <= saturation <= (y * w) * TERM_BOUND,
        decreases h - y,
    {
        let mut rd: i128 = 0;
        let mut rk: i128 = 0;
        let mut rs: i128 = 0;
        let mut x: u32 = 0;
        assert(y * f <= u32::MAX) by (nonlinear_arith)
            requires y < h, h * f <= u32::MAX;
        while x < w
            invariant
                x <= w,
                y < h,
                y * f <= u32::MAX,
                w == image.width,
                h == image.height,
                f == opt.score_down_sample,
                px == image.data@,
                c == *crop,
                o == *opt,
                opt.valid(),
                image.wf(),
                image.width * f <= u32::MAX,
                rd == score_row(c, px, w as int, f as int, o, 0, y as int, x as int),
                rk == score_row(c, px, w as int, f as int, o, 1, y as int, x as int),
                rs == score_row(c, px, w as int, f as int, o, 2, y as int, x as int),
                -x * TERM_BOUND <= rd <= x * TERM_BOUND,
                -x * TERM_BOUND <= rk <= x * TERM_BOUND,
                -x * TERM_BOUND <= rs <= x * TERM_BOUND,
            decreases w - x,
        {
            assert(x * f <= u32::MAX) by (nonlinear_arith)
                requires x < w, w * f <= u32::MAX;
            let i = importance(crop, x * f, y * f, opt);
            let p = image.get_rgba(x, y);
            rd = rd + term(0, p, i, opt);
            rk = rk + term(1, p, i, opt);
            rs = rs + term(2, p, i, opt);
            x = x + 1;
        }
        assert((y + 1) * w == y * w + w) by (nonlinear_arith);
        assert((y + 1) * w <= w * h) by (nonlinear_arith)
            requires y < h;
        detail = detail + rd;
        skin = skin + rk;
        saturation = saturation + rs;
        y = y + 1;
    }
    assert(crop.width * crop.height <= 0xffff_ffff * 0xffff_ffff) by (nonlinear_arith)
        requires crop.width <= 0xffff_ffffu32, crop.height <= 0xffff_ffffu32;
    let area: i128 = crop.width as i128 * crop.height as i128 * 1_000_000;
    let ghost big: int = (PIXEL_BOUND as int) * (TERM_BOUND as int) * (WEIGHT_BOUND as int);
    assert(-big <= detail * opt.detail_weight <= big) by (nonlinear_arith)
        requires -(h * w) * TERM_BOUND <= detail <= (h * w) * TERM_BOUND, w * h <= PIXEL_BOUND,
            -WEIGHT_BOUND <= opt.detail_weight <= WEIGHT_BOUND, big == PIXEL_BOUND * TERM_BOUND * WEIGHT_BOUND;
    assert(-big <= skin * opt.skin_weight <= big) by (nonlinear_arith)
        requires -(h * w) * TERM_BOUND <= skin <= (h * w) * TERM_BOUND, w * h <= PIXEL_BOUND,
            -WEIGHT_BOUND <= opt.skin_weight <= WEIGHT_BOUND, big == PIXEL_BOUND * TERM_BOUND * WEIGHT_BOUND;
    assert(-big <= saturation * opt.saturation_weight <= big) by (nonlinear_arith)
        requires -(h * w) * TERM_BOUND <= saturation <= (h * w) * TERM_BOUND, w * h <= PIXEL_BOUND,
            -WEIGHT_BOUND <= opt.saturation_weight <= WEIGHT_BOUND, big == PIXEL_BOUND * TERM_BOUND * WEIGHT_BOUND;
    assert(area >= 1) by (nonlinear_arith)
        requires area == crop.width * crop.height * 1_000_000, crop.width >= 1, crop.height >= 1;
    let sum: i128 = detail * opt.detail_weight as i128 + skin * opt.skin_weight as i128
        + saturation * opt.saturation_weight as i128;
    assert(UNIT * crop.width * crop.height == area) by (nonlinear_arith)
        requires area == crop.width * crop.height * 1_000_000;
    let total = div_floor(sum, area);
    Score { detail, saturation, skin, boost: 0, total }
}

} // verus!
