use vstd::prelude::*;
use crate::buffer::Image;
use crate::options::{SmartCropOption, SCALE_BOUND};
use crate::pixel::UNIT;
use crate::scoring::Crop;

verus! {

/// A span of `len` from `start`, at scale `scale`, ends within `limit`.
pub open spec fn fits(start: int, len: int, scale: int, limit: int) -> bool {
    (start + len) * scale <= limit * UNIT
}

/// Size of a side of length `len` at scale `scale`.
pub open spec fn scaled(len: int, scale: int) -> int {
    len * scale / (UNIT as int)
}

/// The candidates of row `y` at scale `scale`, from column `x` on in steps of `step`, of
/// those that lie inside a `w` by `h` image.
pub open spec fn row_crops(x: int, y: int, cw: int, ch: int, scale: int, w: int, h: int, step: int) -> Seq<Crop>
    decreases w * UNIT - x,
{
    if step < 1 || x < 0 || x > w * UNIT || !fits(x, cw, scale, w) {
        seq![]
    } else {
        let here = if x + scaled(cw, scale) <= w && y + scaled(ch, scale) <= h {
            seq![Crop { x: x as u32, y: y as u32, width: scaled(cw, scale) as u32, height: scaled(ch, scale) as u32 }]
        } else {
            seq![]
        };
        let rest = if x + step <= w * UNIT {
            row_crops(x + step, y, cw, ch, scale, w, h, step)
        } else {
            seq![]
        };
        here + rest
    }
}

/// The candidates at scale `scale`, from row `y` on.
pub open spec fn column_crops(y: int, cw: int, ch: int, scale: int, w: int, h: int, step: int) -> Seq<Crop>
    decreases h * UNIT - y,
{
    if step < 1 || y < 0 || y > h * UNIT || !fits(y, ch, scale, h) {
        seq![]
    } else {
        let rest = if y + step <= h * UNIT {
            column_crops(y + step, cw, ch, scale, w, h, step)
        } else {
            seq![]
        };
        row_crops(0, y, cw, ch, scale, w, h, step) + rest
    }
}

/// The candidates from scale `scale` down to `min_scale`; a scale at which a side would be
/// empty contributes none.
pub open spec fn scale_crops(scale: int, cw: int, ch: int, w: int, h: int, opt: SmartCropOption) -> Seq<Crop>
    decreases scale,
{
    if scale < opt.min_scale || scale < 1 || opt.scale_step < 1 {
        seq![]
    } else {
        let here = if scaled(cw, scale) >= 1 && scaled(ch, scale) >= 1 {
            column_crops(0, cw, ch, scale, w, h, opt.step as int)
        } else {
            seq![]
        };
        let rest = if scale - opt.scale_step >= 0 {
            scale_crops(scale - opt.scale_step, cw, ch, w, h, opt)
        } else {
            seq![]
        };
        here + rest
    }
}

/// Base side: the configured one, or the image's shorter side when that is 0.
pub open spec fn base_side(configured: int, w: int, h: int) -> int {
    if configured != 0 {
        configured
    } else if w <= h {
        w
    } else {
        h
    }
}

/// All candidates for a `w` by `h` image, in generation order: scale descending, then row,
/// then column.
pub open spec fn candidates(w: int, h: int, opt: SmartCropOption) -> Seq<Crop> {
    scale_crops(
        opt.max_scale as int,
        base_side(opt.crop_width as int, w, h),
        base_side(opt.crop_height as int, w, h),
        w,
        h,
        opt,
    )
}

/// A non-empty rectangle inside a `w` by `h` image.
pub open spec fn in_bounds(c: Crop, w: int, h: int) -> bool {
    c.width >= 1 && c.height >= 1 && c.x + c.width <= w && c.y + c.height <= h
}

/// `c` has the base sides `cw` by `ch` at scale `s`.
pub open spec fn sized(c: Crop, cw: int, ch: int, s: int) -> bool {
    c.width == scaled(cw, s) && c.height == scaled(ch, s)
}

/// `c` has the base sides `cw` by `ch` at some scale in `[lo, hi]`.
pub open spec fn sized_within(c: Crop, cw: int, ch: int, lo: int, hi: int) -> bool {
    exists|s: int| lo <= s <= hi && #[trigger] sized(c, cw, ch, s)
}

proof fn lemma_row_in_bounds(x: int, y: int, cw: int, ch: int, scale: int, w: int, h: int, step: int)
    requires
        scaled(cw, scale) >= 1,
        scaled(ch, scale) >= 1,
        0 <= y,
        0 <= w <= u32::MAX,
        0 <= h <= u32::MAX,
    ensures
        forall|i: int| 0 <= i < row_crops(x, y, cw, ch, scale, w, h, step).len()
            ==> in_bounds(#[trigger] row_crops(x, y, cw, ch, scale, w, h, step)[i], w, h)
            && sized(row_crops(x, y, cw, ch, scale, w, h, step)[i], cw, ch, scale),
    decreases w * UNIT - x,
{
    if !(step < 1 || x < 0 || x > w * UNIT || !fits(x, cw, scale, w)) {
        let row = row_crops(x, y, cw, ch, scale, w, h, step);
        let rest = if x + step <= w * UNIT { row_crops(x + step, y, cw, ch, scale, w, h, step) } else { seq![] };
        if x + step <= w * UNIT {
            lemma_row_in_bounds(x + step, y, cw, ch, scale, w, h, step);
        }
        let here = row.subrange(0, row.len() - rest.len());
        assert(row =~= here + rest);
        assert forall|i: int| 0 <= i < row.len() implies in_bounds(#[trigger] row[i], w, h) && sized(row[i], cw, ch, scale) by {
            if i >= here.len() {
                assert(row[i] == rest[i - here.len()]);
            }
        }
    }
}

proof fn lemma_column_in_bounds(y: int, cw: int, ch: int, scale: int, w: int, h: int, step: int)
    requires
        scaled(cw, scale) >= 1,
        scaled(ch, scale) >= 1,
        0 <= w <= u32::MAX,
        0 <= h <= u32::MAX,
    ensures
        forall|i: int| 0 <= i < column_crops(y, cw, ch, scale, w, h, step).len()
            ==> in_bounds(#[trigger] column_crops(y, cw, ch, scale, w, h, step)[i], w, h)
            && sized(column_crops(y, cw, ch, scale, w, h, step)[i], cw, ch, scale),
    decreases h * UNIT - y,
{
    if !(step < 1 || y < 0 || y > h * UNIT || !fits(y, ch, scale, h)) {
        lemma_row_in_bounds(0, y, cw, ch, scale, w, h, step);
        let row = row_crops(0, y, cw, ch, scale, w, h, step);
        let rest = if y + step <= h * UNIT { column_crops(y + step, cw, ch, scale, w, h, step) } else { seq![] };
        if y + step <= h * UNIT {
            lemma_column_in_bounds(y + step, cw, ch, scale, w, h, step);
        }
        let all = column_crops(y, cw, ch, scale, w, h, step);
        assert(all =~= row + rest);
        assert forall|i: int| 0 <= i < all.len() implies in_bounds(#[trigger] all[i], w, h) && sized(all[i], cw, ch, scale) by {
            if i >= row.len() {
                assert(all[i] == rest[i - row.len()]);
            } else {
                assert(all[i] == row[i]);
            }
        }
    }
}

proof fn lemma_scale_in_bounds(scale: int, cw: int, ch: int, w: int, h: int, opt: SmartCropOption)
    requires
        0 <= w <= u32::MAX,
        0 <= h <= u32::MAX,
    ensures
        forall|i: int| 0 <= i < scale_crops(scale, cw, ch, w, h, opt).len()
            ==> in_bounds(#[trigger] scale_crops(scale, cw, ch, w, h, opt)[i], w, h)
            && sized_within(scale_crops(scale, cw, ch, w, h, opt)[i], cw, ch, opt.min_scale as int, scale),
    decreases scale,
{
    if !(scale < opt.min_scale || scale < 1 || opt.scale_step < 1) {
        if scaled(cw, scale) >= 1 && scaled(ch, scale) >= 1 {
            lemma_column_in_bounds(0, cw, ch, scale, w, h, opt.step as int);
        }
        let here = if scaled(cw, scale) >= 1 && scaled(ch, scale) >= 1 {
            column_crops(0, cw, ch, scale, w, h, opt.step as int)
        } else {
            seq![]
        };
        let rest = if scale - opt.scale_step >= 0 { scale_crops(scale - opt.scale_step, cw, ch, w, h, opt) } else { seq![] };
        if scale - opt.scale_step >= 0 {
            lemma_scale_in_bounds(scale - opt.scale_step, cw, ch, w, h, opt);
        }
        let all = scale_crops(scale, cw, ch, w, h, opt);
        assert(all =~= here + rest);
        assert forall|i: int| 0 <= i < all.len() implies in_bounds(#[trigger] all[i], w, h)
            && sized_within(all[i], cw, ch, opt.min_scale as int, scale) by {
            if i >= here.len() {
                assert(all[i] == rest[i - here.len()]);
                assert(sized_within(rest[i - here.len()], cw, ch, opt.min_scale as int, scale - opt.scale_step));
                let s = choose|s: int| opt.min_scale <= s <= scale - opt.scale_step && #[trigger] sized(rest[i - here.len()], cw, ch, s);
                assert(sized(all[i], cw, ch, s));
            } else {
                assert(all[i] == here[i]);
                assert(sized(all[i], cw, ch, scale));
            }
        }
    }
}

/// Every candidate is a non-empty rectangle inside the image.
pub proof fn candidates_in_bounds(w: int, h: int, opt: SmartCropOption)
    requires
        0 <= w <= u32::MAX,
        0 <= h <= u32::MAX,
    ensures
        forall|i: int| 0 <= i < candidates(w, h, opt).len() ==> in_bounds(#[trigger] candidates(w, h, opt)[i], w, h),
{
    candidates_keep_aspect(w, h, opt);
}

/// Every candidate is the base rectangle scaled by one scale `s` between `min_scale` and
/// `max_scale`, each side rounded down, and lies inside the image.
pub proof fn candidates_keep_aspect(w: int, h: int, opt: SmartCropOption)
    requires
        0 <= w <= u32::MAX,
        0 <= h <= u32::MAX,
    ensures
        forall|i: int| 0 <= i < candidates(w, h, opt).len() ==> in_bounds(#[trigger] candidates(w, h, opt)[i], w, h)
            && sized_within(
                candidates(w, h, opt)[i],
                base_side(opt.crop_width as int, w, h),
                base_side(opt.crop_height as int, w, h),
                opt.min_scale as int,
                opt.max_scale as int,
            ),
{
    lemma_scale_in_bounds(
        opt.max_scale as int,
        base_side(opt.crop_width as int, w, h),
        base_side(opt.crop_height as int, w, h),
        w,
        h,
        opt,
    );
}

/// Whether `(start + len) * scale <= limit`.
fn fits_within(start: u128, len: u64, scale: u64, limit: u128) -> (r: bool)
    requires
        start <= limit,
        limit <= u32::MAX * UNIT,
        len <= u32::MAX,
        scale <= SCALE_BOUND,
    ensures
        r == ((start + len) * scale <= limit),
{
    assert((start + len) * scale <= (u32::MAX * UNIT + u32::MAX) * SCALE_BOUND) by (nonlinear_arith)
        requires start <= u32::MAX * UNIT, len <= u32::MAX, scale <= SCALE_BOUND;
    (start + len as u128) * (scale as u128) <= limit
}

/// Appends the candidates of row `y` at scale `scale`.
fn push_row(crops: &mut Vec<Crop>, y: u64, cw: u64, ch: u64, scale: u64, w: u32, h: u32, step: u32)
    requires
        1 <= scale <= SCALE_BOUND,
        cw <= u32::MAX,
        ch <= u32::MAX,
        step >= 1,
        y <= h * UNIT,
    ensures
        final(crops)@ == old(crops)@ + row_crops(0, y as int, cw as int, ch as int, scale as int, w as int, h as int, step as int),
{
    let ghost start = crops@;
    let ghost (yi, cwi, chi, si, wi, hi, st) = (y as int, cw as int, ch as int, scale as int, w as int, h as int, step as int);
    let limit: u128 = w as u128 * 1_000_000;
    assert(cw * scale <= u32::MAX * SCALE_BOUND && ch * scale <= u32::MAX * SCALE_BOUND) by (nonlinear_arith)
        requires cw <= u32::MAX, ch <= u32::MAX, scale <= SCALE_BOUND;
    let sw: u64 = cw * scale / 1_000_000;
    let sh: u64 = ch * scale / 1_000_000;
    let mut x: u128 = 0;
    while x <= limit && fits_within(x, cw, scale, limit)
        invariant
            1 <= scale <= SCALE_BOUND,
            cw <= u32::MAX,
            ch <= u32::MAX,
            step >= 1,
            y <= h * UNIT,
            (yi, cwi, chi, si, wi, hi, st) == (y as int, cw as int, ch as int, scale as int, w as int, h as int, step as int),
            limit == w * UNIT,
            sw == scaled(cw as int, scale as int),
            sh == scaled(ch as int, scale as int),
            x <= limit + step,
            crops@ + row_crops(x as int, yi, cwi, chi, si, wi, hi, st) == start + row_crops(0, yi, cwi, chi, si, wi, hi, st),
        decreases limit + step - x,
    {
        let ghost before = crops@;
        let ghost rest = if x + step <= w * UNIT { row_crops(x + step, yi, cwi, chi, si, wi, hi, st) } else { seq![] };
        proof {
            if x + step > w * UNIT {
                assert(row_crops(x + step, yi, cwi, chi, si, wi, hi, st) =~= seq![]);
            }
        }
        if x + (sw as u128) <= w as u128 && y as u128 + (sh as u128) <= h as u128 {
            let c = Crop { x: x as u32, y: y as u32, width: sw as u32, height: sh as u32 };
            crops.push(c);
            assert(row_crops(x as int, yi, cwi, chi, si, wi, hi, st) =~= seq![c] + rest);
            assert(crops@ + row_crops(x + step, yi, cwi, chi, si, wi, hi, st) =~= before + row_crops(x as int, yi, cwi, chi, si, wi, hi, st));
        } else {
            assert(row_crops(x as int, yi, cwi, chi, si, wi, hi, st) =~= rest);
        }
        x = x + step as u128;
    }
    assert(row_crops(x as int, yi, cwi, chi, si, wi, hi, st) =~= seq![]);
    assert(crops@ =~= crops@ + row_crops(x as int, yi, cwi, chi, si, wi, hi, st));
}

/// Every candidate rectangle, in generation order: scale from `max_scale` down to
/// `min_scale` in steps of `scale_step`, then rows, then columns, on a grid of `step`
/// pixels. At each scale the base size is scaled, positions are not; a position whose
/// rectangle would leave the image is skipped.
pub fn generate_crops(image: &Image, opt: &SmartCropOption) -> (crops: Vec<Crop>)
    requires
        opt.valid(),
    ensures
        crops@ == candidates(image.width as int, image.height as int, *opt),
{
    let w = image.width;
    let h = image.height;
    let min_dim: u32 = if w <= h { w } else { h };
    let cw: u64 = if opt.crop_width != 0 { opt.crop_width as u64 } else { min_dim as u64 };
    let ch: u64 = if opt.crop_height != 0 { opt.crop_height as u64 } else { min_dim as u64 };
    let ghost (cwi, chi, wi, hi, o) = (cw as int, ch as int, w as int, h as int, *opt);
    let mut crops: Vec<Crop> = Vec::new();
    let mut scale: u64 = opt.max_scale;
    let limit: u128 = h as u128 * 1_000_000;
    while scale >= opt.min_scale
        invariant
            o == *opt,
            opt.valid(),
            scale <= SCALE_BOUND,
            cw <= u32::MAX,
            ch <= u32::MAX,
            (cwi, chi, wi, hi) == (cw as int, ch as int, w as int, h as int),
            limit == h * UNIT,
            crops@ + scale_crops(scale as int, cwi, chi, wi, hi, o) == scale_crops(opt.max_scale as int, cwi, chi, wi, hi, o),
        decreases scale,
    {
        let ghost before = crops@;
        let ghost si = scale as int;
        let ghost st = opt.step as int;
        assert(cw * scale <= u32::MAX * SCALE_BOUND && ch * scale <= u32::MAX * SCALE_BOUND) by (nonlinear_arith)
            requires cw <= u32::MAX, ch <= u32::MAX, scale <= SCALE_BOUND;
        let sw: u64 = cw * scale / 1_000_000;
        let sh: u64 = ch * scale / 1_000_000;
        if sw >= 1 && sh >= 1 {
            let mut y: u128 = 0;
            while y <= limit && fits_within(y, ch, scale, limit)
                invariant
                    o == *opt,
                    opt.valid(),
                    1 <= scale <= SCALE_BOUND,
                    si == scale,
                    st == opt.step,
                    cw <= u32::MAX,
                    ch <= u32::MAX,
                    (cwi, chi, wi, hi) == (cw as int, ch as int, w as int, h as int),
                    limit == h * UNIT,
                    y <= limit + opt.step,
                    crops@ + column_crops(y as int, cwi, chi, si, wi, hi, st) == before + column_crops(0, cwi, chi, si, wi, hi, st),
                decreases limit + opt.step - y,
            {
                let ghost mid = crops@;
                let ghost rest = if y + st <= h * UNIT { column_crops(y + st, cwi, chi, si, wi, hi, st) } else { seq![] };
                proof {
                    if y + st > h * UNIT {
                        assert(column_crops(y + st, cwi, chi, si, wi, hi, st) =~= seq![]);
                    }
                }
                push_row(&mut crops, y as u64, cw, ch, scale, w, h, opt.step);
                assert(column_crops(y as int, cwi, chi, si, wi, hi, st) =~= row_crops(0, y as int, cwi, chi, si, wi, hi, st) + rest);
                assert(crops@ + column_crops(y + st, cwi, chi, si, wi, hi, st) =~= mid + column_crops(y as int, cwi, chi, si, wi, hi, st));
                y = y + opt.step as u128;
            }
            assert(column_crops(y as int, cwi, chi, si, wi, hi, st) =~= seq![]);
            assert(crops@ =~= before + column_crops(0, cwi, chi, si, wi, hi, st));
        }
        let ghost rest = if scale - opt.scale_step >= 0 { scale_crops(scale - opt.scale_step, cwi, chi, wi, hi, o) } else { seq![] };
        let ghost here = if sw >= 1 && sh >= 1 { column_crops(0, cwi, chi, si, wi, hi, st) } else { seq![] };
        assert(scale_crops(si, cwi, chi, wi, hi, o) =~= here + rest);
        assert(crops@ =~= before + here);
        if scale >= opt.scale_step {
            scale = scale - opt.scale_step;
            assert(crops@ + scale_crops(scale as int, cwi, chi, wi, hi, o) =~= before + scale_crops(si, cwi, chi, wi, hi, o));
        } else {
            assert(scale_crops(0, cwi, chi, wi, hi, o) =~= seq![]);
            assert(crops@ + scale_crops(0, cwi, chi, wi, hi, o) =~= before + scale_crops(si, cwi, chi, wi, hi, o));
            scale = 0;
        }
    }
    assert(scale_crops(scale as int, cwi, chi, wi, hi, o) =~= seq![]);
    assert(crops@ =~= crops@ + scale_crops(scale as int, cwi, chi, wi, hi, o));
    crops
}

} // verus!