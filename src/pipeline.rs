use vstd::prelude::*;
use crate::analysis::{analyse, is_last_best};
use crate::buffer::Image;
use crate::crops::{candidates, candidates_in_bounds, in_bounds};
use crate::downsample::channel;
use crate::options::{SmartCropOption, default_options};
use crate::outside::{decode_rgba, decoded, lanczos_resized, resize_rgba};
use crate::pixel::{RGBA, UNIT};
use crate::scoring::{Crop, PIXEL_BOUND};

verus! {

/// Largest side of the image that the analysis works on when reduction is enabled.
pub const PRESCALE_SIDE: u64 = 256;

/// The whole `w` by `h` frame.
pub open spec fn full_frame(w: u32, h: u32) -> Crop {
    Crop { x: 0, y: 0, width: w, height: h }
}

/// Whether `w * th <= h * tw`: the image is at most as wide as the target aspect, so the
/// fitted target spans the full width.
pub open spec fn width_bound(w: int, h: int, tw: int, th: int) -> bool {
    w * th <= h * tw
}

/// The largest rectangle of aspect `tw : th` that fits in `w` by `h` (sides rounded down).
pub open spec fn fitted(w: int, h: int, tw: int, th: int) -> (int, int) {
    if width_bound(w, h, tw, th) { (w, th * w / tw) } else { (tw * h / th, h) }
}

/// The reciprocal of the factor from target to fitted rectangle, in fixed-point units.
pub open spec fn inverse_scale(w: int, h: int, tw: int, th: int) -> int {
    if width_bound(w, h, tw, th) { tw * UNIT / w } else { th * UNIT / h }
}

/// `min_scale` for a run: the reciprocal scale, within `[opt.min_scale, opt.max_scale]`.
pub open spec fn run_min_scale(opt: SmartCropOption, inv: int) -> int {
    let lo = if inv > opt.min_scale { inv } else { opt.min_scale as int };
    if opt.max_scale < lo { opt.max_scale as int } else { lo }
}

/// The settings of a run on base candidate sides `cw` by `ch`.
pub open spec fn run_options(opt: SmartCropOption, cw: int, ch: int, min_scale: int) -> SmartCropOption {
    SmartCropOption { crop_width: cw as u32, crop_height: ch as u32, min_scale: min_scale as u64, ..opt }
}

pub open spec fn larger_side(w: int, h: int) -> int {
    if w >= h { w } else { h }
}

/// Whether the image is reduced before the analysis: reduction is enabled, the larger side
/// exceeds `PRESCALE_SIDE`, both reduced sides are non-empty, and its bytes fit in memory.
pub open spec fn reduces(w: int, h: int, opt: SmartCropOption) -> bool {
    let m = larger_side(w, h);
    opt.prescale && m > PRESCALE_SIDE && w * PRESCALE_SIDE / m >= 1 && h * PRESCALE_SIDE / m >= 1
        && w * h <= usize::MAX / 4
}

/// A rectangle of the reduced image in the coordinates of the original, whose larger side
/// is `m`.
pub open spec fn enlarged(c: Crop, m: int) -> Crop {
    Crop {
        x: (c.x * m / PRESCALE_SIDE as int) as u32,
        y: (c.y * m / PRESCALE_SIDE as int) as u32,
        width: (c.width * m / PRESCALE_SIDE as int) as u32,
        height: (c.height * m / PRESCALE_SIDE as int) as u32,
    }
}

/// Raw RGBA8 bytes of a pixel sequence.
pub open spec fn bytes_of(px: Seq<RGBA>) -> Seq<u8> {
    Seq::new(4 * px.len(), |i: int| channel(px[i / 4], i % 4) as u8)
}

/// The pixels held by raw RGBA8 bytes.
pub open spec fn pixels_of(b: Seq<u8>) -> Seq<RGBA> {
    Seq::new(b.len() / 4, |i: int| RGBA { r: b[4 * i], g: b[4 * i + 1], b: b[4 * i + 2], a: b[4 * i + 3] })
}

/// `c` is the last best candidate of the analysis of `px`, a `w` by `h` image, under `run`.
pub open spec fn chosen(c: Crop, px: Seq<RGBA>, w: int, h: int, run: SmartCropOption) -> bool {
    exists|k: int| #[trigger] is_last_best(candidates(w, h, run), px, w, h, run, k) && c == candidates(w, h, run)[k]
}

/// What `open` returns for the `w` by `h` image `px`: a rectangle inside the image; the
/// whole frame for an empty target or image, for an image too large to score, or when no
/// candidate exists; otherwise the last best candidate of the analysis, run on the image
/// itself or, when it is reduced, on its resampled copy and then scaled back.
pub open spec fn crop_outcome(px: Seq<RGBA>, width: u32, height: u32, opt: SmartCropOption, r: Crop) -> bool {
    let (w, h, tw, th) = (width as int, height as int, opt.width as int, opt.height as int);
    let (cw, ch) = fitted(w, h, tw, th);
    let inv = run_min_scale(opt, inverse_scale(w, h, tw, th));
    let m = larger_side(w, h);
    let (nw, nh) = (w * 256 / m, h * 256 / m);
    let run = run_options(opt, cw, ch, inv);
    let small_run = run_options(opt, cw * 256 / m, ch * 256 / m, inv);
    let small = pixels_of(lanczos_resized(bytes_of(px), width, height, nw as u32, nh as u32));
    &&& r.x + r.width <= width
    &&& r.y + r.height <= height
    &&& tw == 0 || th == 0 || w == 0 || h == 0 ==> r == full_frame(width, height)
    &&& tw > 0 && th > 0 && w > 0 && h > 0 && !reduces(w, h, opt) ==> {
        &&& w * h > PIXEL_BOUND ==> r == full_frame(width, height)
        &&& w * h <= PIXEL_BOUND && candidates(w, h, run).len() == 0 ==> r == full_frame(width, height)
        &&& w * h <= PIXEL_BOUND && candidates(w, h, run).len() > 0 ==> chosen(r, px, w, h, run)
    }
    &&& tw > 0 && th > 0 && w > 0 && h > 0 && reduces(w, h, opt) ==> {
        &&& candidates(nw, nh, small_run).len() == 0 ==> r == full_frame(width, height)
        &&& candidates(nw, nh, small_run).len() > 0 ==> exists|c: Crop| #[trigger] chosen(c, small, nw, nh, small_run) && r == enlarged(c, m)
    }
}

/// The base candidate keeps the target aspect up to rounding: it fits in the image, and
/// `cw * th - ch * tw` lies strictly between `-th` and `tw`.
pub proof fn fitted_aspect(w: int, h: int, tw: int, th: int)
    requires
        w > 0,
        h > 0,
        tw > 0,
        th > 0,
    ensures
        ({
            let (cw, ch) = fitted(w, h, tw, th);
            &&& 0 <= cw <= w
            &&& 0 <= ch <= h
            &&& -th < cw * th - ch * tw < tw
        }),
{
    if width_bound(w, h, tw, th) {
        let ch = th * w / tw;
        assert(ch * tw <= th * w < ch * tw + tw) by (nonlinear_arith)
            requires ch == th * w / tw, tw > 0, th > 0, w > 0;
        assert(ch <= h) by (nonlinear_arith)
            requires ch * tw <= th * w, w * th <= h * tw, tw > 0;
        assert(0 <= w * th - ch * tw < tw) by (nonlinear_arith)
            requires ch * tw <= th * w < ch * tw + tw;
        assert(0 <= ch) by (nonlinear_arith)
            requires ch == th * w / tw, tw > 0, th > 0, w > 0;
    } else {
        let cw = tw * h / th;
        assert(cw * th <= tw * h < cw * th + th) by (nonlinear_arith)
            requires cw == tw * h / th, tw > 0, th > 0, h > 0;
        assert(cw <= w) by (nonlinear_arith)
            requires cw * th <= tw * h, w * th > h * tw, th > 0;
        assert(-th < cw * th - h * tw <= 0) by (nonlinear_arith)
            requires cw * th <= tw * h < cw * th + th;
        assert(0 <= cw) by (nonlinear_arith)
            requires cw == tw * h / th, tw > 0, th > 0, h > 0;
    }
}

proof fn lemma_enlarged_in_bounds(c: Crop, nw: int, nh: int, w: int, h: int, m: int)
    requires
        in_bounds(c, nw, nh),
        nw == w * 256 / m,
        nh == h * 256 / m,
        m >= w,
        m >= h,
        m >= 1,
        w >= 0,
        h >= 0,
        m <= u32::MAX,
    ensures
        enlarged(c, m).x + enlarged(c, m).width <= w,
        enlarged(c, m).y + enlarged(c, m).height <= h,
{
    let (x, cw) = (c.x as int, c.width as int);
    let (y, ch) = (c.y as int, c.height as int);
    assert(x * m / 256 + cw * m / 256 <= w) by (nonlinear_arith)
        requires x + cw <= nw, nw == w * 256 / m, m >= 1, x >= 0, cw >= 0, w >= 0;
    assert(y * m / 256 + ch * m / 256 <= h) by (nonlinear_arith)
        requires y + ch <= nh, nh == h * 256 / m, m >= 1, y >= 0, ch >= 0, h >= 0;
}

/// The content-aware crop of `input` for the target aspect `opt.width : opt.height`.
///
/// The target is fitted into the image to give the base candidate size; when reduction is
/// enabled and the larger side exceeds `PRESCALE_SIDE`, the image is resampled so that its
/// larger side is `PRESCALE_SIDE`, the analysis runs there, and the winner is scaled back.
/// An empty target or image, or one without candidates, gives the whole frame.
pub fn open(input: Image, opt: SmartCropOption) -> (r: Crop)
    requires
        input.wf(),
        opt.valid(),
    ensures
        crop_outcome(input.data@, input.width, input.height, opt, r),
{
    let w = input.width;
    let h = input.height;
    let full = Crop::new(0, 0, w, h);
    if opt.width == 0 || opt.height == 0 || w == 0 || h == 0 {
        return full;
    }
    let (wl, hl, tw, th) = (w as u64, h as u64, opt.width as u64, opt.height as u64);
    assert(wl * th <= u32::MAX * u32::MAX && hl * tw <= u32::MAX * u32::MAX) by (nonlinear_arith)
        requires wl <= u32::MAX, hl <= u32::MAX, tw <= u32::MAX, th <= u32::MAX;
    let (cw, ch, inv): (u64, u64, u64) = if wl * th <= hl * tw {
        proof {
            let (a, b, c, d) = (th as int, wl as int, tw as int, hl as int);
            assert(a * b / c <= d) by (nonlinear_arith)
                requires b * a <= d * c, c >= 1, a >= 0, b >= 0;
        }
        (wl, th * wl / tw, tw * 1_000_000 / wl)
    } else {
        proof {
            let (a, b, c, d) = (tw as int, hl as int, th as int, wl as int);
            assert(a * b / c <= d) by (nonlinear_arith)
                requires d * c > b * a, c >= 1, a >= 0, b >= 0;
        }
        (tw * hl / th, hl, th * 1_000_000 / hl)
    };
    let lo: u64 = if inv > opt.min_scale { inv } else { opt.min_scale };
    let ms: u64 = if opt.max_scale < lo { opt.max_scale } else { lo };
    let m: u64 = if wl >= hl { wl } else { hl };
    let n: usize = input.data.len();
    if opt.prescale && m > PRESCALE_SIDE && wl * 256 / m >= 1 && hl * 256 / m >= 1 && n <= usize::MAX / 4 {
        let nw: u32 = (wl * 256 / m) as u32;
        let nh: u32 = (hl * 256 / m) as u32;
        proof {
            let (a, b, c) = (wl as int, hl as int, m as int);
            assert(a * 256 / c <= 256 && b * 256 / c <= 256) by (nonlinear_arith)
                requires c >= a, c >= b, c >= 1, a >= 0, b >= 0;
        }
        let run = SmartCropOption {
            crop_width: (cw * 256 / m) as u32,
            crop_height: (ch * 256 / m) as u32,
            min_scale: ms,
            ..opt
        };
        let bytes = input.to_rgba8();
        proof {
            assert(bytes@ =~= bytes_of(input.data@));
        }
        assert(4 * w * h == 4 * (w as int * h as int)) by (nonlinear_arith);
        assert(4 * nw * nh <= 4 * 256 * 256) by (nonlinear_arith)
            requires nw <= 256, nh <= 256;
        let small = resize_rgba(&bytes, w, h, nw, nh);
        assert(small@.len() / 4 == nw * nh) by (nonlinear_arith)
            requires small@.len() == 4 * nw * nh;
        match Image::from_rgba8(nw, nh, small.as_slice()) {
            Some(img) => {
                proof {
                    assert(img.data@ =~= pixels_of(small@));
                }
                match analyse(&img, &run) {
                    Some(sc) => {
                        proof {
                            candidates_in_bounds(nw as int, nh as int, run);
                            let k = choose|k: int| #[trigger] is_last_best(candidates(nw as int, nh as int, run), img.data@, nw as int, nh as int, run, k)
                                && sc.crop == candidates(nw as int, nh as int, run)[k];
                            assert(in_bounds(candidates(nw as int, nh as int, run)[k], nw as int, nh as int));
                            lemma_enlarged_in_bounds(sc.crop, nw as int, nh as int, w as int, h as int, m as int);
                            let (wi, hi, tw, th) = (w as int, h as int, opt.width as int, opt.height as int);
                            let (fw, fh) = fitted(wi, hi, tw, th);
                            assert(cw == fw && ch == fh);
                            assert(ms == run_min_scale(opt, inverse_scale(wi, hi, tw, th)));
                            assert(m == larger_side(wi, hi));
                            assert(run == run_options(opt, fw * 256 / (m as int), fh * 256 / (m as int), ms as int));
                            assert(img.data@ == pixels_of(lanczos_resized(bytes_of(input.data@), w, h, nw, nh)));
                            assert(chosen(sc.crop, img.data@, nw as int, nh as int, run));
                            assert(sc.crop.x * m <= 256 * u32::MAX && sc.crop.y * m <= 256 * u32::MAX
                                && sc.crop.width * m <= 256 * u32::MAX && sc.crop.height * m <= 256 * u32::MAX) by (nonlinear_arith)
                                requires sc.crop.x <= 256, sc.crop.y <= 256, sc.crop.width <= 256, sc.crop.height <= 256, m <= u32::MAX;
                        }
                        Crop::new(
                            (sc.crop.x as u64 * m / 256) as u32,
                            (sc.crop.y as u64 * m / 256) as u32,
                            (sc.crop.width as u64 * m / 256) as u32,
                            (sc.crop.height as u64 * m / 256) as u32,
                        )
                    },
                    None => full,
                }
            },
            None => full,
        }
    } else {
        if wl * hl > PIXEL_BOUND {
            return full;
        }
        let run = SmartCropOption { crop_width: cw as u32, crop_height: ch as u32, min_scale: ms, ..opt };
        match analyse(&input, &run) {
            Some(sc) => {
                proof {
                    candidates_in_bounds(w as int, h as int, run);
                }
                sc.crop
            },
            None => full,
        }
    }
}

/// Decodes `data` and returns the crop for the target aspect `width : height` under the
/// default settings as `[x, y, width, height]`; empty when the bytes cannot be decoded.
pub fn crop(data: &[u8], width: u32, height: u32) -> (r: Vec<u32>)
    ensures
        r@.len() == 0 <==> decoded(data@) is None,
        decoded(data@) matches Some(t) ==> r@.len() == 4 && crop_outcome(
            pixels_of(t.2),
            t.0,
            t.1,
            default_options(width, height),
            Crop { x: r@[0], y: r@[1], width: r@[2], height: r@[3] },
        ),
{
    match decode_rgba(data) {
        Some((w, h, bytes)) => match Image::from_rgba8(w, h, bytes.as_slice()) {
            Some(img) => {
                proof {
                    assert(bytes@.len() / 4 == w * h) by (nonlinear_arith)
                        requires bytes@.len() == 4 * w * h;
                    assert(img.data@ =~= pixels_of(bytes@));
                }
                let c = open(img, SmartCropOption::new(width, height));
                vec![c.x, c.y, c.width, c.height]
            },
            None => vec![0, 0, w, h],
        },
        None => Vec::new(),
    }
}

} // verus!
