use vstd::prelude::*;
use crate::buffer::{Image, pixel_at};
use crate::options::SmartCropOption;
use crate::pixel::{RGBA, UNIT, isqrt, lightness, lightness_unit, saturation_unit, sqrt_floor};

verus! {

/// A value in units of 1/10000 as a byte: truncated toward zero, saturating at 0 and 255.
pub open spec fn byte_of(v: int) -> u8 {
    if v < 10000 {
        0
    } else if v / 10000 > 255 {
        255
    } else {
        (v / 10000) as u8
    }
}

/// Edge response at `(x, y)`: the lightness on the border, else the discrete Laplacian
/// `4 L(x, y) - L(x, y - 1) - L(x - 1, y) - L(x + 1, y) - L(x, y + 1)`.
pub open spec fn edge_value(px: Seq<RGBA>, w: int, h: int, x: int, y: int) -> u8 {
    let l = |a: int, b: int| lightness(pixel_at(px, w, a, b));
    if x == 0 || x >= w - 1 || y == 0 || y >= h - 1 {
        byte_of(l(x, y))
    } else {
        byte_of(4 * l(x, y) - l(x, y - 1) - l(x - 1, y) - l(x + 1, y) - l(x, y + 1))
    }
}

/// Skin likelihood in fixed-point units: one minus the distance between the pixel's colour
/// as a unit vector and the reference skin colour. `None` for black, which has no direction.
pub open spec fn skin_likelihood(p: RGBA, opt: SmartCropOption) -> Option<int> {
    let sq = p.r * p.r + p.g * p.g + p.b * p.b;
    if sq == 0 {
        None
    } else {
        let mag = sqrt_floor(sq * UNIT * UNIT);
        let dr = p.r * UNIT * UNIT / mag - opt.skin_color.0;
        let dg = p.g * UNIT * UNIT / mag - opt.skin_color.1;
        let db = p.b * UNIT * UNIT / mag - opt.skin_color.2;
        Some(UNIT - sqrt_floor(dr * dr + dg * dg + db * db))
    }
}

/// How far `v` lies above `threshold`, rescaled so that `UNIT` maps to 255.
pub open spec fn above_threshold(v: int, threshold: int) -> u8 {
    ((v - threshold) * 255 / (UNIT - threshold)) as u8
}

/// Red channel of the feature map.
pub open spec fn skin_value(p: RGBA, opt: SmartCropOption) -> u8 {
    let l = lightness_unit(p);
    match skin_likelihood(p, opt) {
        Some(s) => if s > opt.skin_threshold && opt.skin_brightness_min <= l
            <= opt.skin_brightness_max {
            above_threshold(s, opt.skin_threshold as int)
        } else {
            0
        },
        None => 0,
    }
}

/// Blue channel of the feature map.
pub open spec fn saturation_value(p: RGBA, opt: SmartCropOption) -> u8 {
    let l = lightness_unit(p);
    let s = saturation_unit(p);
    if s > opt.saturation_threshold && opt.saturation_brightness_min <= l
        <= opt.saturation_brightness_max {
        above_threshold(s, opt.saturation_threshold as int)
    } else {
        0
    }
}

/// Feature map pixel: skin in red, edges in green, saturation in blue.
pub open spec fn feature_pixel(px: Seq<RGBA>, w: int, h: int, opt: SmartCropOption, x: int, y: int) -> RGBA {
    let p = pixel_at(px, w, x, y);
    RGBA {
        r: skin_value(p, opt),
        g: edge_value(px, w, h, x, y),
        b: saturation_value(p, opt),
        a: 0,
    }
}

fn to_byte(v: i64) -> (b: u8)
    ensures
        b == byte_of(v as int),
{
    if v < 10000 {
        0
    } else if v / 10000 > 255 {
        255
    } else {
        (v / 10000) as u8
    }
}

fn edge_at(input: &Image, x: u32, y: u32) -> (v: u8)
    requires
        input.wf(),
        x < input.width,
        y < input.height,
    ensures
        v == edge_value(input.data@, input.width as int, input.height as int, x as int, y as int),
{
    let w = input.width;
    let h = input.height;
    if x == 0 || x >= w - 1 || y == 0 || y >= h - 1 {
        to_byte(input.cie(x, y) as i64)
    } else {
        let c = input.cie(x, y) as i64;
        let up = input.cie(x, y - 1) as i64;
        let left = input.cie(x - 1, y) as i64;
        let right = input.cie(x + 1, y) as i64;
        let down = input.cie(x, y + 1) as i64;
        to_byte(4 * c - up - left - right - down)
    }
}

fn scaled_above(v: u64, threshold: u64) -> (b: u8)
    requires
        threshold < v <= UNIT,
    ensures
        b == above_threshold(v as int, threshold as int),
{
    assert((v - threshold) * 255 / (UNIT - threshold) <= 255) by (nonlinear_arith)
        requires threshold < v <= UNIT;
    ((v - threshold) * 255 / (UNIT - threshold)) as u8
}

proof fn lemma_component_bound(c: int, mag: int)
    requires
        0 <= c <= 255,
        mag >= UNIT,
    ensures
        c * UNIT * UNIT / mag <= 255 * UNIT,
{
    let n = c * UNIT * UNIT;
    assert(n <= 255 * UNIT * mag) by (nonlinear_arith)
        requires n == c * UNIT * UNIT, 0 <= c <= 255, mag >= UNIT;
    assert(n / mag <= 255 * UNIT) by (nonlinear_arith)
        requires n <= 255 * UNIT * mag, mag >= UNIT, n >= 0;
}

/// Skin likelihood of `color` in fixed-point units; `None` for black.
pub fn skin_color(color: &RGBA, opt: &SmartCropOption) -> (s: Option<i64>)
    requires
        opt.valid(),
    ensures
        s is None <==> skin_likelihood(*color, *opt) is None,
        s matches Some(v) ==> skin_likelihood(*color, *opt) == Some(v as int) && v <= UNIT,
{
    let r = color.r as u64;
    let g = color.g as u64;
    let b = color.b as u64;
    assert(r * r <= 65025 && g * g <= 65025 && b * b <= 65025) by (nonlinear_arith)
        requires r <= 255, g <= 255, b <= 255;
    let sq: u64 = r * r + g * g + b * b;
    if sq == 0 {
        return None;
    }
    assert(sq * UNIT * UNIT <= 195075 * UNIT * UNIT) by (nonlinear_arith)
        requires sq <= 195075;
    let mag = isqrt(sq * UNIT * UNIT);
    proof {
        if mag < UNIT {
            assert((mag + 1) * (mag + 1) <= UNIT * UNIT) by (nonlinear_arith)
                requires mag < UNIT, mag >= 0;
            assert(UNIT * UNIT <= sq * UNIT * UNIT) by (nonlinear_arith)
                requires sq >= 1;
        }
        lemma_component_bound(r as int, mag as int);
        lemma_component_bound(g as int, mag as int);
        lemma_component_bound(b as int, mag as int);
    }
    let dr: i64 = (r * UNIT * UNIT / mag) as i64 - opt.skin_color.0 as i64;
    let dg: i64 = (g * UNIT * UNIT / mag) as i64 - opt.skin_color.1 as i64;
    let db: i64 = (b * UNIT * UNIT / mag) as i64 - opt.skin_color.2 as i64;
    assert(0 <= dr * dr <= (255 * UNIT) * (255 * UNIT)) by (nonlinear_arith)
        requires -(255 * UNIT) <= dr <= 255 * UNIT;
    assert(0 <= dg * dg <= (255 * UNIT) * (255 * UNIT)) by (nonlinear_arith)
        requires -(255 * UNIT) <= dg <= 255 * UNIT;
    assert(0 <= db * db <= (255 * UNIT) * (255 * UNIT)) by (nonlinear_arith)
        requires -(255 * UNIT) <= db <= 255 * UNIT;
    let d = isqrt((dr * dr + dg * dg + db * db) as u64);
    assert(d <= 1_000_000_000) by (nonlinear_arith)
        requires d * d <= 3 * (255 * UNIT) * (255 * UNIT);
    Some(1_000_000 - d as i64)
}

fn skin_at(p: RGBA, opt: &SmartCropOption) -> (v: u8)
    requires
        opt.valid(),
    ensures
        v == skin_value(p, *opt),
{
    let l = p.lightness_unit() as i64;
    match skin_color(&p, opt) {
        Some(s) => {
            if s > opt.skin_threshold as i64 && opt.skin_brightness_min <= l && l <= opt.skin_brightness_max {
                scaled_above(s as u64, opt.skin_threshold)
            } else {
                0
            }
        },
        None => 0,
    }
}

fn saturation_at(p: RGBA, opt: &SmartCropOption) -> (v: u8)
    requires
        opt.valid(),
    ensures
        v == saturation_value(p, *opt),
{
    let s = p.saturation();
    let l = p.lightness_unit() as i64;
    if s > opt.saturation_threshold && opt.saturation_brightness_min <= l
        && l <= opt.saturation_brightness_max {
        scaled_above(s, opt.saturation_threshold)
    } else {
        0
    }
}

/// Writes the edge response into the CH channel of `output`, leaving its other channels as they were.
pub fn edge_detect(input: &Image, output: &mut Image)
    requires
        input.wf(),
        old(output).wf(),
        old(output).width == input.width,
        old(output).height == input.height,
    ensures
        final(output).wf(),
        final(output).width == input.width,
        final(output).height == input.height,
        forall|x: int, y: int| 0 <= x < input.width && 0 <= y < input.height ==> #[trigger] final(output).at(x, y)
            == (RGBA { g: edge_value(input.data@, input.width as int, input.height as int, x, y), ..old(output).at(x, y) }),
{
    let w = input.width;
    let h = input.height;
    let ghost before = *output;
    let mut y: u32 = 0;
    while y < h
        invariant
            y <= h,
            w == input.width,
            h == input.height,
            input.wf(),
            output.wf(),
            output.width == w,
            output.height == h,
            before.wf(),
            before.width == w,
            before.height == h,
            forall|a: int, b: int| 0 <= a < w && 0 <= b < h && b >= y ==> #[trigger] output.at(a, b)
                == before.at(a, b),
            forall|a: int, b: int| 0 <= a < w && 0 <= b < y ==> #[trigger] output.at(a, b)
                == (RGBA { g: edge_value(input.data@, w as int, h as int, a, b), ..before.at(a, b) }),
        decreases h - y,
    {
        let mut x: u32 = 0;
        while x < w
            invariant
                x <= w,
                y < h,
                w == input.width,
                h == input.height,
                input.wf(),
                output.wf(),
                output.width == w,
                output.height == h,
                before.wf(),
                before.width == w,
                before.height == h,
                forall|a: int, b: int| 0 <= a < w && 0 <= b < h && (b > y || (b == y && a >= x))
                    ==> #[trigger] output.at(a, b) == before.at(a, b),
                forall|a: int, b: int| 0 <= a < w && 0 <= b < h && (b < y || (b == y && a < x))
                    ==> #[trigger] output.at(a, b) == (RGBA { g: edge_value(input.data@, w as int, h as int, a, b), ..before.at(a, b) }),
            decreases w - x,
        {
            let v = edge_at(input, x, y);
            let current = output.get_rgba(x, y);
            output.set_rgba(x, y, RGBA { g: v, ..current });
            x = x + 1;
        }
        y = y + 1;
    }
}

/// Writes the skin response into the CH channel of `output`, leaving its other channels as they were.
pub fn skin_detect(input: &Image, output: &mut Image, opt: &SmartCropOption)
    requires
        input.wf(),
        old(output).wf(),
        old(output).width == input.width,
        old(output).height == input.height,
        opt.valid(),
    ensures
        final(output).wf(),
        final(output).width == input.width,
        final(output).height == input.height,
        forall|x: int, y: int| 0 <= x < input.width && 0 <= y < input.height ==> #[trigger] final(output).at(x, y)
            == (RGBA { r: skin_value(input.at(x, y), *opt), ..old(output).at(x, y) }),
{
    let w = input.width;
    let h = input.height;
    let ghost before = *output;
    let mut y: u32 = 0;
    while y < h
        invariant
            y <= h,
            w == input.width,
            h == input.height,
            input.wf(),
            opt.valid(),
            output.wf(),
            output.width == w,
            output.height == h,
            before.wf(),
            before.width == w,
            before.height == h,
            forall|a: int, b: int| 0 <= a < w && 0 <= b < h && b >= y ==> #[trigger] output.at(a, b)
                == before.at(a, b),
            forall|a: int, b: int| 0 <= a < w && 0 <= b < y ==> #[trigger] output.at(a, b)
                == (RGBA { r: skin_value(pixel_at(input.data@, w as int, a, b), *opt), ..before.at(a, b) }),
        decreases h - y,
    {
        let mut x: u32 = 0;
        while x < w
            invariant
                x <= w,
                y < h,
                w == input.width,
                h == input.height,
                input.wf(),
                opt.valid(),
                output.wf(),
                output.width == w,
                output.height == h,
                before.wf(),
                before.width == w,
                before.height == h,
                forall|a: int, b: int| 0 <= a < w && 0 <= b < h && (b > y || (b == y && a >= x))
                    ==> #[trigger] output.at(a, b) == before.at(a, b),
                forall|a: int, b: int| 0 <= a < w && 0 <= b < h && (b < y || (b == y && a < x))
                    ==> #[trigger] output.at(a, b) == (RGBA { r: skin_value(pixel_at(input.data@, w as int, a, b), *opt), ..before.at(a, b) }),
            decreases w - x,
        {
            let v = skin_at(input.get_rgba(x, y), opt);
            let current = output.get_rgba(x, y);
            output.set_rgba(x, y, RGBA { r: v, ..current });
            x = x + 1;
        }
        y = y + 1;
    }
}

/// Writes the saturation response into the CH channel of `output`, leaving its other channels as they were.
pub fn saturation_detect(input: &Image, output: &mut Image, opt: &SmartCropOption)
    requires
        input.wf(),
        old(output).wf(),
        old(output).width == input.width,
        old(output).height == input.height,
        opt.valid(),
    ensures
        final(output).wf(),
        final(output).width == input.width,
        final(output).height == input.height,
        forall|x: int, y: int| 0 <= x < input.width && 0 <= y < input.height ==> #[trigger] final(output).at(x, y)
            == (RGBA { b: saturation_value(input.at(x, y), *opt), ..old(output).at(x, y) }),
{
    let w = input.width;
    let h = input.height;
    let ghost before = *output;
    let mut y: u32 = 0;
    while y < h
        invariant
            y <= h,
            w == input.width,
            h == input.height,
            input.wf(),
            opt.valid(),
            output.wf(),
            output.width == w,
            output.height == h,
            before.wf(),
            before.width == w,
            before.height == h,
            forall|a: int, b: int| 0 <= a < w && 0 <= b < h && b >= y ==> #[trigger] output.at(a, b)
                == before.at(a, b),
            forall|a: int, b: int| 0 <= a < w && 0 <= b < y ==> #[trigger] output.at(a, b)
                == (RGBA { b: saturation_value(pixel_at(input.data@, w as int, a, b), *opt), ..before.at(a, b) }),
        decreases h - y,
    {
        let mut x: u32 = 0;
        while x < w
            invariant
                x <= w,
                y < h,
                w == input.width,
                h == input.height,
                input.wf(),
                opt.valid(),
                output.wf(),
                output.width == w,
                output.height == h,
                before.wf(),
                before.width == w,
                before.height == h,
                forall|a: int, b: int| 0 <= a < w && 0 <= b < h && (b > y || (b == y && a >= x))
                    ==> #[trigger] output.at(a, b) == before.at(a, b),
                forall|a: int, b: int| 0 <= a < w && 0 <= b < h && (b < y || (b == y && a < x))
                    ==> #[trigger] output.at(a, b) == (RGBA { b: saturation_value(pixel_at(input.data@, w as int, a, b), *opt), ..before.at(a, b) }),
            decreases w - x,
        {
            let v = saturation_at(input.get_rgba(x, y), opt);
            let current = output.get_rgba(x, y);
            output.set_rgba(x, y, RGBA { b: v, ..current });
            x = x + 1;
        }
        y = y + 1;
    }
}

} // verus!
