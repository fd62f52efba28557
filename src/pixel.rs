use vstd::prelude::*;

verus! {

/// Fixed-point unit: a fraction `v` is held as the integer `v * UNIT`.
pub const UNIT: u64 = 1_000_000;

/// One RGBA8 pixel.
#[derive(Clone, Copy, Debug, PartialEq, Eq, Structural)]
pub struct RGBA {
    pub r: u8,
    pub g: u8,
    pub b: u8,
    pub a: u8,
}

/// Lightness in units of 1/10000: `0.0722 r + 0.7152 g + 0.5126 b`.
pub open spec fn lightness(p: RGBA) -> int {
    722 * p.r + 7152 * p.g + 5126 * p.b
}

/// Lightness normalised to `[0, 1.3]`, in fixed-point units (lightness / 255).
pub open spec fn lightness_unit(p: RGBA) -> int {
    lightness(p) * 100 / 255
}

pub open spec fn max3(a: int, b: int, c: int) -> int {
    if a >= b && a >= c { a } else if b >= c { b } else { c }
}

pub open spec fn min3(a: int, b: int, c: int) -> int {
    if a <= b && a <= c { a } else if b <= c { b } else { c }
}

/// HSL saturation in fixed-point units; a grey pixel has saturation 0.
pub open spec fn saturation_unit(p: RGBA) -> int {
    let hi = max3(p.r as int, p.g as int, p.b as int);
    let lo = min3(p.r as int, p.g as int, p.b as int);
    if hi == lo {
        0
    } else if hi + lo > 255 {
        (hi - lo) * UNIT / (510 - hi - lo)
    } else {
        (hi - lo) * UNIT / (hi + lo)
    }
}

/// The largest `r <= k` with `r * r <= n`.
pub open spec fn sqrt_below(n: int, k: int) -> int
    decreases k,
{
    if k <= 0 {
        0
    } else if k * k <= n {
        k
    } else {
        sqrt_below(n, k - 1)
    }
}

/// Integer square root, rounded down.
pub open spec fn sqrt_floor(n: int) -> int {
    sqrt_below(n, n)
}

proof fn lemma_sqrt_below(n: int, k: int, r: int)
    requires
        0 <= r <= k,
        r * r <= n < (r + 1) * (r + 1),
    ensures
        sqrt_below(n, k) == r,
    decreases k,
{
    if k > r {
        assert(k * k >= (r + 1) * (r + 1)) by (nonlinear_arith)
            requires k >= r + 1, r >= 0;
        lemma_sqrt_below(n, k - 1, r);
    }
}

/// `sqrt_floor(n)` is the unique `r >= 0` with `r * r <= n < (r + 1) * (r + 1)`.
pub proof fn lemma_sqrt_floor_unique(n: int, r: int)
    requires
        0 <= r,
        r * r <= n < (r + 1) * (r + 1),
    ensures
        sqrt_floor(n) == r,
{
    assert(r <= n) by (nonlinear_arith)
        requires r >= 0, r * r <= n;
    lemma_sqrt_below(n, n, r);
}

/// Integer square root, rounded down.
pub fn isqrt(n: u64) -> (r: u64)
    ensures
        r * r <= n < (r + 1) * (r + 1),
        r == sqrt_floor(n as int),
{
    let mut lo: u64 = 0;
    let mut hi: u64 = 4294967296;
    assert(n < hi * hi) by (nonlinear_arith)
        requires n <= 0xffff_ffff_ffff_ffffu64, hi == 4294967296;
    while hi - lo > 1
        invariant
            lo < hi <= 4294967296,
            lo * lo <= n < hi * hi,
        decreases hi - lo,
    {
        let mid: u64 = lo + (hi - lo) / 2;
        assert(mid * mid <= 4294967295 * 4294967295) by (nonlinear_arith)
            requires mid < 4294967296;
        if mid * mid <= n {
            lo = mid;
        } else {
            hi = mid;
        }
    }
    proof {
        lemma_sqrt_floor_unique(n as int, lo as int);
    }
    lo
}

impl RGBA {
    pub fn new(r: u8, g: u8, b: u8, a: u8) -> (p: RGBA)
        ensures
            p == (RGBA { r, g, b, a }),
    {
        RGBA { r, g, b, a }
    }

    /// Lightness in units of 1/10000.
    pub fn cie(self) -> (l: u32)
        ensures
            l == lightness(self),
            l <= 13000 * 255,
    {
        722 * self.r as u32 + 7152 * self.g as u32 + 5126 * self.b as u32
    }

    /// Lightness normalised by 255, in fixed-point units.
    pub fn lightness_unit(self) -> (l: u64)
        ensures
            l == lightness_unit(self),
            l <= 13000 * 100,
    {
        self.cie() as u64 * 100 / 255
    }

    /// HSL saturation in fixed-point units, in `[0, UNIT]`.
    pub fn saturation(self) -> (s: u64)
        ensures
            s == saturation_unit(self),
            s <= UNIT,
    {
        let r = self.r as u64;
        let g = self.g as u64;
        let b = self.b as u64;
        let hi: u64 = if r >= g && r >= b { r } else if g >= b { g } else { b };
        let lo: u64 = if r <= g && r <= b { r } else if g <= b { g } else { b };
        if hi == lo {
            return 0;
        }
        let den: u64 = if hi + lo > 255 { 510 - hi - lo } else { hi + lo };
        assert((hi - lo) * UNIT <= den * UNIT) by (nonlinear_arith)
            requires hi - lo <= den;
        proof {
            let q: int = ((hi - lo) * UNIT) as int;
            assert(q / (den as int) <= UNIT as int) by (nonlinear_arith)
                requires q <= (den as int) * (UNIT as int), den > 0;
        }
        (hi - lo) * UNIT / den
    }
}

} // verus!
