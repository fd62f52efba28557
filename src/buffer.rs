use vstd::prelude::*;
use crate::pixel::{RGBA, lightness};

verus! {

/// An owned row-major grid of RGBA8 pixels.
pub struct Image {
    pub width: u32,
    pub height: u32,
    pub data: Vec<RGBA>,
}

/// The pixel at `(x, y)` of a row-major grid `width` pixels wide.
pub open spec fn pixel_at(px: Seq<RGBA>, width: int, x: int, y: int) -> RGBA {
    px[y * width + x]
}

/// Index arithmetic of a row-major grid: `(x, y)` lies inside it.
pub proof fn lemma_index_in_grid(w: int, h: int, x: int, y: int)
    requires
        0 <= x < w,
        0 <= y < h,
    ensures
        0 <= y * w + x < w * h,
{
    assert(y * w + x < w * h) by (nonlinear_arith)
        requires 0 <= x < w, 0 <= y < h;
    assert(0 <= y * w) by (nonlinear_arith)
        requires 0 <= y, 0 <= w;
}

/// Distinct coordinates of a grid hold distinct indices.
pub proof fn lemma_index_distinct(w: int, x1: int, y1: int, x2: int, y2: int)
    requires
        0 <= x1 < w,
        0 <= x2 < w,
        0 <= y1,
        0 <= y2,
        x1 != x2 || y1 != y2,
    ensures
        y1 * w + x1 != y2 * w + x2,
{
    if y1 == y2 {
    } else if y1 < y2 {
        assert(y1 * w + x1 < y2 * w + x2) by (nonlinear_arith)
            requires y1 < y2, 0 <= x1 < w, 0 <= x2;
    } else {
        assert(y2 * w + x2 < y1 * w + x1) by (nonlinear_arith)
            requires y2 < y1, 0 <= x2 < w, 0 <= x1;
    }
}

impl Image {
    /// The buffer holds exactly `width * height` pixels.
    pub open spec fn wf(&self) -> bool {
        self.data@.len() == self.width as int * self.height as int
    }

    pub open spec fn at(&self, x: int, y: int) -> RGBA {
        pixel_at(self.data@, self.width as int, x, y)
    }

    /// A `width` by `height` buffer of transparent black pixels.
    pub fn new(width: u32, height: u32) -> (img: Image)
        requires
            width as int * height as int <= usize::MAX,
        ensures
            img.wf(),
            img.width == width,
            img.height == height,
            forall|i: int| 0 <= i < img.data@.len() ==> img.data@[i] == (RGBA { r: 0, g: 0, b: 0, a: 0 }),
    {
        let n: usize = width as usize * height as usize;
        let mut data: Vec<RGBA> = Vec::with_capacity(n);
        let mut i: usize = 0;
        while i < n
            invariant
                i <= n,
                data@.len() == i,
                forall|j: int| 0 <= j < i ==> data@[j] == (RGBA { r: 0, g: 0, b: 0, a: 0 }),
            decreases n - i,
        {
            data.push(RGBA::new(0, 0, 0, 0));
            i = i + 1;
        }
        Image { width, height, data }
    }

    /// A buffer read from raw RGBA8 bytes, four per pixel in row-major order;
    /// `None` when the byte count is not `4 * width * height`.
    pub fn from_rgba8(width: u32, height: u32, bytes: &[u8]) -> (r: Option<Image>)
        ensures
            r.is_none() <==> bytes@.len() != 4 * width as int * height as int,
            r matches Some(img) ==> img.wf() && img.width == width && img.height == height
                && forall|i: int| 0 <= i < img.data@.len() ==> img.data@[i] == (RGBA {
                    r: bytes@[4 * i],
                    g: bytes@[4 * i + 1],
                    b: bytes@[4 * i + 2],
                    a: bytes@[4 * i + 3],
                }),
    {
        assert(width as int * height as int <= 0xffff_ffff * 0xffff_ffff) by (nonlinear_arith)
            requires width <= 0xffff_ffffu32, height <= 0xffff_ffffu32;
        let n: u64 = width as u64 * height as u64;
        let blen: usize = bytes.len();
        assert(4 * width as int * height as int == 4 * (n as int)) by (nonlinear_arith)
            requires n == width as int * height as int;
        if n > (usize::MAX / 4) as u64 || blen != 4 * n as usize {
            return None;
        }
        let n: usize = n as usize;
        let mut data: Vec<RGBA> = Vec::with_capacity(n);
        let mut i: usize = 0;
        while i < n
            invariant
                i <= n,
                n == width as int * height as int,
                bytes@.len() == 4 * n,
                4 * n <= usize::MAX,
                data@.len() == i,
                forall|j: int| 0 <= j < i ==> data@[j] == (RGBA {
                    r: bytes@[4 * j],
                    g: bytes@[4 * j + 1],
                    b: bytes@[4 * j + 2],
                    a: bytes@[4 * j + 3],
                }),
            decreases n - i,
        {
            data.push(RGBA::new(bytes[4 * i], bytes[4 * i + 1], bytes[4 * i + 2], bytes[4 * i + 3]));
            i = i + 1;
        }
        Some(Image { width, height, data })
    }

    /// The pixels as raw RGBA8 bytes, four per pixel in row-major order.
    pub fn to_rgba8(&self) -> (bytes: Vec<u8>)
        requires
            4 * self.data@.len() <= usize::MAX,
        ensures
            bytes@.len() == 4 * self.data@.len(),
            forall|i: int| 0 <= i < self.data@.len() ==> {
                &&& bytes@[4 * i] == self.data@[i].r
                &&& bytes@[4 * i + 1] == self.data@[i].g
                &&& bytes@[4 * i + 2] == self.data@[i].b
                &&& bytes@[4 * i + 3] == self.data@[i].a
            },
    {
        let mut bytes: Vec<u8> = Vec::with_capacity(4 * self.data.len());
        let mut i: usize = 0;
        while i < self.data.len()
            invariant
                i <= self.data@.len(),
                4 * self.data@.len() <= usize::MAX,
                bytes@.len() == 4 * i,
                forall|j: int| 0 <= j < i ==> {
                    &&& bytes@[4 * j] == self.data@[j].r
                    &&& bytes@[4 * j + 1] == self.data@[j].g
                    &&& bytes@[4 * j + 2] == self.data@[j].b
                    &&& bytes@[4 * j + 3] == self.data@[j].a
                },
            decreases self.data@.len() - i,
        {
            let p = self.data[i];
            bytes.push(p.r);
            bytes.push(p.g);
            bytes.push(p.b);
            bytes.push(p.a);
            i = i + 1;
        }
        bytes
    }

    /// The pixel at `(x, y)`.
    pub fn get_rgba(&self, x: u32, y: u32) -> (p: RGBA)
        requires
            self.wf(),
            x < self.width,
            y < self.height,
        ensures
            p == self.at(x as int, y as int),
    {
        let n: usize = self.data.len();
        proof {
            lemma_index_in_grid(self.width as int, self.height as int, x as int, y as int);
        }
        self.data[y as usize * self.width as usize + x as usize]
    }

    /// Lightness of the pixel at `(x, y)`, in units of 1/10000.
    pub fn cie(&self, x: u32, y: u32) -> (l: u32)
        requires
            self.wf(),
            x < self.width,
            y < self.height,
        ensures
            l == lightness(self.at(x as int, y as int)),
    {
        self.get_rgba(x, y).cie()
    }

    /// Replaces the pixel at `(x, y)`, leaving every other pixel as it was.
    pub fn set_rgba(&mut self, x: u32, y: u32, p: RGBA)
        requires
            old(self).wf(),
            x < old(self).width,
            y < old(self).height,
        ensures
            final(self).wf(),
            final(self).width == old(self).width,
            final(self).height == old(self).height,
            final(self).at(x as int, y as int) == p,
            forall|u: int, v: int|
                0 <= u < old(self).width && 0 <= v < old(self).height && (u != x || v != y)
                    ==> #[trigger] final(self).at(u, v) == old(self).at(u, v),
    {
        let n: usize = self.data.len();
        proof {
            lemma_index_in_grid(self.width as int, self.height as int, x as int, y as int);
        }
        let i: usize = y as usize * self.width as usize + x as usize;
        self.data.set(i, p);
        proof {
            assert forall|u: int, v: int|
                0 <= u < old(self).width && 0 <= v < old(self).height && (u != x || v != y)
                    implies #[trigger] self.at(u, v) == old(self).at(u, v) by {
                lemma_index_in_grid(self.width as int, self.height as int, u, v);
                lemma_index_distinct(self.width as int, u, v, x as int, y as int);
            }
        }
    }
}

} // verus!
