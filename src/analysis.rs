use vstd::prelude::*;
use crate::buffer::Image;
use crate::crops::{candidates, candidates_in_bounds, generate_crops, in_bounds};
use crate::downsample::down_pixel;
use crate::features::{edge_detect, feature_pixel, saturation_detect, skin_detect};
use crate::options::SmartCropOption;
use crate::pixel::RGBA;
use crate::scoring::{Crop, Score, get_score, score_total, PIXEL_BOUND};

verus! {

/// A candidate with its score.
#[derive(Clone, Copy, Debug)]
pub struct ScoredCrop {
    pub crop: Crop,
    pub score: Score,
}

/// The feature map of a `w` by `h` grid, row-major.
pub open spec fn feature_seq(px: Seq<RGBA>, w: int, h: int, opt: SmartCropOption) -> Seq<RGBA> {
    Seq::new((w * h) as nat, |i: int| feature_pixel(px, w, h, opt, i % w, i / w))
}

/// A `w` by `h` grid reduced by `f`, row-major.
pub open spec fn down_seq(px: Seq<RGBA>, w: int, h: int, f: int) -> Seq<RGBA> {
    Seq::new(((w / f) * (h / f)) as nat, |i: int| down_pixel(px, w, f, i % (w / f), i / (w / f)))
}

/// Score total of candidate `c` for a `w` by `h` image.
pub open spec fn crop_total(c: Crop, px: Seq<RGBA>, w: int, h: int, opt: SmartCropOption) -> int {
    let f = opt.score_down_sample as int;
    score_total(c, down_seq(feature_seq(px, w, h, opt), w, h, f), w / f, h / f, f, opt)
}

/// Candidate `k` has the largest total, and every later one a smaller total: the last of the
/// best.
pub open spec fn is_last_best(cands: Seq<Crop>, px: Seq<RGBA>, w: int, h: int, opt: SmartCropOption, k: int) -> bool {
    &&& 0 <= k < cands.len()
    &&& forall|j: int| 0 <= j < cands.len() ==> crop_total(#[trigger] cands[j], px, w, h, opt) <= crop_total(cands[k], px, w, h, opt)
    &&& forall|j: int| k < j < cands.len() ==> crop_total(#[trigger] cands[j], px, w, h, opt) < crop_total(cands[k], px, w, h, opt)
}

/// At most one candidate is the last of the best, so the analysis of one image under one
/// configuration always picks the same rectangle.
pub proof fn last_best_unique(cands: Seq<Crop>, px: Seq<RGBA>, w: int, h: int, opt: SmartCropOption, k1: int, k2: int)
    requires
        is_last_best(cands, px, w, h, opt, k1),
        is_last_best(cands, px, w, h, opt, k2),
    ensures
        k1 == k2,
{
    if k1 < k2 {
        assert(crop_total(cands[k2], px, w, h, opt) < crop_total(cands[k1], px, w, h, opt));
        assert(crop_total(cands[k1], px, w, h, opt) <= crop_total(cands[k2], px, w, h, opt));
    } else if k2 < k1 {
        assert(crop_total(cands[k1], px, w, h, opt) < crop_total(cands[k2], px, w, h, opt));
        assert(crop_total(cands[k2], px, w, h, opt) <= crop_total(cands[k1], px, w, h, opt));
    }
}

proof fn lemma_grid_index(i: int, w: int, h: int)
    requires
        0 <= i < w * h,
        w > 0,
    ensures
        0 <= i % w < w,
        0 <= i / w < h,
        (i / w) * w + i % w == i,
{
    vstd::arithmetic::div_mod::lemma_fundamental_div_mod(i, w);
    assert(0 <= i % w < w) by {
        vstd::arithmetic::div_mod::lemma_mod_bound(i, w);
    }
    assert(i / w < h) by (nonlinear_arith)
        requires 0 <= i < w * h, w > 0, i == w * (i / w) + i % w, 0 <= i % w;
    assert(0 <= i / w) by (nonlinear_arith)
        requires 0 <= i, w > 0, i == w * (i / w) + i % w, i % w < w;
    assert((i / w) * w == w * (i / w)) by (nonlinear_arith);
}

/// The best candidate for `input`: the one with the largest score total, the last one
/// generated among equals; `None` when there is no candidate.
pub fn analyse(input: &Image, opt: &SmartCropOption) -> (r: Option<ScoredCrop>)
    requires
        input.wf(),
        opt.valid(),
        input.width * input.height <= PIXEL_BOUND,
    ensures
        r.is_none() <==> candidates(input.width as int, input.height as int, *opt).len() == 0,
        r matches Some(sc) ==> exists|k: int| #[trigger] is_last_best(
            candidates(input.width as int, input.height as int, *opt),
            input.data@,
            input.width as int,
            input.height as int,
            *opt,
            k,
        ) && sc.crop == candidates(input.width as int, input.height as int, *opt)[k]
            && sc.score.total == crop_total(sc.crop, input.data@, input.width as int, input.height as int, *opt),
{
    let w = input.width;
    let h = input.height;
    let ghost (px, wi, hi, o) = (input.data@, w as int, h as int, *opt);
    let n: usize = input.data.len();
    let mut output = Image::new(w, h);
    let ghost blank = output;
    edge_detect(input, &mut output);
    skin_detect(input, &mut output, opt);
    saturation_detect(input, &mut output, opt);
    let ghost feat = feature_seq(px, wi, hi, o);
    proof {
        assert forall|i: int| 0 <= i < output.data@.len() implies output.data@[i] == feat[i] by {
            lemma_grid_index(i, wi, hi);
            let (x, y) = (i % wi, i / wi);
            assert(output.at(x, y) == feature_pixel(px, wi, hi, o, x, y));
        }
        assert(output.data@ =~= feat);
    }
    let f = opt.score_down_sample;
    let down = output.down_sample(f);
    let ghost ds = down_seq(feat, wi, hi, f as int);
    proof {
        assert(down.width * f <= w) by (nonlinear_arith)
            requires down.width == w / f, f >= 1;
        assert(down.height * f <= h) by (nonlinear_arith)
            requires down.height == h / f, f >= 1;
        assert(down.width * down.height <= w * h) by (nonlinear_arith)
            requires down.width * f <= w, down.height * f <= h, f >= 1;
        if down.width > 0 {
            assert forall|i: int| 0 <= i < down.data@.len() implies down.data@[i] == ds[i] by {
                lemma_grid_index(i, down.width as int, down.height as int);
                let (x, y) = (i % (down.width as int), i / (down.width as int));
                assert(down.at(x, y) == down_pixel(feat, wi, f as int, x, y));
            }
        }
        assert(down.data@ =~= ds);
    }
    let crops = generate_crops(input, opt);
    let ghost cands = crops@;
    proof {
        candidates_in_bounds(wi, hi, o);
    }
    let mut best: Option<ScoredCrop> = None;
    let ghost mut best_k: int = 0;
    let mut i: usize = 0;
    while i < crops.len()
        invariant
            i <= crops.len(),
            wi == w,
            hi == h,
            cands == crops@,
            cands == candidates(wi, hi, o),
            forall|j: int| 0 <= j < cands.len() ==> in_bounds(#[trigger] cands[j], wi, hi),
            o == *opt,
            opt.valid(),
            f == opt.score_down_sample,
            down.wf(),
            down.data@ == ds,
            ds == down_seq(feat, wi, hi, f as int),
            feat == feature_seq(px, wi, hi, o),
            down.width == w / f,
            down.height == h / f,
            down.width * f <= w,
            down.height * f <= h,
            down.width * down.height <= PIXEL_BOUND,
            i == 0 <==> best.is_none(),
            best matches Some(b) ==> {
                &&& 0 <= best_k < i
                &&& b.crop == cands[best_k]
                &&& b.score.total == crop_total(cands[best_k], px, wi, hi, o)
                &&& forall|j: int| 0 <= j < i ==> crop_total(#[trigger] cands[j], px, wi, hi, o) <= b.score.total
                &&& forall|j: int| best_k < j < i ==> crop_total(#[trigger] cands[j], px, wi, hi, o) < b.score.total
            },
        decreases crops.len() - i,
    {
        let c = crops[i];
        proof {
            assert(in_bounds(cands[i as int], wi, hi));
        }
        let score = get_score(&c, &down, opt);
        let sc = ScoredCrop { crop: c, score };
        assert(c == cands[i as int]);
        assert(down.width as int == wi / (f as int));
        assert(down.height as int == hi / (f as int));
        assert(down.data@ == down_seq(feature_seq(px, wi, hi, o), wi, hi, f as int));
        assert(score.total == score_total(c, down.data@, down.width as int, down.height as int, f as int, o));
        assert(score.total == crop_total(cands[i as int], px, wi, hi, o));
        let ghost prev = best;
        match best {
            None => {
                best = Some(sc);
                proof { best_k = i as int; }
            },
            Some(b) => {
                if !(b.score.total > sc.score.total) {
                    best = Some(sc);
                    proof { best_k = i as int; }
                }
            },
        }
        i = i + 1;
    }
    proof {
        assert(i == cands.len());
        if let Some(b) = best {
            assert(is_last_best(cands, px, wi, hi, o, best_k));
        }
    }
    best
}

} // verus!
