use smartcrop::analysis::analyse;
use smartcrop::crops::generate_crops;
use smartcrop::features::{edge_detect, saturation_detect, skin_color, skin_detect};
use smartcrop::pixel::isqrt;
use smartcrop::scoring::{get_score, importance, thirds};
use smartcrop::{crop, open, Crop, Image, SmartCropOption, RGBA};

fn solid(w: u32, h: u32, p: RGBA) -> Image {
    let mut bytes = Vec::new();
    for _ in 0..(w * h) {
        bytes.extend_from_slice(&[p.r, p.g, p.b, p.a]);
    }
    Image::from_rgba8(w, h, &bytes).unwrap()
}

fn paint(img: &mut Image, x0: u32, y0: u32, x1: u32, y1: u32, p: RGBA) {
    for y in y0..y1 {
        for x in x0..x1 {
            img.set_rgba(x, y, p);
        }
    }
}

const SKIN: RGBA = RGBA { r: 199, g: 145, b: 112, a: 255 };

#[test]
fn rgba_new_keeps_channels() {
    let p = RGBA::new(1, 2, 3, 4);
    assert_eq!((p.r, p.g, p.b, p.a), (1, 2, 3, 4));
}

#[test]
fn crop_new_keeps_fields() {
    let c = Crop::new(1, 2, 3, 4);
    assert_eq!(c, Crop { x: 1, y: 2, width: 3, height: 4 });
}

#[test]
fn default_options() {
    let o = SmartCropOption::new(3, 2);
    assert_eq!((o.width, o.height), (3, 2));
    assert_eq!(o.skin_threshold, 800_000);
    assert_eq!(o.edge_weight, -20_000_000);
    assert_eq!(o.score_down_sample, 8);
    assert!(o.rule_of_thirds && o.prescale);
}

#[test]
fn lightness_and_saturation() {
    assert_eq!(RGBA::new(255, 255, 255, 0).cie(), 13000 * 255);
    assert_eq!(RGBA::new(10, 0, 0, 0).cie(), 7220);
    assert_eq!(RGBA::new(128, 128, 128, 0).saturation(), 0);
    assert_eq!(RGBA::new(255, 0, 0, 0).saturation(), 1_000_000);
    // hi 200, lo 100: hi + lo > 255, so d / (510 - hi - lo) = 100 / 210
    assert_eq!(RGBA::new(200, 100, 150, 0).saturation(), 476_190);
}

#[test]
fn integer_square_root() {
    assert_eq!(isqrt(0), 0);
    assert_eq!(isqrt(15), 3);
    assert_eq!(isqrt(16), 4);
    assert_eq!(isqrt(u64::MAX), 4_294_967_295);
}

#[test]
fn thirds_peaks_at_one_third() {
    assert_eq!(thirds(333_333), 1_000_000);
    assert_eq!(thirds(0), 0);
    assert_eq!(thirds(1_000_000), 0);
    // 64 * (0.4 - 1/3)^2 = 0.284...
    assert_eq!(thirds(400_000), 715_553);
}

#[test]
fn importance_outside_is_constant() {
    let o = SmartCropOption::new(1, 1);
    let c = Crop::new(10, 10, 20, 20);
    assert_eq!(importance(&c, 5, 15, &o), -500_000);
    assert_eq!(importance(&c, 30, 15, &o), -500_000);
}

#[test]
fn importance_centre_without_thirds() {
    let mut o = SmartCropOption::new(1, 1);
    o.rule_of_thirds = false;
    let c = Crop::new(0, 0, 20, 20);
    // centre: px = py = 0, no edge falloff, 1.41 - 0
    assert_eq!(importance(&c, 10, 10, &o), 1_410_000);
}

#[test]
fn importance_half_turn_symmetry() {
    let o = SmartCropOption::new(1, 1);
    let c = Crop::new(4, 6, 20, 30);
    for (x, y) in [(5u32, 7u32), (9, 20), (17, 33), (23, 35)] {
        let x2 = 2 * c.x + c.width - x;
        let y2 = 2 * c.y + c.height - y;
        assert_eq!(importance(&c, x, y, &o), importance(&c, x2, y2, &o));
    }
}

#[test]
fn downsample_uniform_keeps_colour() {
    let p = RGBA::new(10, 20, 30, 40);
    let img = solid(17, 9, p);
    for f in [1u32, 2, 3, 4] {
        let d = img.down_sample(f);
        assert_eq!((d.width, d.height), (17 / f, 9 / f));
        for y in 0..d.height {
            for x in 0..d.width {
                assert_eq!(d.get_rgba(x, y), p);
            }
        }
    }
}

#[test]
fn downsample_blends_mean_and_max() {
    let mut img = solid(2, 2, RGBA::new(0, 0, 0, 0));
    img.set_rgba(1, 1, RGBA::new(200, 0, 8, 4));
    img.set_rgba(0, 0, RGBA::new(0, 100, 0, 0));
    let d = img.down_sample(2);
    // red: (200 / 4) * 0.5 + 200 * 0.5 = 125; green: 25 * 0.7 + 100 * 0.3 = 47.5
    assert_eq!(d.get_rgba(0, 0), RGBA::new(125, 47, 2, 1));
}

#[test]
fn edge_detect_laplacian_and_border() {
    let mut input = solid(3, 3, RGBA::new(0, 0, 0, 255));
    input.set_rgba(1, 1, RGBA::new(255, 255, 255, 255));
    input.set_rgba(0, 0, RGBA::new(0, 10, 0, 255));
    let mut out = Image::new(3, 3);
    out.set_rgba(2, 2, RGBA::new(1, 2, 3, 4));
    edge_detect(&input, &mut out);
    assert_eq!(out.get_rgba(1, 1), RGBA::new(0, 255, 0, 0));
    // border: lightness 7152 * 10 / 10000 = 7
    assert_eq!(out.get_rgba(0, 0), RGBA::new(0, 7, 0, 0));
    assert_eq!(out.get_rgba(2, 2), RGBA::new(1, 0, 3, 4));
}

#[test]
fn saturation_detect_marks_saturated_pixels() {
    let o = SmartCropOption::new(1, 1);
    let mut input = solid(2, 1, RGBA::new(255, 0, 0, 255));
    input.set_rgba(1, 0, RGBA::new(90, 90, 90, 255));
    let mut out = Image::new(2, 1);
    saturation_detect(&input, &mut out, &o);
    assert_eq!(out.get_rgba(0, 0).b, 255);
    assert_eq!(out.get_rgba(1, 0).b, 0);
}

#[test]
fn skin_detect_marks_skin_tones() {
    let o = SmartCropOption::new(1, 1);
    let mut input = solid(3, 1, SKIN);
    input.set_rgba(1, 0, RGBA::new(0, 0, 0, 255));
    input.set_rgba(2, 0, RGBA::new(0, 0, 255, 255));
    let mut out = Image::new(3, 1);
    skin_detect(&input, &mut out, &o);
    assert!(out.get_rgba(0, 0).r > 100);
    assert_eq!(out.get_rgba(1, 0).r, 0);
    assert_eq!(out.get_rgba(2, 0).r, 0);
}

#[test]
fn candidates_in_generation_order() {
    let mut o = SmartCropOption::new(1, 1);
    o.crop_width = 8;
    o.crop_height = 8;
    let img = solid(16, 16, RGBA::new(0, 0, 0, 0));
    let crops = generate_crops(&img, &o);
    assert_eq!(
        crops,
        vec![Crop::new(0, 0, 8, 8), Crop::new(8, 0, 8, 8), Crop::new(0, 8, 8, 8), Crop::new(8, 8, 8, 8)]
    );
}

#[test]
fn candidates_default_to_shorter_side() {
    let o = SmartCropOption::new(1, 1);
    let img = solid(20, 12, RGBA::new(0, 0, 0, 0));
    let crops = generate_crops(&img, &o);
    assert_eq!(crops, vec![Crop::new(0, 0, 12, 12), Crop::new(8, 0, 12, 12)]);
}

#[test]
fn score_of_empty_feature_map_is_zero() {
    let o = SmartCropOption::new(1, 1);
    let map = Image::new(4, 4);
    let s = get_score(&Crop::new(0, 0, 16, 16), &map, &o);
    assert_eq!((s.detail, s.skin, s.saturation, s.boost, s.total), (0, 0, 0, 0, 0));
}

#[test]
fn score_counts_skin_inside() {
    let o = SmartCropOption::new(1, 1);
    let mut map = Image::new(4, 4);
    map.set_rgba(1, 1, RGBA::new(255, 0, 0, 0));
    let inside = get_score(&Crop::new(0, 0, 32, 32), &map, &o);
    let outside = get_score(&Crop::new(16, 16, 16, 16), &map, &o);
    assert!(inside.skin > 0);
    assert!(outside.skin < 0);
    assert!(inside.total > outside.total);
}

#[test]
fn analyse_without_candidates() {
    let mut o = SmartCropOption::new(1, 1);
    o.crop_width = 50;
    o.crop_height = 50;
    let img = solid(10, 10, RGBA::new(0, 0, 0, 255));
    assert!(analyse(&img, &o).is_none());
}

#[test]
fn open_gray_square_gives_whole_frame() {
    let img = solid(100, 100, RGBA::new(128, 128, 128, 255));
    let c = open(img, SmartCropOption::new(1, 1));
    assert_eq!(c, Crop::new(0, 0, 100, 100));
}

#[test]
fn open_empty_target_gives_whole_frame() {
    let img = solid(30, 20, RGBA::new(128, 128, 128, 255));
    assert_eq!(open(img, SmartCropOption::new(0, 5)), Crop::new(0, 0, 30, 20));
}

#[test]
fn open_follows_skin_region() {
    let mut img = solid(128, 64, RGBA::new(0, 0, 0, 255));
    paint(&mut img, 88, 16, 120, 48, SKIN);
    let c = open(img, SmartCropOption::new(1, 1));
    assert_eq!((c.width, c.height), (64, 64));
    assert!(c.x >= 48, "{:?}", c);
    assert!(c.x + c.width <= 128);
}

#[test]
fn open_reduces_large_images() {
    let mut img = solid(512, 256, RGBA::new(0, 0, 0, 255));
    paint(&mut img, 352, 64, 480, 192, SKIN);
    let c = open(img, SmartCropOption::new(1, 1));
    assert_eq!((c.width, c.height), (256, 256));
    assert!(c.x >= 128, "{:?}", c);
    assert!(c.x + c.width <= 512);
}

#[test]
fn open_without_reduction_same_choice() {
    let mut img = solid(512, 256, RGBA::new(0, 0, 0, 255));
    paint(&mut img, 352, 64, 480, 192, SKIN);
    let mut o = SmartCropOption::new(1, 1);
    o.prescale = false;
    let c = open(img, o);
    assert_eq!((c.width, c.height), (256, 256));
    assert!(c.x >= 128, "{:?}", c);
}

#[test]
fn open_wide_target() {
    let img = solid(100, 100, RGBA::new(128, 128, 128, 255));
    let c = open(img, SmartCropOption::new(2, 1));
    assert_eq!((c.width, c.height), (100, 50));
    assert!(c.y + c.height <= 100);
}

#[test]
fn crop_rejects_undecodable_bytes() {
    assert_eq!(crop(&[1, 2, 3, 4, 5], 1, 1), Vec::<u32>::new());
}

#[test]
fn crop_decodes_png() {
    let buf = image::RgbaImage::from_pixel(40, 20, image::Rgba([128, 128, 128, 255]));
    let mut bytes: Vec<u8> = Vec::new();
    image::DynamicImage::ImageRgba8(buf)
        .write_to(&mut bytes, image::ImageOutputFormat::Png)
        .unwrap();
    let r = crop(&bytes, 1, 1);
    assert_eq!(r.len(), 4);
    assert_eq!((r[2], r[3]), (20, 20));
    assert!(r[0] + r[2] <= 40 && r[1] + r[3] <= 20);
}

#[test]
fn skin_likelihood_of_colours() {
    let o = SmartCropOption::new(1, 1);
    assert_eq!(skin_color(&RGBA::new(0, 0, 0, 255), &o), None);
    let s = skin_color(&SKIN, &o).unwrap();
    assert!(s > 900_000 && s <= 1_000_000, "{}", s);
    assert!(skin_color(&RGBA::new(0, 0, 255, 255), &o).unwrap() < 0);
}

#[test]
fn image_lightness_at() {
    let mut img = Image::new(2, 2);
    img.set_rgba(1, 0, RGBA::new(10, 20, 30, 0));
    assert_eq!(img.cie(1, 0), 722 * 10 + 7152 * 20 + 5126 * 30);
    assert_eq!(img.cie(0, 1), 0);
}

#[test]
fn raw_bytes_round_trip() {
    let bytes: Vec<u8> = (0..24).collect();
    let img = Image::from_rgba8(3, 2, &bytes).unwrap();
    assert_eq!(img.get_rgba(1, 1), RGBA::new(16, 17, 18, 19));
    assert_eq!(img.to_rgba8(), bytes);
    assert!(Image::from_rgba8(3, 3, &bytes).is_none());
}
