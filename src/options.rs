use vstd::prelude::*;
use crate::pixel::UNIT;

verus! {

/// Largest magnitude accepted for a weight, bias or bound (in fixed-point units).
pub const WEIGHT_BOUND: i64 = 1_000_000_000;

/// Largest accepted crop scale (in fixed-point units).
pub const SCALE_BOUND: u64 = 100_000_000;

/// Settings of one analysis. Fractions are fixed-point values in units of `1 / UNIT`.
#[derive(Clone, Copy, Debug)]
pub struct SmartCropOption {
    /// Target aspect width.
    pub width: u32,
    /// Target aspect height.
    pub height: u32,
    /// Base candidate width; 0 means the image's shorter side.
    pub crop_width: u32,
    /// Base candidate height; 0 means the image's shorter side.
    pub crop_height: u32,
    pub detail_weight: i64,
    /// Reference skin colour as a unit vector (red, green, blue).
    pub skin_color: (u64, u64, u64),
    pub skin_bias: i64,
    pub skin_threshold: u64,
    pub skin_weight: i64,
    pub skin_brightness_min: i64,
    pub skin_brightness_max: i64,
    pub saturation_brightness_min: i64,
    pub saturation_brightness_max: i64,
    pub saturation_threshold: u64,
    pub saturation_bias: i64,
    pub saturation_weight: i64,
    /// Factor by which the feature map is reduced before scoring.
    pub score_down_sample: u32,
    /// Grid step of candidate positions, in pixels.
    pub step: u32,
    pub scale_step: u64,
    pub max_scale: u64,
    pub min_scale: u64,
    pub edge_radius: u64,
    pub edge_weight: i64,
    /// Importance of points outside a candidate (negative by default).
    pub outside_importance: i64,
    pub rule_of_thirds: bool,
    /// Reduce large images before the analysis.
    pub prescale: bool,
}

pub open spec fn bounded(v: i64) -> bool {
    -WEIGHT_BOUND <= v <= WEIGHT_BOUND
}

/// The default settings for a target aspect of `width` by `height`.
pub open spec fn default_options(width: u32, height: u32) -> SmartCropOption {
    SmartCropOption {
        width,
        height,
        crop_width: 0,
        crop_height: 0,
        detail_weight: 200_000,
        skin_color: (780_000, 570_000, 440_000),
        skin_bias: 10_000,
        skin_threshold: 800_000,
        skin_weight: 1_800_000,
        skin_brightness_min: 200_000,
        skin_brightness_max: 1_000_000,
        saturation_brightness_min: 50_000,
        saturation_brightness_max: 900_000,
        saturation_threshold: 400_000,
        saturation_bias: 200_000,
        saturation_weight: 100_000,
        score_down_sample: 8,
        step: 8,
        scale_step: 100_000,
        max_scale: 1_000_000,
        min_scale: 1_000_000,
        edge_radius: 400_000,
        edge_weight: -20_000_000i64,
        outside_importance: -500_000i64,
        rule_of_thirds: true,
        prescale: true,
    }
}

impl SmartCropOption {
    /// The ranges within which the analysis is defined.
    pub open spec fn valid(&self) -> bool {
        &&& self.skin_color.0 <= UNIT
        &&& self.skin_color.1 <= UNIT
        &&& self.skin_color.2 <= UNIT
        &&& self.skin_threshold < UNIT
        &&& self.saturation_threshold < UNIT
        &&& bounded(self.detail_weight)
        &&& bounded(self.skin_bias)
        &&& bounded(self.skin_weight)
        &&& bounded(self.skin_brightness_min)
        &&& bounded(self.skin_brightness_max)
        &&& bounded(self.saturation_brightness_min)
        &&& bounded(self.saturation_brightness_max)
        &&& bounded(self.saturation_bias)
        &&& bounded(self.saturation_weight)
        &&& bounded(self.edge_weight)
        &&& bounded(self.outside_importance)
        &&& self.edge_radius <= UNIT
        &&& self.score_down_sample >= 1
        &&& self.step >= 1
        &&& self.scale_step >= 1
        &&& 1 <= self.min_scale <= self.max_scale <= SCALE_BOUND
    }

    /// The default settings for a target aspect of `width` by `height`.
    pub fn new(width: u32, height: u32) -> (opt: SmartCropOption)
        ensures
            opt.valid(),
            opt == default_options(width, height),
    {
        SmartCropOption {
            width,
            height,
            crop_width: 0,
            crop_height: 0,
            detail_weight: 200_000,
            skin_color: (780_000, 570_000, 440_000),
            skin_bias: 10_000,
            skin_threshold: 800_000,
            skin_weight: 1_800_000,
            skin_brightness_min: 200_000,
            skin_brightness_max: 1_000_000,
            saturation_brightness_min: 50_000,
            saturation_brightness_max: 900_000,
            saturation_threshold: 400_000,
            saturation_bias: 200_000,
            saturation_weight: 100_000,
            score_down_sample: 8,
            step: 8,
            scale_step: 100_000,
            max_scale: 1_000_000,
            min_scale: 1_000_000,
            edge_radius: 400_000,
            edge_weight: -20_000_000,
            outside_importance: -500_000,
            rule_of_thirds: true,
            prescale: true,
        }
    }
}

} // verus!
