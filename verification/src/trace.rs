//! The settings with which a raster image is traced into vector paths: the
//! presets, what the quality asked for adds to them, and what is done to the
//! image before and to the paths after tracing.

use crate::ai::ChannelOrder;
use crate::fixed::Fixed;
use vstd::prelude::*;

verus! {

/// The presets for the kinds of image that are traced.
#[derive(Clone, Copy, Debug, PartialEq, Eq, Structural)]
pub enum PresetChoice {
    /// Drawings and line art: strong noise removal, smooth curves.
    Illustration,
    /// Photographs and the like: more colours, edges kept.
    Natural,
    /// As many colour steps and edges as can be kept.
    HighPrecision,
}

/// The quality asked for.
#[derive(Clone, Copy, Debug, PartialEq, Eq, Structural)]
pub enum PrecisionChoice {
    Illustration,
    Natural,
    HighPrecision,
}

/// The order of channels as it is chosen on the command line.
#[derive(Clone, Copy, Debug, PartialEq, Eq, Structural)]
pub enum ChannelOrderChoice {
    Rgb,
    Bgr,
}

/// The settings of the tracer.
#[derive(Clone, Copy, Debug, PartialEq, Eq, Structural)]
pub struct TraceSettings {
    pub color_precision: i32,
    pub layer_difference: i32,
    pub filter_speckle: usize,
    pub corner_threshold: i32,
    pub length_threshold: Fixed,
    pub splice_threshold: i32,
    pub max_iterations: usize,
    pub path_precision: Option<u32>,
}

/// What is done to the image before it is traced.
#[derive(Clone, Copy, Debug, PartialEq, Eq, Structural)]
pub struct PreprocessSettings {
    pub denoise_radius: Option<Fixed>,
    pub unsharp_sigma: Option<Fixed>,
    pub unsharp_threshold: Option<i32>,
    pub enhance_contrast: Option<Fixed>,
}

/// How the paths are smoothed after tracing.
#[derive(Clone, Copy, Debug, PartialEq, Eq, Structural)]
pub struct SmoothingSettings {
    pub enabled: bool,
    pub corner_threshold: Fixed,
    pub outset_ratio: Fixed,
    pub segment_length: Fixed,
}

/// An unsharp mask: how wide it blurs, and from which difference on it acts.
#[derive(Clone, Copy, Debug, PartialEq, Eq, Structural)]
pub struct Unsharp {
    pub sigma: Fixed,
    pub threshold: i32,
}

/// The filters that are run on the image, in their order: a blur, an
/// unsharp mask, a change of contrast.
#[derive(Clone, Copy, Debug, PartialEq, Eq, Structural)]
pub struct FilterPlan {
    pub blur: Option<Fixed>,
    pub unsharpen: Option<Unsharp>,
    pub contrast: Option<Fixed>,
}

/// The settings of a preset.
pub open spec fn preset_settings(preset: PresetChoice) -> TraceSettings {
    match preset {
        PresetChoice::Illustration => TraceSettings {
            color_precision: 6,
            layer_difference: 12,
            filter_speckle: 4,
            corner_threshold: 85,
            length_threshold: Fixed { raw: 2_200_000 },
            splice_threshold: 40,
            max_iterations: 12,
            path_precision: Some(3u32),
        },
        PresetChoice::Natural => TraceSettings {
            color_precision: 7,
            layer_difference: 16,
            filter_speckle: 3,
            corner_threshold: 95,
            length_threshold: Fixed { raw: 3_000_000 },
            splice_threshold: 45,
            max_iterations: 12,
            path_precision: Some(3u32),
        },
        PresetChoice::HighPrecision => TraceSettings {
            color_precision: 8,
            layer_difference: 10,
            filter_speckle: 2,
            corner_threshold: 120,
            length_threshold: Fixed { raw: 1_800_000 },
            splice_threshold: 35,
            max_iterations: 16,
            path_precision: Some(4u32),
        },
    }
}

/// Sets the tracer up for a preset.
pub fn apply_preset(settings: &mut TraceSettings, preset: &PresetChoice)
    ensures
        *final(settings) == preset_settings(*preset),
{
    match preset {
        PresetChoice::Illustration => {
            settings.color_precision = 6;
            settings.layer_difference = 12;
            settings.filter_speckle = 4;
            settings.corner_threshold = 85;
            settings.length_threshold = Fixed::from_raw(2_200_000);
            settings.splice_threshold = 40;
            settings.max_iterations = 12;
            settings.path_precision = Some(3);
        },
        PresetChoice::Natural => {
            settings.color_precision = 7;
            settings.layer_difference = 16;
            settings.filter_speckle = 3;
            settings.corner_threshold = 95;
            settings.length_threshold = Fixed::from_raw(3_000_000);
            settings.splice_threshold = 45;
            settings.max_iterations = 12;
            settings.path_precision = Some(3);
        },
        PresetChoice::HighPrecision => {
            settings.color_precision = 8;
            settings.layer_difference = 10;
            settings.filter_speckle = 2;
            settings.corner_threshold = 120;
            settings.length_threshold = Fixed::from_raw(1_800_000);
            settings.splice_threshold = 35;
            settings.max_iterations = 16;
            settings.path_precision = Some(4);
        },
    }
}

/// The settings as high precision wants them: at least eight bits of colour,
/// at least four digits in the paths, and segments a fifth shorter, but not
/// shorter than half a pixel.
pub open spec fn sharpened(settings: TraceSettings) -> TraceSettings {
    TraceSettings {
        color_precision: if settings.color_precision < 8 {
            8
        } else {
            settings.color_precision
        },
        path_precision: match settings.path_precision {
            Some(p) => Some(
                if p < 4 {
                    4u32
                } else {
                    p
                },
            ),
            None => Some(4u32),
        },
        length_threshold: settings.length_threshold.times(Fixed { raw: 800_000 }).max(
            Fixed { raw: 500_000 },
        ),
        ..settings
    }
}

/// Raises the settings to what the quality asks for. Only high precision
/// asks for anything.
pub fn apply_quality(settings: &mut TraceSettings, quality: &PrecisionChoice)
    ensures
        *quality == PrecisionChoice::HighPrecision ==> *final(settings) == sharpened(*old(settings)),
        *quality != PrecisionChoice::HighPrecision ==> *final(settings) == *old(settings),
{
    match quality {
        PrecisionChoice::HighPrecision => {
            if settings.color_precision < 8 {
                settings.color_precision = 8;
            }
            settings.path_precision =
            match settings.path_precision {
                Some(p) => Some(
                    if p < 4 {
                        4
                    } else {
                        p
                    },
                ),
                None => Some(4),
            };
            settings.length_threshold =
            settings.length_threshold.times(Fixed::from_raw(800_000)).max(Fixed::from_raw(500_000));
        },
        _ => {},
    }
}

/// The bits of colour precision that a palette of that size takes: the
/// least number of bits that tells its colours apart, but at least one and
/// at most eight.
pub open spec fn palette_bits(palette_size: usize) -> i32 {
    if palette_size <= 2 {
        1
    } else if palette_size <= 4 {
        2
    } else if palette_size <= 8 {
        3
    } else if palette_size <= 16 {
        4
    } else if palette_size <= 32 {
        5
    } else if palette_size <= 64 {
        6
    } else if palette_size <= 128 {
        7
    } else {
        8
    }
}

/// Turns the size of a palette into bits of colour precision. An empty
/// palette leaves the precision at `fallback`.
pub fn palette_size_to_bits(palette_size: usize, fallback: i32) -> (bits: i32)
    ensures
        palette_size == 0 ==> bits == fallback,
        palette_size > 0 ==> bits == palette_bits(palette_size),
        palette_size > 0 ==> 1 <= bits <= 8,
{
    if palette_size == 0 {
        return fallback;
    }
    let mut bits: i32 = 1;
    let mut reach: usize = 2;
    while bits < 8 && reach < palette_size
        invariant
            1 <= bits <= 8,
            bits == 1 ==> reach == 2,
            bits == 2 ==> reach == 4,
            bits == 3 ==> reach == 8,
            bits == 4 ==> reach == 16,
            bits == 5 ==> reach == 32,
            bits == 6 ==> reach == 64,
            bits == 7 ==> reach == 128,
            bits == 8 ==> reach == 256,
            bits > 1 ==> palette_size > reach / 2,
        decreases 8 - bits,
    {
        bits += 1;
        reach = reach * 2;
    }
    bits
}

/// What the command line asks for in place of the settings of the preset.
#[derive(Clone, Copy, Debug, PartialEq, Eq, Structural)]
pub struct TraceOverrides {
    /// The number of colours of the palette.
    pub colors: Option<usize>,
    pub color_precision: Option<i32>,
    pub layer_difference: Option<i32>,
    pub filter_speckle: Option<usize>,
    pub corner_threshold: Option<Fixed>,
    pub length_threshold: Option<Fixed>,
    pub max_iterations: Option<usize>,
    pub splice_threshold: Option<Fixed>,
    pub path_precision: Option<Fixed>,
}

/// A whole number moved into the range of `i32`.
pub open spec fn to_i32(n: int) -> i32 {
    if n < i32::MIN {
        i32::MIN
    } else if n > i32::MAX {
        i32::MAX
    } else {
        n as i32
    }
}

/// A whole number moved into the range of `u32`.
pub open spec fn to_u32(n: int) -> u32 {
    if n < 0 {
        0
    } else if n > u32::MAX {
        u32::MAX
    } else {
        n as u32
    }
}

/// The settings with what is asked for in their place: a palette size gives
/// the colour precision, unless the precision itself is asked for, which is
/// kept between one and eight; the layer difference is not negative; the
/// thresholds for corners and splicing and the path precision are rounded
/// to whole numbers.
pub open spec fn overridden(settings: TraceSettings, asked: TraceOverrides) -> TraceSettings {
    let from_palette = match asked.colors {
        Some(colors) => if colors == 0 {
            settings.color_precision
        } else {
            palette_bits(colors)
        },
        None => settings.color_precision,
    };
    TraceSettings {
        color_precision: match asked.color_precision {
            Some(bits) => if bits < 1 {
                1
            } else if bits > 8 {
                8
            } else {
                bits
            },
            None => from_palette,
        },
        layer_difference: match asked.layer_difference {
            Some(d) => if d < 0 {
                0
            } else {
                d
            },
            None => settings.layer_difference,
        },
        filter_speckle: match asked.filter_speckle {
            Some(v) => v,
            None => settings.filter_speckle,
        },
        corner_threshold: match asked.corner_threshold {
            Some(v) => to_i32(v.spec_round()),
            None => settings.corner_threshold,
        },
        length_threshold: match asked.length_threshold {
            Some(v) => v,
            None => settings.length_threshold,
        },
        max_iterations: match asked.max_iterations {
            Some(v) => v,
            None => settings.max_iterations,
        },
        splice_threshold: match asked.splice_threshold {
            Some(v) => to_i32(v.spec_round()),
            None => settings.splice_threshold,
        },
        path_precision: match asked.path_precision {
            Some(v) => Some(to_u32(v.spec_round())),
            None => settings.path_precision,
        },
    }
}

fn clamp_to_i32(n: i64) -> (r: i32)
    ensures
        r == to_i32(n as int),
{
    if n < i32::MIN as i64 {
        i32::MIN
    } else if n > i32::MAX as i64 {
        i32::MAX
    } else {
        n as i32
    }
}

fn clamp_to_u32(n: i64) -> (r: u32)
    ensures
        r == to_u32(n as int),
{
    if n < 0 {
        0
    } else if n > u32::MAX as i64 {
        u32::MAX
    } else {
        n as u32
    }
}

/// Puts what the command line asks for in the place of the settings.
pub fn apply_overrides(settings: &mut TraceSettings, asked: &TraceOverrides)
    ensures
        *final(settings) == overridden(*old(settings), *asked),
{
    if let Some(colors) = asked.colors {
        settings.color_precision = palette_size_to_bits(colors, settings.color_precision);
    }
    if let Some(bits) = asked.color_precision {
        settings.color_precision =
        if bits < 1 {
            1
        } else if bits > 8 {
            8
        } else {
            bits
        };
    }
    if let Some(difference) = asked.layer_difference {
        settings.layer_difference =
        if difference < 0 {
            0
        } else {
            difference
        };
    }
    if let Some(speckle) = asked.filter_speckle {
        settings.filter_speckle = speckle;
    }
    if let Some(threshold) = asked.corner_threshold {
        settings.corner_threshold = clamp_to_i32(threshold.round());
    }
    if let Some(threshold) = asked.length_threshold {
        settings.length_threshold = threshold;
    }
    if let Some(iterations) = asked.max_iterations {
        settings.max_iterations = iterations;
    }
    if let Some(threshold) = asked.splice_threshold {
        settings.splice_threshold = clamp_to_i32(threshold.round());
    }
    if let Some(precision) = asked.path_precision {
        settings.path_precision = Some(clamp_to_u32(precision.round()));
    }
}

/// What is done to the image before tracing where nothing else is asked
/// for, by the quality asked for.
pub open spec fn default_preprocess(quality: PrecisionChoice) -> PreprocessSettings {
    match quality {
        PrecisionChoice::Illustration => PreprocessSettings {
            denoise_radius: Some(Fixed { raw: 800_000 }),
            unsharp_sigma: Some(Fixed { raw: 1_000_000 }),
            unsharp_threshold: Some(2i32),
            enhance_contrast: Some(Fixed { raw: 3_000_000 }),
        },
        PrecisionChoice::Natural => PreprocessSettings {
            denoise_radius: Some(Fixed { raw: 500_000 }),
            unsharp_sigma: Some(Fixed { raw: 800_000 }),
            unsharp_threshold: Some(1i32),
            enhance_contrast: Some(Fixed { raw: 2_000_000 }),
        },
        PrecisionChoice::HighPrecision => PreprocessSettings {
            denoise_radius: Some(Fixed { raw: 1_000_000 }),
            unsharp_sigma: Some(Fixed { raw: 1_200_000 }),
            unsharp_threshold: Some(2i32),
            enhance_contrast: Some(Fixed { raw: 4_000_000 }),
        },
    }
}

/// Settles what is done to the image before tracing: what is asked for, and
/// the defaults of the quality for the rest.
pub fn resolve_preprocess_settings(quality: &PrecisionChoice, asked: &PreprocessSettings) -> (r:
    PreprocessSettings)
    ensures
        r.denoise_radius == if asked.denoise_radius is Some {
            asked.denoise_radius
        } else {
            default_preprocess(*quality).denoise_radius
        },
        r.unsharp_sigma == if asked.unsharp_sigma is Some {
            asked.unsharp_sigma
        } else {
            default_preprocess(*quality).unsharp_sigma
        },
        r.unsharp_threshold == if asked.unsharp_threshold is Some {
            asked.unsharp_threshold
        } else {
            default_preprocess(*quality).unsharp_threshold
        },
        r.enhance_contrast == if asked.enhance_contrast is Some {
            asked.enhance_contrast
        } else {
            default_preprocess(*quality).enhance_contrast
        },
{
    let defaults = match quality {
        PrecisionChoice::Illustration => PreprocessSettings {
            denoise_radius: Some(Fixed::from_raw(800_000)),
            unsharp_sigma: Some(Fixed::from_raw(1_000_000)),
            unsharp_threshold: Some(2),
            enhance_contrast: Some(Fixed::from_raw(3_000_000)),
        },
        PrecisionChoice::Natural => PreprocessSettings {
            denoise_radius: Some(Fixed::from_raw(500_000)),
            unsharp_sigma: Some(Fixed::from_raw(800_000)),
            unsharp_threshold: Some(1),
            enhance_contrast: Some(Fixed::from_raw(2_000_000)),
        },
        PrecisionChoice::HighPrecision => PreprocessSettings {
            denoise_radius: Some(Fixed::from_raw(1_000_000)),
            unsharp_sigma: Some(Fixed::from_raw(1_200_000)),
            unsharp_threshold: Some(2),
            enhance_contrast: Some(Fixed::from_raw(4_000_000)),
        },
    };
    PreprocessSettings {
        denoise_radius: match asked.denoise_radius {
            Some(v) => Some(v),
            None => defaults.denoise_radius,
        },
        unsharp_sigma: match asked.unsharp_sigma {
            Some(v) => Some(v),
            None => defaults.unsharp_sigma,
        },
        unsharp_threshold: match asked.unsharp_threshold {
            Some(v) => Some(v),
            None => defaults.unsharp_threshold,
        },
        enhance_contrast: match asked.enhance_contrast {
            Some(v) => Some(v),
            None => defaults.enhance_contrast,
        },
    }
}

/// How the paths are smoothed where nothing else is asked for, by the
/// quality asked for.
pub open spec fn default_smoothing(quality: PrecisionChoice) -> SmoothingSettings {
    match quality {
        PrecisionChoice::Illustration => SmoothingSettings {
            enabled: true,
            corner_threshold: Fixed { raw: 100_000_000 },
            outset_ratio: Fixed { raw: 200_000 },
            segment_length: Fixed { raw: 6_000_000 },
        },
        PrecisionChoice::Natural => SmoothingSettings {
            enabled: true,
            corner_threshold: Fixed { raw: 95_000_000 },
            outset_ratio: Fixed { raw: 180_000 },
            segment_length: Fixed { raw: 7_000_000 },
        },
        PrecisionChoice::HighPrecision => SmoothingSettings {
            enabled: true,
            corner_threshold: Fixed { raw: 110_000_000 },
            outset_ratio: Fixed { raw: 160_000 },
            segment_length: Fixed { raw: 5_500_000 },
        },
    }
}

/// Settles how the paths are smoothed: what is asked for, and the defaults
/// of the quality for the rest.
pub fn resolve_smoothing_settings(
    quality: &PrecisionChoice,
    smooth_paths: Option<bool>,
    corner_threshold: Option<Fixed>,
    outset_ratio: Option<Fixed>,
    segment_length: Option<Fixed>,
) -> (r: SmoothingSettings)
    ensures
        r.enabled == match smooth_paths {
            Some(v) => v,
            None => default_smoothing(*quality).enabled,
        },
        r.corner_threshold == match corner_threshold {
            Some(v) => v,
            None => default_smoothing(*quality).corner_threshold,
        },
        r.outset_ratio == match outset_ratio {
            Some(v) => v,
            None => default_smoothing(*quality).outset_ratio,
        },
        r.segment_length == match segment_length {
            Some(v) => v,
            None => default_smoothing(*quality).segment_length,
        },
{
    let defaults = match quality {
        PrecisionChoice::Illustration => SmoothingSettings {
            enabled: true,
            corner_threshold: Fixed::from_raw(100_000_000),
            outset_ratio: Fixed::from_raw(200_000),
            segment_length: Fixed::from_raw(6_000_000),
        },
        PrecisionChoice::Natural => SmoothingSettings {
            enabled: true,
            corner_threshold: Fixed::from_raw(95_000_000),
            outset_ratio: Fixed::from_raw(180_000),
            segment_length: Fixed::from_raw(7_000_000),
        },
        PrecisionChoice::HighPrecision => SmoothingSettings {
            enabled: true,
            corner_threshold: Fixed::from_raw(110_000_000),
            outset_ratio: Fixed::from_raw(160_000),
            segment_length: Fixed::from_raw(5_500_000),
        },
    };
    SmoothingSettings {
        enabled: match smooth_paths {
            Some(v) => v,
            None => defaults.enabled,
        },
        corner_threshold: match corner_threshold {
            Some(v) => v,
            None => defaults.corner_threshold,
        },
        outset_ratio: match outset_ratio {
            Some(v) => v,
            None => defaults.outset_ratio,
        },
        segment_length: match segment_length {
            Some(v) => v,
            None => defaults.segment_length,
        },
    }
}

/// The filters that the settings call for: a blur of a positive radius, an
/// unsharp mask of a positive sigma where its threshold is not negative, and
/// a change of contrast that is not zero.
pub open spec fn filters_for(settings: PreprocessSettings) -> FilterPlan {
    FilterPlan {
        blur: match settings.denoise_radius {
            Some(radius) => if radius.raw > 0 {
                Some(radius)
            } else {
                None
            },
            None => None,
        },
        unsharpen: match (settings.unsharp_sigma, settings.unsharp_threshold) {
            (Some(sigma), Some(threshold)) => if sigma.raw > 0 && threshold >= 0 {
                Some(Unsharp { sigma, threshold })
            } else {
                None
            },
            _ => None,
        },
        contrast: match settings.enhance_contrast {
            Some(contrast) => if contrast.raw != 0 {
                Some(contrast)
            } else {
                None
            },
            None => None,
        },
    }
}

/// Decides which filters are run on the image before it is traced.
pub fn plan_pre_filters(settings: &PreprocessSettings) -> (plan: FilterPlan)
    ensures
        plan == filters_for(*settings),
{
    let blur = match settings.denoise_radius {
        Some(radius) => if radius.raw > 0 {
            Some(radius)
        } else {
            None
        },
        None => None,
    };
    let unsharpen = match settings.unsharp_sigma {
        Some(sigma) => match settings.unsharp_threshold {
            Some(threshold) => if sigma.raw > 0 && threshold >= 0 {
                Some(Unsharp { sigma, threshold })
            } else {
                None
            },
            None => None,
        },
        None => None,
    };
    let contrast = match settings.enhance_contrast {
        Some(contrast) => if contrast.raw != 0 {
            Some(contrast)
        } else {
            None
        },
        None => None,
    };
    FilterPlan { blur, unsharpen, contrast }
}

/// Tells whether a path is smoothed: the corner threshold and the segment
/// length must both be positive.
pub fn smooths_path(settings: &SmoothingSettings) -> (r: bool)
    ensures
        r == (settings.enabled && settings.corner_threshold.raw > 0 && settings.segment_length.raw
            > 0),
{
    settings.enabled && settings.corner_threshold.raw > 0 && settings.segment_length.raw > 0
}

/// Tells whether an image is too large and has to be resized: a limit of
/// zero means that there is none.
pub fn exceeds_dimension(width: u32, height: u32, max_dimension: u32) -> (r: bool)
    ensures
        r == (max_dimension != 0 && (width > max_dimension || height > max_dimension)),
{
    let longest = if width > height {
        width
    } else {
        height
    };
    max_dimension != 0 && longest > max_dimension
}

/// Turns the choice of the command line into the order of channels.
pub fn channel_order_choice_to_channel_order(choice: &ChannelOrderChoice) -> (order: ChannelOrder)
    ensures
        order == match *choice {
            ChannelOrderChoice::Rgb => ChannelOrder::Rgb,
            ChannelOrderChoice::Bgr => ChannelOrder::Bgr,
        },
{
    match choice {
        ChannelOrderChoice::Rgb => ChannelOrder::Rgb,
        ChannelOrderChoice::Bgr => ChannelOrder::Bgr,
    }
}

} // verus!
