//! Explicit processing choices over configured ones.

use crate::crop::{crop_components, crop_rect, parse_crop_components, rect_of, CropParseError};
use crate::image::{Rect, Rotate};
use crate::processing::{copy_opt, copy_points, opt_points, opt_text, PipelinePrefs, Prefs, Real};
use crate::text::{chars_of, lower_all, lower_chars, same_text, text_of, trim, trimmed};
use vstd::prelude::*;

verus! {

/// Explicit choices of geometry.
#[derive(Debug)]
pub struct GeometryOverrides {
    pub rotate: Option<i32>,
    pub flip_h: Option<bool>,
    pub flip_v: Option<bool>,
    pub crop: Option<String>,
    pub auto_deskew: Option<bool>,
    pub deskew: Option<Real>,
}

/// Explicit choices of color.
#[derive(Debug)]
pub struct ColorOverrides {
    pub brightness: Option<i32>,
    pub contrast: Option<i32>,
    pub saturation: Option<Real>,
    pub hue: Option<Real>,
    pub curves: Option<Vec<[i32; 2]>>,
    pub desaturate: Option<bool>,
    pub levels_black: Option<i32>,
    pub levels_white: Option<i32>,
    pub levels_gamma: Option<Real>,
    pub white_balance: Option<bool>,
    pub auto_levels: Option<bool>,
}

/// Explicit choices of filters.
#[derive(Debug)]
pub struct FilterOverrides {
    pub infrared_clean: Option<String>,
    pub descreen: Option<bool>,
    pub descreen_dpi: Option<i32>,
    pub sharpen: Option<Real>,
    pub film_type: Option<String>,
    pub restore_colors: Option<bool>,
    pub restore_fading: Option<bool>,
    pub grain_reduction: Option<String>,
    pub flatten: Option<bool>,
    pub hole_punch: Option<bool>,
    pub colorize_mode: Option<String>,
}

/// Explicit processing choices.
#[derive(Debug)]
pub struct PipelineOverrides {
    pub geometry: GeometryOverrides,
    pub color: ColorOverrides,
    pub filters: FilterOverrides,
}

impl Default for GeometryOverrides {
    fn default() -> (r: Self)
        ensures
            r == (GeometryOverrides {
                rotate: None,
                flip_h: None,
                flip_v: None,
                crop: None,
                auto_deskew: None,
                deskew: None,
            }),
    {
        GeometryOverrides {
            rotate: None,
            flip_h: None,
            flip_v: None,
            crop: None,
            auto_deskew: None,
            deskew: None,
        }
    }
}

impl Default for ColorOverrides {
    fn default() -> (r: Self)
        ensures
            r == (ColorOverrides {
                brightness: None,
                contrast: None,
                saturation: None,
                hue: None,
                curves: None,
                desaturate: None,
                levels_black: None,
                levels_white: None,
                levels_gamma: None,
                white_balance: None,
                auto_levels: None,
            }),
    {
        ColorOverrides {
            brightness: None,
            contrast: None,
            saturation: None,
            hue: None,
            curves: None,
            desaturate: None,
            levels_black: None,
            levels_white: None,
            levels_gamma: None,
            white_balance: None,
            auto_levels: None,
        }
    }
}

impl Default for FilterOverrides {
    fn default() -> (r: Self)
        ensures
            r == (FilterOverrides {
                infrared_clean: None,
                descreen: None,
                descreen_dpi: None,
                sharpen: None,
                film_type: None,
                restore_colors: None,
                restore_fading: None,
                grain_reduction: None,
                flatten: None,
                hole_punch: None,
                colorize_mode: None,
            }),
    {
        FilterOverrides {
            infrared_clean: None,
            descreen: None,
            descreen_dpi: None,
            sharpen: None,
            film_type: None,
            restore_colors: None,
            restore_fading: None,
            grain_reduction: None,
            flatten: None,
            hole_punch: None,
            colorize_mode: None,
        }
    }
}

impl Default for PipelineOverrides {
    fn default() -> (r: Self)
        ensures
            no_overrides(r),
    {
        PipelineOverrides {
            geometry: GeometryOverrides::default(),
            color: ColorOverrides::default(),
            filters: FilterOverrides::default(),
        }
    }
}

/// Whether nothing is chosen explicitly.
pub open spec fn no_overrides(overrides: PipelineOverrides) -> bool {
    &&& overrides.geometry == (GeometryOverrides {
        rotate: None,
        flip_h: None,
        flip_v: None,
        crop: None,
        auto_deskew: None,
        deskew: None,
    })
    &&& overrides.color == (ColorOverrides {
        brightness: None,
        contrast: None,
        saturation: None,
        hue: None,
        curves: None,
        desaturate: None,
        levels_black: None,
        levels_white: None,
        levels_gamma: None,
        white_balance: None,
        auto_levels: None,
    })
    &&& overrides.filters == (FilterOverrides {
        infrared_clean: None,
        descreen: None,
        descreen_dpi: None,
        sharpen: None,
        film_type: None,
        restore_colors: None,
        restore_fading: None,
        grain_reduction: None,
        flatten: None,
        hole_punch: None,
        colorize_mode: None,
    })
}

// ---------------------------------------------------------------------------
// Single choices
// ---------------------------------------------------------------------------

/// The explicit value where there is one, the configured value otherwise.
pub open spec fn chosen<T>(configured: T, explicit: Option<T>) -> T {
    match explicit {
        Some(value) => value,
        None => configured,
    }
}

/// The explicit value of a switch where there is one, to true or to false.
pub fn apply_explicit_bool(configured: bool, explicit: Option<bool>) -> (r: bool)
    ensures
        r == chosen(configured, explicit),
{
    match explicit {
        Some(value) => value,
        None => configured,
    }
}

fn number(configured: i32, explicit: Option<i32>) -> (r: i32)
    ensures
        r == chosen(configured, explicit),
{
    match explicit {
        Some(value) => value,
        None => configured,
    }
}

fn amount(configured: Real, explicit: Option<Real>) -> (r: Real)
    ensures
        r == chosen(configured, explicit),
{
    match explicit {
        Some(value) => value,
        None => configured,
    }
}

/// Whether a word switches a filter off.
pub open spec fn is_off(word: Seq<char>) -> bool {
    let lowered = lower_all(word);
    lowered == "off"@ || lowered == "none"@
}

/// Whether a word switches a filter with strengths off.
pub open spec fn is_disabled(word: Seq<char>) -> bool {
    is_off(word) || lower_all(word) == "false"@
}

/// A filter with strengths: an empty word leaves it, `off`, `none` and `false` switch it off, and
/// any other word is its strength.
#[verifier::opaque]
pub open spec fn tier(configured: Option<Seq<char>>, explicit: Option<Seq<char>>) -> Option<
    Seq<char>,
> {
    match explicit {
        None => configured,
        Some(value) => {
            let word = trim(value);
            if word.len() == 0 {
                configured
            } else if is_disabled(word) {
                None
            } else {
                Some(word)
            }
        },
    }
}

/// A named choice: an empty word leaves it, `off` and `none` drop it, and any other word is it.
#[verifier::opaque]
pub open spec fn option_value(configured: Option<Seq<char>>, explicit: Option<Seq<char>>) -> Option<
    Seq<char>,
> {
    match explicit {
        None => configured,
        Some(value) => {
            let word = trim(value);
            if is_off(word) {
                None
            } else if word.len() == 0 {
                configured
            } else {
                Some(word)
            }
        },
    }
}

fn lowered_word(word: &[char]) -> (r: String)
    ensures
        r@ == lower_all(word@),
{
    let lowered = lower_chars(word);
    text_of(lowered.as_slice())
}

fn apply_enabled_tier(configured: &Option<String>, explicit: &Option<String>) -> (r: Option<
    String,
>)
    ensures
        explicit is None ==> opt_text(r) == opt_text(*configured),
        explicit is Some && trim(explicit->0@).len() == 0 ==> opt_text(r) == opt_text(*configured),
        explicit is Some && trim(explicit->0@).len() > 0 ==> opt_text(r) is None || opt_text(r) == Some(
            trim(explicit->0@),
        ),
        explicit is Some && trim(explicit->0@).len() > 0 ==> (r is None <==> lower_all(trim(explicit->0@)) == "off"@ || lower_all(trim(explicit->0@)) == "none"@
            || lower_all(trim(explicit->0@)) == "false"@),
        opt_text(r) == tier(opt_text(*configured), opt_text(*explicit)),
{
    proof {
        reveal(tier);
    }
    match explicit {
        None => copy_opt(configured),
        Some(value) => {
            let chars = chars_of(value.as_str());
            let word = trimmed(chars.as_slice());
            if word.len() == 0 {
                return copy_opt(configured);
            }
            let lowered = lowered_word(word);
            if same_text(lowered.as_str(), "off") || same_text(lowered.as_str(), "none")
                || same_text(lowered.as_str(), "false") {
                None
            } else {
                Some(text_of(word))
            }
        },
    }
}

fn apply_optional_value(configured: &Option<String>, explicit: &Option<String>) -> (r: Option<
    String,
>)
    ensures
        explicit is None ==> opt_text(r) == opt_text(*configured),
        explicit is Some && trim(explicit->0@).len() == 0 ==> opt_text(r) == opt_text(*configured),
        explicit is Some && trim(explicit->0@).len() > 0 ==> opt_text(r) is None || opt_text(r) == Some(
            trim(explicit->0@),
        ),
        explicit is Some && trim(explicit->0@).len() > 0 ==> (r is None <==> lower_all(trim(explicit->0@)) == "off"@ || lower_all(trim(explicit->0@)) == "none"@),
        opt_text(r) == option_value(opt_text(*configured), opt_text(*explicit)),
{
    proof {
        reveal(option_value);
        reveal_strlit("off");
        reveal_strlit("none");
        let word = trim(explicit->0@);
        assert(lower_all(word).len() == word.len());
    }
    match explicit {
        None => copy_opt(configured),
        Some(value) => {
            let chars = chars_of(value.as_str());
            let word = trimmed(chars.as_slice());
            let lowered = lowered_word(word);
            if same_text(lowered.as_str(), "off") || same_text(lowered.as_str(), "none") {
                None
            } else if word.len() == 0 {
                copy_opt(configured)
            } else {
                Some(text_of(word))
            }
        },
    }
}

// ---------------------------------------------------------------------------
// Groups of choices
// ---------------------------------------------------------------------------

/// The configured crop, or the explicit one where it is not empty.
#[verifier::opaque]
pub open spec fn crop_choice(configured: Option<Rect>, explicit: Option<Seq<char>>) -> Result<
    Option<Rect>,
    CropParseError,
> {
    match explicit {
        None => Ok(configured),
        Some(value) => match crop_components(value) {
            Err(error) => Err(error),
            Ok(values) => match crop_rect(values) {
                Some(rect) => Ok(Some(rect)),
                None => Ok(configured),
            },
        },
    }
}

/// The preferences with explicit geometry.
pub open spec fn with_geometry(prefs: Prefs, o: GeometryOverrides) -> Result<Prefs, CropParseError> {
    match crop_choice(prefs.crop, opt_text(o.crop)) {
        Err(error) => Err(error),
        Ok(crop) => Ok(
            Prefs {
                rotate: match o.rotate {
                    Some(degrees) => Rotate::of_degrees(degrees as int),
                    None => prefs.rotate,
                },
                flip_h: chosen(prefs.flip_h, o.flip_h),
                flip_v: chosen(prefs.flip_v, o.flip_v),
                crop,
                auto_deskew: chosen(prefs.auto_deskew, o.auto_deskew),
                deskew_angle: chosen(prefs.deskew_angle, o.deskew),
                ..prefs
            },
        ),
    }
}

/// The preferences with explicit color.
pub open spec fn with_color(prefs: Prefs, o: ColorOverrides) -> Prefs {
    Prefs {
        brightness: chosen(prefs.brightness, o.brightness),
        contrast: chosen(prefs.contrast, o.contrast),
        saturation: chosen(prefs.saturation, o.saturation),
        hue: chosen(prefs.hue, o.hue),
        curves: match opt_points(o.curves) {
            Some(points) => Some(points),
            None => prefs.curves,
        },
        desaturate: chosen(prefs.desaturate, o.desaturate),
        levels_black: chosen(prefs.levels_black, o.levels_black),
        levels_white: chosen(prefs.levels_white, o.levels_white),
        levels_gamma: chosen(prefs.levels_gamma, o.levels_gamma),
        white_balance: chosen(prefs.white_balance, o.white_balance),
        auto_levels: chosen(prefs.auto_levels, o.auto_levels),
        ..prefs
    }
}

/// The preferences with explicit filters.
pub open spec fn with_filters(prefs: Prefs, o: FilterOverrides) -> Prefs {
    Prefs {
        infrared_clean: tier(prefs.infrared_clean, opt_text(o.infrared_clean)),
        descreen: chosen(prefs.descreen, o.descreen),
        descreen_dpi: chosen(prefs.descreen_dpi, o.descreen_dpi),
        sharpen_amount: chosen(prefs.sharpen_amount, o.sharpen),
        film_type: option_value(prefs.film_type, opt_text(o.film_type)),
        restore_colors: chosen(prefs.restore_colors, o.restore_colors),
        restore_fading: chosen(prefs.restore_fading, o.restore_fading),
        grain_reduction: tier(prefs.grain_reduction, opt_text(o.grain_reduction)),
        flatten: chosen(prefs.flatten, o.flatten),
        hole_punch: chosen(prefs.hole_punch, o.hole_punch),
        colorize_mode: option_value(prefs.colorize_mode, opt_text(o.colorize_mode)),
        ..prefs
    }
}

/// The preferences with every explicit choice.
pub open spec fn with_overrides(prefs: Prefs, o: PipelineOverrides) -> Result<Prefs, CropParseError> {
    match with_geometry(prefs, o.geometry) {
        Err(error) => Err(error),
        Ok(geometry) => Ok(with_filters(with_color(geometry, o.color), o.filters)),
    }
}

fn apply_crop(configured: Option<Rect>, explicit: &Option<String>) -> (r: Result<
    Option<Rect>,
    CropParseError,
>)
    ensures
        r == crop_choice(configured, opt_text(*explicit)),
{
    proof {
        reveal(crop_choice);
    }
    match explicit {
        None => Ok(configured),
        Some(value) => {
            let crop = match parse_crop_components(value.as_str()) {
                Ok(crop) => crop,
                Err(error) => {
                    return Err(error);
                },
            };
            match rect_of(crop) {
                Some(rect) => Ok(Some(rect)),
                None => Ok(configured),
            }
        },
    }
}

#[verifier::rlimit(50)]
fn apply_geometry_overrides(pipeline: PipelinePrefs, o: &GeometryOverrides) -> (r: Result<
    PipelinePrefs,
    CropParseError,
>)
    ensures
        match with_geometry(pipeline@, *o) {
            Ok(prefs) => r is Ok && r->Ok_0@ == prefs,
            Err(error) => r == Err::<PipelinePrefs, CropParseError>(error),
        },
{
    let crop = match apply_crop(pipeline.crop, &o.crop) {
        Ok(crop) => crop,
        Err(error) => {
            return Err(error);
        },
    };
    let rotate = match o.rotate {
        Some(degrees) => Rotate::from_degrees(degrees),
        None => pipeline.rotate,
    };
    Ok(
        PipelinePrefs {
            rotate,
            flip_h: apply_explicit_bool(pipeline.flip_h, o.flip_h),
            flip_v: apply_explicit_bool(pipeline.flip_v, o.flip_v),
            crop,
            auto_deskew: apply_explicit_bool(pipeline.auto_deskew, o.auto_deskew),
            deskew_angle: amount(pipeline.deskew_angle, o.deskew),
            ..pipeline
        },
    )
}

#[verifier::rlimit(50)]
fn apply_color_overrides(pipeline: PipelinePrefs, o: &ColorOverrides) -> (r: PipelinePrefs)
    ensures
        r@ == with_color(pipeline@, *o),
{
    let curves = if o.curves.is_some() {
        copy_points(&o.curves)
    } else {
        copy_points(&pipeline.curves)
    };
    PipelinePrefs {
        brightness: number(pipeline.brightness, o.brightness),
        contrast: number(pipeline.contrast, o.contrast),
        saturation: amount(pipeline.saturation, o.saturation),
        hue: amount(pipeline.hue, o.hue),
        curves,
        desaturate: apply_explicit_bool(pipeline.desaturate, o.desaturate),
        levels_black: number(pipeline.levels_black, o.levels_black),
        levels_white: number(pipeline.levels_white, o.levels_white),
        levels_gamma: amount(pipeline.levels_gamma, o.levels_gamma),
        white_balance: apply_explicit_bool(pipeline.white_balance, o.white_balance),
        auto_levels: apply_explicit_bool(pipeline.auto_levels, o.auto_levels),
        ..pipeline
    }
}

#[verifier::rlimit(50)]
fn apply_filter_switches(
    pipeline: &PipelinePrefs,
    o: &FilterOverrides,
    infrared_clean: Option<String>,
    grain_reduction: Option<String>,
    film_type: Option<String>,
    colorize_mode: Option<String>,
) -> (r: PipelinePrefs)
    ensures
        opt_text(r.infrared_clean) == opt_text(infrared_clean),
        opt_text(r.grain_reduction) == opt_text(grain_reduction),
        opt_text(r.film_type) == opt_text(film_type),
        opt_text(r.colorize_mode) == opt_text(colorize_mode),
        r@ == (Prefs {
            infrared_clean: opt_text(infrared_clean),
            descreen: chosen(pipeline@.descreen, o.descreen),
            descreen_dpi: chosen(pipeline@.descreen_dpi, o.descreen_dpi),
            sharpen_amount: chosen(pipeline@.sharpen_amount, o.sharpen),
            film_type: opt_text(film_type),
            restore_colors: chosen(pipeline@.restore_colors, o.restore_colors),
            restore_fading: chosen(pipeline@.restore_fading, o.restore_fading),
            grain_reduction: opt_text(grain_reduction),
            flatten: chosen(pipeline@.flatten, o.flatten),
            hole_punch: chosen(pipeline@.hole_punch, o.hole_punch),
            colorize_mode: opt_text(colorize_mode),
            ..pipeline@
        }),
{
    PipelinePrefs {
        rotate: pipeline.rotate,
        flip_h: pipeline.flip_h,
        flip_v: pipeline.flip_v,
        crop: pipeline.crop,
        brightness: pipeline.brightness,
        contrast: pipeline.contrast,
        desaturate: pipeline.desaturate,
        levels_black: pipeline.levels_black,
        levels_white: pipeline.levels_white,
        levels_gamma: pipeline.levels_gamma,
        auto_deskew: pipeline.auto_deskew,
        deskew_angle: pipeline.deskew_angle,
        auto_orient: pipeline.auto_orient,
        auto_crop: pipeline.auto_crop,
        white_balance: pipeline.white_balance,
        sharpen_amount: amount(pipeline.sharpen_amount, o.sharpen),
        invert: pipeline.invert,
        auto_levels: pipeline.auto_levels,
        saturation: pipeline.saturation,
        hue: pipeline.hue,
        curves: copy_points(&pipeline.curves),
        infrared_clean,
        descreen: apply_explicit_bool(pipeline.descreen, o.descreen),
        descreen_dpi: number(pipeline.descreen_dpi, o.descreen_dpi),
        restore_colors: apply_explicit_bool(pipeline.restore_colors, o.restore_colors),
        restore_fading: apply_explicit_bool(pipeline.restore_fading, o.restore_fading),
        grain_reduction,
        flatten: apply_explicit_bool(pipeline.flatten, o.flatten),
        hole_punch: apply_explicit_bool(pipeline.hole_punch, o.hole_punch),
        colorize_mode,
        film_type,
    }
}

#[verifier::spinoff_prover]
#[verifier::rlimit(60)]
fn apply_filter_overrides(pipeline: &PipelinePrefs, o: &FilterOverrides) -> (r: PipelinePrefs)
    ensures
        o.infrared_clean is None ==> opt_text(r.infrared_clean) == opt_text(pipeline.infrared_clean),
        o.infrared_clean is Some && trim(o.infrared_clean->0@).len() == 0 ==> opt_text(r.infrared_clean) == opt_text(pipeline.infrared_clean),
        o.infrared_clean is Some && trim(o.infrared_clean->0@).len() > 0 ==> opt_text(r.infrared_clean) is None || opt_text(r.infrared_clean) == Some(
            trim(o.infrared_clean->0@),
        ),
        o.infrared_clean is Some && trim(o.infrared_clean->0@).len() > 0 ==> (r.infrared_clean is None <==> lower_all(trim(o.infrared_clean->0@)) == "off"@ || lower_all(trim(o.infrared_clean->0@)) == "none"@
            || lower_all(trim(o.infrared_clean->0@)) == "false"@),
        o.grain_reduction is None ==> opt_text(r.grain_reduction) == opt_text(pipeline.grain_reduction),
        o.grain_reduction is Some && trim(o.grain_reduction->0@).len() == 0 ==> opt_text(r.grain_reduction) == opt_text(pipeline.grain_reduction),
        o.grain_reduction is Some && trim(o.grain_reduction->0@).len() > 0 ==> opt_text(r.grain_reduction) is None || opt_text(r.grain_reduction) == Some(
            trim(o.grain_reduction->0@),
        ),
        o.grain_reduction is Some && trim(o.grain_reduction->0@).len() > 0 ==> (r.grain_reduction is None <==> lower_all(trim(o.grain_reduction->0@)) == "off"@ || lower_all(trim(o.grain_reduction->0@)) == "none"@
            || lower_all(trim(o.grain_reduction->0@)) == "false"@),
        o.film_type is None ==> opt_text(r.film_type) == opt_text(pipeline.film_type),
        o.film_type is Some && trim(o.film_type->0@).len() == 0 ==> opt_text(r.film_type) == opt_text(pipeline.film_type),
        o.film_type is Some && trim(o.film_type->0@).len() > 0 ==> opt_text(r.film_type) is None || opt_text(r.film_type) == Some(
            trim(o.film_type->0@),
        ),
        o.film_type is Some && trim(o.film_type->0@).len() > 0 ==> (r.film_type is None <==> lower_all(trim(o.film_type->0@)) == "off"@ || lower_all(trim(o.film_type->0@)) == "none"@),
        o.colorize_mode is None ==> opt_text(r.colorize_mode) == opt_text(pipeline.colorize_mode),
        o.colorize_mode is Some && trim(o.colorize_mode->0@).len() == 0 ==> opt_text(r.colorize_mode) == opt_text(pipeline.colorize_mode),
        o.colorize_mode is Some && trim(o.colorize_mode->0@).len() > 0 ==> opt_text(r.colorize_mode) is None || opt_text(r.colorize_mode) == Some(
            trim(o.colorize_mode->0@),
        ),
        o.colorize_mode is Some && trim(o.colorize_mode->0@).len() > 0 ==> (r.colorize_mode is None <==> lower_all(trim(o.colorize_mode->0@)) == "off"@ || lower_all(trim(o.colorize_mode->0@)) == "none"@),
        r@ == with_filters(pipeline@, *o),
{
    let infrared_clean = apply_enabled_tier(&pipeline.infrared_clean, &o.infrared_clean);
    let grain_reduction = apply_enabled_tier(&pipeline.grain_reduction, &o.grain_reduction);
    let film_type = apply_optional_value(&pipeline.film_type, &o.film_type);
    let colorize_mode = apply_optional_value(&pipeline.colorize_mode, &o.colorize_mode);
    apply_filter_switches(pipeline, o, infrared_clean, grain_reduction, film_type, colorize_mode)
}

/// Lays explicit choices over configured preferences.
#[verifier::spinoff_prover]
#[verifier::rlimit(60)]
pub fn pipeline_with_overrides(configured: &PipelinePrefs, overrides: &PipelineOverrides) -> (r:
    Result<PipelinePrefs, CropParseError>)
    ensures
        r is Ok ==> r->Ok_0.flip_h == (match overrides.geometry.flip_h {
            Some(value) => value,
            None => configured.flip_h,
        }),
        r is Ok ==> r->Ok_0.flip_v == (match overrides.geometry.flip_v {
            Some(value) => value,
            None => configured.flip_v,
        }),
        r is Ok ==> r->Ok_0.auto_deskew == (match overrides.geometry.auto_deskew {
            Some(value) => value,
            None => configured.auto_deskew,
        }),
        r is Ok ==> r->Ok_0.deskew_angle == (match overrides.geometry.deskew {
            Some(value) => value,
            None => configured.deskew_angle,
        }),
        r is Ok ==> r->Ok_0.brightness == (match overrides.color.brightness {
            Some(value) => value,
            None => configured.brightness,
        }),
        r is Ok ==> r->Ok_0.contrast == (match overrides.color.contrast {
            Some(value) => value,
            None => configured.contrast,
        }),
        r is Ok ==> r->Ok_0.saturation == (match overrides.color.saturation {
            Some(value) => value,
            None => configured.saturation,
        }),
        r is Ok ==> r->Ok_0.hue == (match overrides.color.hue {
            Some(value) => value,
            None => configured.hue,
        }),
        r is Ok ==> r->Ok_0.desaturate == (match overrides.color.desaturate {
            Some(value) => value,
            None => configured.desaturate,
        }),
        r is Ok ==> r->Ok_0.levels_black == (match overrides.color.levels_black {
            Some(value) => value,
            None => configured.levels_black,
        }),
        r is Ok ==> r->Ok_0.levels_white == (match overrides.color.levels_white {
            Some(value) => value,
            None => configured.levels_white,
        }),
        r is Ok ==> r->Ok_0.levels_gamma == (match overrides.color.levels_gamma {
            Some(value) => value,
            None => configured.levels_gamma,
        }),
        r is Ok ==> r->Ok_0.white_balance == (match overrides.color.white_balance {
            Some(value) => value,
            None => configured.white_balance,
        }),
        r is Ok ==> r->Ok_0.auto_levels == (match overrides.color.auto_levels {
            Some(value) => value,
            None => configured.auto_levels,
        }),
        r is Ok ==> r->Ok_0.descreen == (match overrides.filters.descreen {
            Some(value) => value,
            None => configured.descreen,
        }),
        r is Ok ==> r->Ok_0.descreen_dpi == (match overrides.filters.descreen_dpi {
            Some(value) => value,
            None => configured.descreen_dpi,
        }),
        r is Ok ==> r->Ok_0.sharpen_amount == (match overrides.filters.sharpen {
            Some(value) => value,
            None => configured.sharpen_amount,
        }),
        r is Ok ==> r->Ok_0.restore_colors == (match overrides.filters.restore_colors {
            Some(value) => value,
            None => configured.restore_colors,
        }),
        r is Ok ==> r->Ok_0.restore_fading == (match overrides.filters.restore_fading {
            Some(value) => value,
            None => configured.restore_fading,
        }),
        r is Ok ==> r->Ok_0.flatten == (match overrides.filters.flatten {
            Some(value) => value,
            None => configured.flatten,
        }),
        r is Ok ==> r->Ok_0.hole_punch == (match overrides.filters.hole_punch {
            Some(value) => value,
            None => configured.hole_punch,
        }),
        r is Ok ==> r->Ok_0.invert == configured.invert,
        r is Ok ==> r->Ok_0.auto_orient == configured.auto_orient,
        r is Ok ==> r->Ok_0.auto_crop == configured.auto_crop,
        r is Ok && overrides.geometry.rotate is None ==> r->Ok_0.rotate == configured.rotate,
        r is Ok && overrides.geometry.rotate is Some && overrides.geometry.rotate->0 % 90 == 0 ==> (
        overrides.geometry.rotate->0 - r->Ok_0.rotate.spec_degrees()) % 360 == 0,
        r is Ok && overrides.geometry.crop is None ==> r->Ok_0.crop == configured.crop,
        overrides.geometry.crop is None ==> r is Ok,
        r is Ok && overrides.color.curves is Some ==> opt_points(r->Ok_0.curves) == opt_points(
            overrides.color.curves,
        ),
        r is Ok && overrides.color.curves is None ==> opt_points(r->Ok_0.curves) == opt_points(
            configured.curves,
        ),
        r is Ok && overrides.filters.infrared_clean is None ==> opt_text(r->Ok_0.infrared_clean) == opt_text(configured.infrared_clean),
        r is Ok && overrides.filters.infrared_clean is Some && trim(overrides.filters.infrared_clean->0@).len() == 0 ==> opt_text(
            r->Ok_0.infrared_clean,
        ) == opt_text(configured.infrared_clean),
        r is Ok && overrides.filters.infrared_clean is Some && trim(overrides.filters.infrared_clean->0@).len() > 0 ==> opt_text(r->Ok_0.infrared_clean)
            is None || opt_text(r->Ok_0.infrared_clean) == Some(trim(overrides.filters.infrared_clean->0@)),
        r is Ok && overrides.filters.infrared_clean is Some && trim(overrides.filters.infrared_clean->0@).len() > 0 ==> (r->Ok_0.infrared_clean is None
            <==> lower_all(trim(overrides.filters.infrared_clean->0@)) == "off"@ || lower_all(trim(overrides.filters.infrared_clean->0@)) == "none"@
            || lower_all(trim(overrides.filters.infrared_clean->0@)) == "false"@),
        r is Ok && overrides.filters.grain_reduction is None ==> opt_text(r->Ok_0.grain_reduction) == opt_text(configured.grain_reduction),
        r is Ok && overrides.filters.grain_reduction is Some && trim(overrides.filters.grain_reduction->0@).len() == 0 ==> opt_text(
            r->Ok_0.grain_reduction,
        ) == opt_text(configured.grain_reduction),
        r is Ok && overrides.filters.grain_reduction is Some && trim(overrides.filters.grain_reduction->0@).len() > 0 ==> opt_text(r->Ok_0.grain_reduction)
            is None || opt_text(r->Ok_0.grain_reduction) == Some(trim(overrides.filters.grain_reduction->0@)),
        r is Ok && overrides.filters.grain_reduction is Some && trim(overrides.filters.grain_reduction->0@).len() > 0 ==> (r->Ok_0.grain_reduction is None
            <==> lower_all(trim(overrides.filters.grain_reduction->0@)) == "off"@ || lower_all(trim(overrides.filters.grain_reduction->0@)) == "none"@
            || lower_all(trim(overrides.filters.grain_reduction->0@)) == "false"@),
        r is Ok && overrides.filters.film_type is None ==> opt_text(r->Ok_0.film_type) == opt_text(configured.film_type),
        r is Ok && overrides.filters.film_type is Some && trim(overrides.filters.film_type->0@).len() == 0 ==> opt_text(
            r->Ok_0.film_type,
        ) == opt_text(configured.film_type),
        r is Ok && overrides.filters.film_type is Some && trim(overrides.filters.film_type->0@).len() > 0 ==> opt_text(r->Ok_0.film_type)
            is None || opt_text(r->Ok_0.film_type) == Some(trim(overrides.filters.film_type->0@)),
        r is Ok && overrides.filters.film_type is Some && trim(overrides.filters.film_type->0@).len() > 0 ==> (r->Ok_0.film_type is None
            <==> lower_all(trim(overrides.filters.film_type->0@)) == "off"@ || lower_all(trim(overrides.filters.film_type->0@)) == "none"@),
        r is Ok && overrides.filters.colorize_mode is None ==> opt_text(r->Ok_0.colorize_mode) == opt_text(configured.colorize_mode),
        r is Ok && overrides.filters.colorize_mode is Some && trim(overrides.filters.colorize_mode->0@).len() == 0 ==> opt_text(
            r->Ok_0.colorize_mode,
        ) == opt_text(configured.colorize_mode),
        r is Ok && overrides.filters.colorize_mode is Some && trim(overrides.filters.colorize_mode->0@).len() > 0 ==> opt_text(r->Ok_0.colorize_mode)
            is None || opt_text(r->Ok_0.colorize_mode) == Some(trim(overrides.filters.colorize_mode->0@)),
        r is Ok && overrides.filters.colorize_mode is Some && trim(overrides.filters.colorize_mode->0@).len() > 0 ==> (r->Ok_0.colorize_mode is None
            <==> lower_all(trim(overrides.filters.colorize_mode->0@)) == "off"@ || lower_all(trim(overrides.filters.colorize_mode->0@)) == "none"@),
        match with_overrides(configured@, *overrides) {
            Ok(prefs) => r is Ok && r->Ok_0@ == prefs,
            Err(error) => r == Err::<PipelinePrefs, CropParseError>(error),
        },
{
    proof {
        reveal(crop_choice);
    }
    match apply_geometry_overrides(configured.clone(), &overrides.geometry) {
        Ok(pipeline) => {
            let colored = apply_color_overrides(pipeline, &overrides.color);
            Ok(apply_filter_overrides(&colored, &overrides.filters))
        },
        Err(error) => Err(error),
    }
}

/// Where nothing is chosen explicitly, what is configured stands.
pub proof fn no_overrides_change_nothing(prefs: Prefs, overrides: PipelineOverrides)
    requires
        no_overrides(overrides),
    ensures
        with_overrides(prefs, overrides) == Ok::<Prefs, CropParseError>(prefs),
{
    lemma_no_geometry(prefs, overrides.geometry);
    lemma_no_color(prefs, overrides.color);
    lemma_no_filters(prefs, overrides.filters);
}

proof fn lemma_no_geometry(prefs: Prefs, o: GeometryOverrides)
    requires
        o.rotate is None,
        o.flip_h is None,
        o.flip_v is None,
        o.crop is None,
        o.auto_deskew is None,
        o.deskew is None,
    ensures
        with_geometry(prefs, o) == Ok::<Prefs, CropParseError>(prefs),
{
    reveal(crop_choice);
}

proof fn lemma_no_color(prefs: Prefs, o: ColorOverrides)
    requires
        o.brightness is None,
        o.contrast is None,
        o.saturation is None,
        o.hue is None,
        o.curves is None,
        o.desaturate is None,
        o.levels_black is None,
        o.levels_white is None,
        o.levels_gamma is None,
        o.white_balance is None,
        o.auto_levels is None,
    ensures
        with_color(prefs, o) == prefs,
{
}

proof fn lemma_no_filters(prefs: Prefs, o: FilterOverrides)
    requires
        o.infrared_clean is None,
        o.descreen is None,
        o.descreen_dpi is None,
        o.sharpen is None,
        o.film_type is None,
        o.restore_colors is None,
        o.restore_fading is None,
        o.grain_reduction is None,
        o.flatten is None,
        o.hole_punch is None,
        o.colorize_mode is None,
    ensures
        with_filters(prefs, o) == prefs,
{
    reveal(tier);
    reveal(option_value);
}

/// An explicit choice wins over any configured one, also where it switches something off.
pub proof fn explicit_choices_win(a: Prefs, b: Prefs, o: FilterOverrides)
    requires
        o.descreen is Some,
        o.restore_colors is Some,
        o.restore_fading is Some,
        o.flatten is Some,
        o.hole_punch is Some,
        o.infrared_clean matches Some(word) && trim(word@).len() > 0,
        o.grain_reduction matches Some(word) && trim(word@).len() > 0,
        o.film_type matches Some(word) && trim(word@).len() > 0,
        o.colorize_mode matches Some(word) && trim(word@).len() > 0,
    ensures
        ({
            let x = with_filters(a, o);
            let y = with_filters(b, o);
            &&& x.descreen == o.descreen->0 && y.descreen == o.descreen->0
            &&& x.restore_colors == o.restore_colors->0 && y.restore_colors == o.restore_colors->0
            &&& x.restore_fading == o.restore_fading->0 && y.restore_fading == o.restore_fading->0
            &&& x.flatten == o.flatten->0 && y.flatten == o.flatten->0
            &&& x.hole_punch == o.hole_punch->0 && y.hole_punch == o.hole_punch->0
            &&& x.infrared_clean == y.infrared_clean
            &&& x.grain_reduction == y.grain_reduction
            &&& x.film_type == y.film_type
            &&& x.colorize_mode == y.colorize_mode
        }),
{
    reveal(tier);
    reveal(option_value);
}

/// What a user reads where a crop on the command line is not one.
pub fn crop_option_error(error: CropParseError) -> (r: &'static str)
    ensures
        r@ == (match error {
            CropParseError::ComponentCount => "--crop must be x,y,w,h"@,
            CropParseError::InvalidInteger(_) => "--crop must be x,y,w,h integers"@,
        }),
{
    match error {
        CropParseError::ComponentCount => "--crop must be x,y,w,h",
        CropParseError::InvalidInteger(_) => "--crop must be x,y,w,h integers",
    }
}

} // verus!
