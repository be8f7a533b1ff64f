//! Application configuration.

use crate::acquisition::ScanMode;
use crate::crop::{crop_rect, rect_of, values_of};
use crate::image::{Rect, Rotate};
use crate::processing::{
    copy_opt, copy_points, opt_points, opt_text, PipelinePrefs, Prefs, Real,
};
use vstd::prelude::*;

verus! {

/// What is acquired where nothing else is asked for.
#[derive(Debug, PartialEq, Eq)]
pub struct CaptureConfig {
    pub last_device_id: String,
    pub default_dpi: u32,
    pub default_width: u32,
    pub default_height: u32,
    pub scan_mode: ScanMode,
    pub duplex: bool,
    pub batch_pages: u32,
}

/// What is acquired where nothing else is asked for; texts are sequences.
pub struct Capture {
    pub last_device_id: Seq<char>,
    pub default_dpi: u32,
    pub default_width: u32,
    pub default_height: u32,
    pub scan_mode: ScanMode,
    pub duplex: bool,
    pub batch_pages: u32,
}

impl View for CaptureConfig {
    type V = Capture;

    open spec fn view(&self) -> Capture {
        Capture {
            last_device_id: self.last_device_id@,
            default_dpi: self.default_dpi,
            default_width: self.default_width,
            default_height: self.default_height,
            scan_mode: self.scan_mode,
            duplex: self.duplex,
            batch_pages: self.batch_pages,
        }
    }
}

impl Clone for CaptureConfig {
    fn clone(&self) -> (r: Self)
        ensures
            r@ == self@,
    {
        CaptureConfig {
            last_device_id: self.last_device_id.clone(),
            default_dpi: self.default_dpi,
            default_width: self.default_width,
            default_height: self.default_height,
            scan_mode: self.scan_mode,
            duplex: self.duplex,
            batch_pages: self.batch_pages,
        }
    }
}

/// Where and how results are written, and in which language.
#[derive(Debug, PartialEq, Eq)]
pub struct OutputConfig {
    pub output_dir: String,
    pub output_name: String,
    pub output_format: String,
    pub multipage: bool,
    pub multipage_format: String,
    pub save_raw: bool,
    pub contact_sheet: bool,
    pub ocr_engine: String,
    pub ocr_language: String,
    pub language: String,
}

/// Where and how results are written, and in which language; texts are sequences.
pub struct Outputs {
    pub output_dir: Seq<char>,
    pub output_name: Seq<char>,
    pub output_format: Seq<char>,
    pub multipage: bool,
    pub multipage_format: Seq<char>,
    pub save_raw: bool,
    pub contact_sheet: bool,
    pub ocr_engine: Seq<char>,
    pub ocr_language: Seq<char>,
    pub language: Seq<char>,
}

impl View for OutputConfig {
    type V = Outputs;

    open spec fn view(&self) -> Outputs {
        Outputs {
            output_dir: self.output_dir@,
            output_name: self.output_name@,
            output_format: self.output_format@,
            multipage: self.multipage,
            multipage_format: self.multipage_format@,
            save_raw: self.save_raw,
            contact_sheet: self.contact_sheet,
            ocr_engine: self.ocr_engine@,
            ocr_language: self.ocr_language@,
            language: self.language@,
        }
    }
}

impl Clone for OutputConfig {
    fn clone(&self) -> (r: Self)
        ensures
            r@ == self@,
    {
        OutputConfig {
            output_dir: self.output_dir.clone(),
            output_name: self.output_name.clone(),
            output_format: self.output_format.clone(),
            multipage: self.multipage,
            multipage_format: self.multipage_format.clone(),
            save_raw: self.save_raw,
            contact_sheet: self.contact_sheet,
            ocr_engine: self.ocr_engine.clone(),
            ocr_language: self.ocr_language.clone(),
            language: self.language.clone(),
        }
    }
}

/// How images are processed.
#[derive(Debug, PartialEq, Eq)]
pub struct ProcessingConfig {
    pub rotate: i32,
    pub flip_h: bool,
    pub flip_v: bool,
    pub crop: Option<[i32; 4]>,
    pub brightness: i32,
    pub contrast: i32,
    pub saturation: Real,
    pub hue: Real,
    pub curves: Option<Vec<[i32; 2]>>,
    pub desaturate: bool,
    pub levels_black: i32,
    pub levels_white: i32,
    pub levels_gamma: Real,
    pub invert_colors: bool,
    pub auto_deskew: bool,
    pub deskew_angle: Real,
    pub auto_orient: bool,
    pub auto_crop: bool,
    pub white_balance: bool,
    pub auto_levels: bool,
    pub sharpen_amount: Real,
    pub infrared_clean: Option<String>,
    pub descreen: bool,
    pub descreen_dpi: i32,
    pub restore_colors: bool,
    pub restore_fading: bool,
    pub grain_reduction: Option<String>,
    pub flatten: bool,
    pub hole_punch: bool,
    pub colorize_mode: Option<String>,
    pub film_type: Option<String>,
}

/// How images are processed; texts are sequences.
pub struct Processing {
    pub rotate: i32,
    pub flip_h: bool,
    pub flip_v: bool,
    pub crop: Option<[i32; 4]>,
    pub brightness: i32,
    pub contrast: i32,
    pub saturation: Real,
    pub hue: Real,
    pub curves: Option<Seq<(int, int)>>,
    pub desaturate: bool,
    pub levels_black: i32,
    pub levels_white: i32,
    pub levels_gamma: Real,
    pub invert_colors: bool,
    pub auto_deskew: bool,
    pub deskew_angle: Real,
    pub auto_orient: bool,
    pub auto_crop: bool,
    pub white_balance: bool,
    pub auto_levels: bool,
    pub sharpen_amount: Real,
    pub infrared_clean: Option<Seq<char>>,
    pub descreen: bool,
    pub descreen_dpi: i32,
    pub restore_colors: bool,
    pub restore_fading: bool,
    pub grain_reduction: Option<Seq<char>>,
    pub flatten: bool,
    pub hole_punch: bool,
    pub colorize_mode: Option<Seq<char>>,
    pub film_type: Option<Seq<char>>,
}

impl View for ProcessingConfig {
    type V = Processing;

    open spec fn view(&self) -> Processing {
        Processing {
            rotate: self.rotate,
            flip_h: self.flip_h,
            flip_v: self.flip_v,
            crop: self.crop,
            brightness: self.brightness,
            contrast: self.contrast,
            saturation: self.saturation,
            hue: self.hue,
            curves: opt_points(self.curves),
            desaturate: self.desaturate,
            levels_black: self.levels_black,
            levels_white: self.levels_white,
            levels_gamma: self.levels_gamma,
            invert_colors: self.invert_colors,
            auto_deskew: self.auto_deskew,
            deskew_angle: self.deskew_angle,
            auto_orient: self.auto_orient,
            auto_crop: self.auto_crop,
            white_balance: self.white_balance,
            auto_levels: self.auto_levels,
            sharpen_amount: self.sharpen_amount,
            infrared_clean: opt_text(self.infrared_clean),
            descreen: self.descreen,
            descreen_dpi: self.descreen_dpi,
            restore_colors: self.restore_colors,
            restore_fading: self.restore_fading,
            grain_reduction: opt_text(self.grain_reduction),
            flatten: self.flatten,
            hole_punch: self.hole_punch,
            colorize_mode: opt_text(self.colorize_mode),
            film_type: opt_text(self.film_type),
        }
    }
}

impl Clone for ProcessingConfig {
    fn clone(&self) -> (r: Self)
        ensures
            r@ == self@,
    {
        ProcessingConfig {
            rotate: self.rotate,
            flip_h: self.flip_h,
            flip_v: self.flip_v,
            crop: self.crop,
            brightness: self.brightness,
            contrast: self.contrast,
            saturation: self.saturation,
            hue: self.hue,
            curves: copy_points(&self.curves),
            desaturate: self.desaturate,
            levels_black: self.levels_black,
            levels_white: self.levels_white,
            levels_gamma: self.levels_gamma,
            invert_colors: self.invert_colors,
            auto_deskew: self.auto_deskew,
            deskew_angle: self.deskew_angle,
            auto_orient: self.auto_orient,
            auto_crop: self.auto_crop,
            white_balance: self.white_balance,
            auto_levels: self.auto_levels,
            sharpen_amount: self.sharpen_amount,
            infrared_clean: copy_opt(&self.infrared_clean),
            descreen: self.descreen,
            descreen_dpi: self.descreen_dpi,
            restore_colors: self.restore_colors,
            restore_fading: self.restore_fading,
            grain_reduction: copy_opt(&self.grain_reduction),
            flatten: self.flatten,
            hole_punch: self.hole_punch,
            colorize_mode: copy_opt(&self.colorize_mode),
            film_type: copy_opt(&self.film_type),
        }
    }
}

/// What the application keeps between runs.
#[derive(Debug, PartialEq, Eq)]
pub struct AppConfig {
    pub capture: CaptureConfig,
    pub output: OutputConfig,
    pub processing: ProcessingConfig,
}

/// What the application keeps between runs; texts are sequences.
pub struct Settings {
    pub capture: Capture,
    pub output: Outputs,
    pub processing: Processing,
}

impl View for AppConfig {
    type V = Settings;

    open spec fn view(&self) -> Settings {
        Settings {
            capture: self.capture@,
            output: self.output@,
            processing: self.processing@,
        }
    }
}

impl Clone for AppConfig {
    fn clone(&self) -> (r: Self)
        ensures
            r@ == self@,
    {
        AppConfig {
            capture: self.capture.clone(),
            output: self.output.clone(),
            processing: self.processing.clone(),
        }
    }
}

/// What a user asks to change in the configuration.
#[derive(Debug)]
pub struct ConfigRequest {
    pub init: bool,
    pub show: bool,
    pub set_output_dir: Option<String>,
    pub set_dpi: Option<u32>,
    pub set_device: Option<String>,
}

/// The configuration with the changes that a user asks for.
pub open spec fn updated(
    config: Settings,
    output_dir: Option<Seq<char>>,
    dpi: Option<u32>,
    device: Option<Seq<char>>,
) -> Settings {
    Settings {
        output: Outputs {
            output_dir: match output_dir {
                Some(text) => text,
                None => config.output.output_dir,
            },
            ..config.output
        },
        capture: Capture {
            default_dpi: match dpi {
                Some(dpi) => dpi,
                None => config.capture.default_dpi,
            },
            last_device_id: match device {
                Some(text) => text,
                None => config.capture.last_device_id,
            },
            ..config.capture
        },
        ..config
    }
}

impl ConfigRequest {
    /// Whether the configuration has to be written.
    pub fn should_write(&self) -> (r: bool)
        ensures
            r == (self.init || self.set_output_dir is Some || self.set_dpi is Some
                || self.set_device is Some),
    {
        self.init || self.set_output_dir.is_some() || self.set_dpi.is_some()
            || self.set_device.is_some()
    }
}

/// Makes the changes that a user asks for.
pub fn apply_config_updates(config: &mut AppConfig, request: ConfigRequest)
    ensures
        final(config).output.output_dir@ == (match opt_text(request.set_output_dir) {
            Some(text) => text,
            None => old(config).output.output_dir@,
        }),
        final(config).capture.default_dpi == (match request.set_dpi {
            Some(dpi) => dpi,
            None => old(config).capture.default_dpi,
        }),
        final(config).capture.last_device_id@ == (match opt_text(request.set_device) {
            Some(text) => text,
            None => old(config).capture.last_device_id@,
        }),
        final(config).processing == old(config).processing,
        final(config)@ == updated(
            old(config)@,
            opt_text(request.set_output_dir),
            request.set_dpi,
            opt_text(request.set_device),
        ),
{
    if let Some(output_dir) = request.set_output_dir {
        config.output.output_dir = output_dir;
    }
    if let Some(dpi) = request.set_dpi {
        config.capture.default_dpi = dpi;
    }
    if let Some(device) = request.set_device {
        config.capture.last_device_id = device;
    }
}

/// A request that changes nothing leaves the configuration as it is.
pub proof fn empty_updates_change_nothing(config: Settings)
    ensures
        updated(config, None, None, None) == config,
{
}

// ---------------------------------------------------------------------------
// Processing
// ---------------------------------------------------------------------------

/// The rectangle that configured components make, where they make one.
pub open spec fn configured_crop(crop: Option<[i32; 4]>) -> Option<Rect> {
    match crop {
        Some(values) => crop_rect(values_of(values)),
        None => None,
    }
}

/// The processing that a configuration asks for.
pub open spec fn configured_prefs(p: Processing) -> Prefs {
    Prefs {
        rotate: Rotate::of_degrees(p.rotate as int),
        flip_h: p.flip_h,
        flip_v: p.flip_v,
        crop: configured_crop(p.crop),
        invert: p.invert_colors,
        curves: p.curves,
        brightness: p.brightness,
        contrast: p.contrast,
        desaturate: p.desaturate,
        levels_black: p.levels_black,
        levels_white: p.levels_white,
        levels_gamma: p.levels_gamma,
        auto_deskew: p.auto_deskew,
        deskew_angle: p.deskew_angle,
        auto_orient: p.auto_orient,
        auto_crop: p.auto_crop,
        white_balance: p.white_balance,
        sharpen_amount: p.sharpen_amount,
        auto_levels: p.auto_levels,
        saturation: p.saturation,
        hue: p.hue,
        descreen: p.descreen,
        descreen_dpi: p.descreen_dpi,
        restore_colors: p.restore_colors,
        restore_fading: p.restore_fading,
        flatten: p.flatten,
        hole_punch: p.hole_punch,
        infrared_clean: p.infrared_clean,
        grain_reduction: p.grain_reduction,
        colorize_mode: p.colorize_mode,
        film_type: p.film_type,
    }
}

fn configured_rect(crop: Option<[i32; 4]>) -> (r: Option<Rect>)
    ensures
        r == configured_crop(crop),
{
    match crop {
        Some(values) => rect_of(values),
        None => None,
    }
}

impl AppConfig {
    /// The processing that the configuration asks for.
    #[verifier::spinoff_prover]
    #[verifier::rlimit(60)]
    pub fn to_pipeline_prefs(&self) -> (r: PipelinePrefs)
        ensures
            (self.processing.rotate - r.rotate.spec_degrees()) % 360 == 0 || (r.rotate == Rotate::R0
                && self.processing.rotate % 90 != 0),
            r.flip_h == self.processing.flip_h,
            r.flip_v == self.processing.flip_v,
            r.invert == self.processing.invert_colors,
            r.brightness == self.processing.brightness,
            r.contrast == self.processing.contrast,
            r.desaturate == self.processing.desaturate,
            r.levels_black == self.processing.levels_black,
            r.levels_white == self.processing.levels_white,
            r.levels_gamma == self.processing.levels_gamma,
            r.auto_deskew == self.processing.auto_deskew,
            r.deskew_angle == self.processing.deskew_angle,
            r.auto_orient == self.processing.auto_orient,
            r.auto_crop == self.processing.auto_crop,
            r.white_balance == self.processing.white_balance,
            r.sharpen_amount == self.processing.sharpen_amount,
            r.auto_levels == self.processing.auto_levels,
            r.saturation == self.processing.saturation,
            r.hue == self.processing.hue,
            r.descreen == self.processing.descreen,
            r.descreen_dpi == self.processing.descreen_dpi,
            r.restore_colors == self.processing.restore_colors,
            r.restore_fading == self.processing.restore_fading,
            r.flatten == self.processing.flatten,
            r.hole_punch == self.processing.hole_punch,
            opt_text(r.infrared_clean) == opt_text(self.processing.infrared_clean),
            opt_text(r.grain_reduction) == opt_text(self.processing.grain_reduction),
            opt_text(r.colorize_mode) == opt_text(self.processing.colorize_mode),
            opt_text(r.film_type) == opt_text(self.processing.film_type),
            opt_points(r.curves) == opt_points(self.processing.curves),
            self.processing.crop is None ==> r.crop is None,
            r.crop matches Some(rect) ==> self.processing.crop is Some && rect.x == self.processing.crop->0[0]
                && rect.y == self.processing.crop->0[1] && rect.width == self.processing.crop->0[2]
                && rect.height == self.processing.crop->0[3],
            self.processing.crop matches Some(sides) ==> (r.crop is Some <==> sides[2] > 0 && sides[3] > 0),
            r@ == configured_prefs(self@.processing),
    {
        let p = &self.processing;
        PipelinePrefs {
            rotate: Rotate::from_degrees(p.rotate),
            flip_h: p.flip_h,
            flip_v: p.flip_v,
            crop: configured_rect(p.crop),
            invert: p.invert_colors,
            curves: copy_points(&p.curves),
            brightness: p.brightness,
            contrast: p.contrast,
            desaturate: p.desaturate,
            levels_black: p.levels_black,
            levels_white: p.levels_white,
            levels_gamma: p.levels_gamma,
            auto_deskew: p.auto_deskew,
            deskew_angle: p.deskew_angle,
            auto_orient: p.auto_orient,
            auto_crop: p.auto_crop,
            white_balance: p.white_balance,
            sharpen_amount: p.sharpen_amount,
            auto_levels: p.auto_levels,
            saturation: p.saturation,
            hue: p.hue,
            descreen: p.descreen,
            descreen_dpi: p.descreen_dpi,
            restore_colors: p.restore_colors,
            restore_fading: p.restore_fading,
            flatten: p.flatten,
            hole_punch: p.hole_punch,
            infrared_clean: copy_opt(&p.infrared_clean),
            grain_reduction: copy_opt(&p.grain_reduction),
            colorize_mode: copy_opt(&p.colorize_mode),
            film_type: copy_opt(&p.film_type),
        }
    }
}

} // verus!
