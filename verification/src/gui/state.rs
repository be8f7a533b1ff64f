//! What the desktop surface holds: its controls, its document session and its secrets.

use crate::acquisition::{Request, ScanMode, ScanRequest, MIN_SCAN_DPI};
use crate::crop::{crop_line, crop_rect, padded, rect_of};
use crate::curves::{curve_of, parse_curve_points};
use crate::export::{Export, ExportOptions, OcrEngine};
use crate::gui::{
    crop_text_value, crop_texts_are_read_back, image_ext, normalize_image_ext, parse_crop_string,
};
use crate::image::{Rect, Rotate};
use crate::processing::{
    copy_opt, larger, opt_points, opt_text, PipelinePrefs, Prefs, Real,
};
use crate::settings::{AppConfig, Settings};
use crate::text::{
    chars_of, copy_strings, decimal, equal_letters, lower_all, lower_chars, push_decimal,
    push_signed, same_letters, same_text, signed, strings, text_of, trim, trimmed,
};
use vstd::prelude::*;
use vstd::string::StringExecFns;

verus! {

/// The controls of acquisition.
#[derive(Debug)]
pub struct CaptureControls {
    pub device: String,
    pub devices: Vec<String>,
    pub width: u32,
    pub height: u32,
    pub dpi: u32,
    pub media: String,
    pub duplex: bool,
    pub batch_pages: u32,
}

/// The controls of acquisition; texts are sequences.
pub struct CaptureChoice {
    pub device: Seq<char>,
    pub devices: Seq<Seq<char>>,
    pub width: u32,
    pub height: u32,
    pub dpi: u32,
    pub media: Seq<char>,
    pub duplex: bool,
    pub batch_pages: u32,
}

impl View for CaptureControls {
    type V = CaptureChoice;

    open spec fn view(&self) -> CaptureChoice {
        CaptureChoice {
            device: self.device@,
            devices: strings(self.devices@),
            width: self.width,
            height: self.height,
            dpi: self.dpi,
            media: self.media@,
            duplex: self.duplex,
            batch_pages: self.batch_pages,
        }
    }
}

/// The controls of processing.
#[derive(Debug)]
pub struct ProcessingControls {
    pub rotate: i32,
    pub flip_h: bool,
    pub flip_v: bool,
    pub crop_text: String,
    pub brightness: i32,
    pub contrast: i32,
    pub saturation: Real,
    pub hue: Real,
    pub curves_text: String,
    pub desaturate: bool,
    pub levels_black: i32,
    pub levels_white: i32,
    pub levels_gamma: Real,
    pub auto_deskew: bool,
    pub deskew_angle: Real,
    pub auto_orient: bool,
    pub auto_crop: bool,
    pub white_balance: bool,
    pub infrared_clean: String,
    pub sharpen_amount: Real,
    pub descreen: bool,
    pub descreen_dpi: i32,
    pub invert_colors: bool,
    pub auto_levels: bool,
    pub restore_colors: bool,
    pub restore_fading: bool,
    pub grain_reduction: String,
    pub flatten: bool,
    pub hole_punch: bool,
    pub colorize_mode: String,
    pub film_type: String,
}

/// The controls of processing; texts are sequences.
pub struct ProcessingChoice {
    pub rotate: i32,
    pub flip_h: bool,
    pub flip_v: bool,
    pub crop_text: Seq<char>,
    pub brightness: i32,
    pub contrast: i32,
    pub saturation: Real,
    pub hue: Real,
    pub curves_text: Seq<char>,
    pub desaturate: bool,
    pub levels_black: i32,
    pub levels_white: i32,
    pub levels_gamma: Real,
    pub auto_deskew: bool,
    pub deskew_angle: Real,
    pub auto_orient: bool,
    pub auto_crop: bool,
    pub white_balance: bool,
    pub infrared_clean: Seq<char>,
    pub sharpen_amount: Real,
    pub descreen: bool,
    pub descreen_dpi: i32,
    pub invert_colors: bool,
    pub auto_levels: bool,
    pub restore_colors: bool,
    pub restore_fading: bool,
    pub grain_reduction: Seq<char>,
    pub flatten: bool,
    pub hole_punch: bool,
    pub colorize_mode: Seq<char>,
    pub film_type: Seq<char>,
}

impl View for ProcessingControls {
    type V = ProcessingChoice;

    open spec fn view(&self) -> ProcessingChoice {
        ProcessingChoice {
            rotate: self.rotate,
            flip_h: self.flip_h,
            flip_v: self.flip_v,
            crop_text: self.crop_text@,
            brightness: self.brightness,
            contrast: self.contrast,
            saturation: self.saturation,
            hue: self.hue,
            curves_text: self.curves_text@,
            desaturate: self.desaturate,
            levels_black: self.levels_black,
            levels_white: self.levels_white,
            levels_gamma: self.levels_gamma,
            auto_deskew: self.auto_deskew,
            deskew_angle: self.deskew_angle,
            auto_orient: self.auto_orient,
            auto_crop: self.auto_crop,
            white_balance: self.white_balance,
            infrared_clean: self.infrared_clean@,
            sharpen_amount: self.sharpen_amount,
            descreen: self.descreen,
            descreen_dpi: self.descreen_dpi,
            invert_colors: self.invert_colors,
            auto_levels: self.auto_levels,
            restore_colors: self.restore_colors,
            restore_fading: self.restore_fading,
            grain_reduction: self.grain_reduction@,
            flatten: self.flatten,
            hole_punch: self.hole_punch,
            colorize_mode: self.colorize_mode@,
            film_type: self.film_type@,
        }
    }
}

/// The controls of output.
#[derive(Debug)]
pub struct OutputControls {
    pub output_dir: String,
    pub output_name: String,
    pub output_fmt: String,
    pub multipage: bool,
    pub multipage_format: String,
    pub save_raw: bool,
    pub contact_sheet: bool,
    pub language: String,
    pub ocr_engine: String,
    pub ocr_language: String,
    pub searchable_pdf: bool,
    pub scanner_profile_path: String,
    pub open_path_input: String,
}

/// The controls of output; texts are sequences.
pub struct OutputChoice {
    pub output_dir: Seq<char>,
    pub output_name: Seq<char>,
    pub output_fmt: Seq<char>,
    pub multipage: bool,
    pub multipage_format: Seq<char>,
    pub save_raw: bool,
    pub contact_sheet: bool,
    pub language: Seq<char>,
    pub ocr_engine: Seq<char>,
    pub ocr_language: Seq<char>,
    pub searchable_pdf: bool,
    pub scanner_profile_path: Seq<char>,
    pub open_path_input: Seq<char>,
}

impl View for OutputControls {
    type V = OutputChoice;

    open spec fn view(&self) -> OutputChoice {
        OutputChoice {
            output_dir: self.output_dir@,
            output_name: self.output_name@,
            output_fmt: self.output_fmt@,
            multipage: self.multipage,
            multipage_format: self.multipage_format@,
            save_raw: self.save_raw,
            contact_sheet: self.contact_sheet,
            language: self.language@,
            ocr_engine: self.ocr_engine@,
            ocr_language: self.ocr_language@,
            searchable_pdf: self.searchable_pdf,
            scanner_profile_path: self.scanner_profile_path@,
            open_path_input: self.open_path_input@,
        }
    }
}

// ---------------------------------------------------------------------------
// Status
// ---------------------------------------------------------------------------

/// What the status line says; fixed messages are translated where they are shown.
#[derive(Debug)]
pub enum Status {
    Ready,
    ConfigError(String),
    Idle,
    OpenPrompt,
    OpenError,
    Cancelled,
    Scanning,
    Saving,
    Processing,
    Error(String),
    Done(String),
    DoneFrame { path: String, frame: i32 },
    BatchDone(usize),
    Recognized { engine: String, text: String },
    ConfigSaved(String),
    Devices(usize),
    Message(String),
}

/// What the status line says, its texts as sequences.
pub enum StatusText {
    Ready,
    ConfigError(Seq<char>),
    Idle,
    OpenPrompt,
    OpenError,
    Cancelled,
    Scanning,
    Saving,
    Processing,
    Error(Seq<char>),
    Done(Seq<char>),
    DoneFrame { path: Seq<char>, frame: i32 },
    BatchDone(usize),
    Recognized { engine: Seq<char>, text: Seq<char> },
    ConfigSaved(Seq<char>),
    Devices(usize),
    Message(Seq<char>),
}

impl View for Status {
    type V = StatusText;

    open spec fn view(&self) -> StatusText {
        match self {
            Status::Ready => StatusText::Ready,
            Status::ConfigError(text) => StatusText::ConfigError(text@),
            Status::Idle => StatusText::Idle,
            Status::OpenPrompt => StatusText::OpenPrompt,
            Status::OpenError => StatusText::OpenError,
            Status::Cancelled => StatusText::Cancelled,
            Status::Scanning => StatusText::Scanning,
            Status::Saving => StatusText::Saving,
            Status::Processing => StatusText::Processing,
            Status::Error(text) => StatusText::Error(text@),
            Status::Done(path) => StatusText::Done(path@),
            Status::DoneFrame { path, frame } => StatusText::DoneFrame {
                path: path@,
                frame: *frame,
            },
            Status::BatchDone(count) => StatusText::BatchDone(*count),
            Status::Recognized { engine, text } => StatusText::Recognized {
                engine: engine@,
                text: text@,
            },
            Status::ConfigSaved(path) => StatusText::ConfigSaved(path@),
            Status::Devices(count) => StatusText::Devices(*count),
            Status::Message(text) => StatusText::Message(text@),
        }
    }
}

// ---------------------------------------------------------------------------
// Document sessions
// ---------------------------------------------------------------------------

/// One multipage destination with the pages saved to it so far and the controls that it was begun
/// with. A candidate of the next save has the same shape.
#[derive(Debug)]
pub struct MultipageSession {
    pub destination: String,
    pub sources: Vec<String>,
    pub export: ExportOptions,
}

/// What a multipage destination holds.
pub struct Session {
    pub destination: Seq<char>,
    pub sources: Seq<Seq<char>>,
    pub export: Export,
}

impl View for MultipageSession {
    type V = Session;

    open spec fn view(&self) -> Session {
        Session {
            destination: self.destination@,
            sources: strings(self.sources@),
            export: self.export@,
        }
    }
}

/// What an optional session holds.
pub open spec fn opt_session(o: Option<MultipageSession>) -> Option<Session> {
    match o {
        Some(session) => Some(session@),
        None => None,
    }
}

/// What the desktop surface holds.
#[derive(Debug)]
pub struct GuiState {
    pub config: AppConfig,
    pub config_path: String,
    pub config_load_error: Option<String>,
    pub config_recovery_required: bool,
    pub capture: CaptureControls,
    pub processing: ProcessingControls,
    pub output: OutputControls,
    /// Runtime-only PDF password. It is never copied to the configuration.
    pub pdf_password: String,
    pub status: Status,
    pub last_image: Option<String>,
    pub multipage_session: Option<MultipageSession>,
    pub frame_index: i32,
    pub cancel_requested: bool,
    pub scanning: bool,
}

/// What the desktop surface holds, its texts as sequences.
pub struct Gui {
    pub config: Settings,
    pub config_path: Seq<char>,
    pub config_load_error: Option<Seq<char>>,
    pub config_recovery_required: bool,
    pub capture: CaptureChoice,
    pub processing: ProcessingChoice,
    pub output: OutputChoice,
    pub pdf_password: Seq<char>,
    pub status: StatusText,
    pub last_image: Option<Seq<char>>,
    pub session: Option<Session>,
    pub frame_index: i32,
    pub cancel_requested: bool,
    pub scanning: bool,
}

impl View for GuiState {
    type V = Gui;

    open spec fn view(&self) -> Gui {
        Gui {
            config: self.config@,
            config_path: self.config_path@,
            config_load_error: opt_text(self.config_load_error),
            config_recovery_required: self.config_recovery_required,
            capture: self.capture@,
            processing: self.processing@,
            output: self.output@,
            pdf_password: self.pdf_password@,
            status: self.status@,
            last_image: opt_text(self.last_image),
            session: opt_session(self.multipage_session),
            frame_index: self.frame_index,
            cancel_requested: self.cancel_requested,
            scanning: self.scanning,
        }
    }
}

// ---------------------------------------------------------------------------
// Construction
// ---------------------------------------------------------------------------

/// The text without surrounding blanks, or a fallback where nothing is left.
pub open spec fn nonempty(value: Seq<char>, fallback: Seq<char>) -> Seq<char> {
    if trim(value).len() == 0 {
        fallback
    } else {
        trim(value)
    }
}

/// The text without surrounding blanks, or a fallback where nothing is left.
pub fn nonempty_or(value: &str, fallback: &str) -> (r: String)
    ensures
        r@ == nonempty(value@, fallback@),
{
    let chars = chars_of(value);
    let text = trimmed(chars.as_slice());
    if text.len() == 0 {
        fallback.to_owned()
    } else {
        text_of(text)
    }
}

/// The name of a medium.
pub open spec fn media_name(mode: ScanMode) -> Seq<char> {
    match mode {
        ScanMode::Reflective => "flatbed"@,
        ScanMode::Film => "film"@,
        ScanMode::Document => "document"@,
    }
}

/// The name of a medium.
pub fn media_for_scan_mode(mode: ScanMode) -> (r: &'static str)
    ensures
        mode is Reflective ==> r@ == "flatbed"@,
        mode is Film ==> r@ == "film"@,
        mode is Document ==> r@ == "document"@,
        r@ == media_name(mode),
{
    match mode {
        ScanMode::Reflective => "flatbed",
        ScanMode::Film => "film",
        ScanMode::Document => "document",
    }
}

/// The acquisition mode of a medium.
pub open spec fn media_mode(media: Seq<char>) -> ScanMode {
    if media == "adf"@ || media == "document"@ {
        ScanMode::Document
    } else if media == "transparency"@ || media == "film"@ {
        ScanMode::Film
    } else {
        ScanMode::Reflective
    }
}

/// The OCR engine that is shown for a configured one.
pub open spec fn engine_name(value: Seq<char>) -> Seq<char> {
    if same_letters(value, "tesseract"@) {
        "tesseract"@
    } else {
        "offline"@
    }
}

/// The OCR engine that is shown for a configured one.
pub fn ocr_engine(value: &str) -> (r: String)
    ensures
        same_letters(value@, "tesseract"@) ==> r@ == "tesseract"@,
        !same_letters(value@, "tesseract"@) ==> r@ == "offline"@,
        r@ == engine_name(value@),
{
    let left = chars_of(value);
    let right = chars_of("tesseract");
    if equal_letters(left.as_slice(), right.as_slice()) {
        "tesseract".to_owned()
    } else {
        "offline".to_owned()
    }
}

/// The multipage container that is shown for a configured one.
pub open spec fn container_format(value: Seq<char>) -> Seq<char> {
    if lower_all(value) == "tif"@ || lower_all(value) == "tiff"@ {
        "tif"@
    } else {
        "pdf"@
    }
}

/// The multipage container that is shown for a configured one.
pub fn multipage_format(value: &str) -> (r: String)
    ensures
        r@ == "tif"@ || r@ == "pdf"@,
        lower_all(value@) == "tif"@ || lower_all(value@) == "tiff"@ ==> r@ == "tif"@,
        lower_all(value@) != "tif"@ && lower_all(value@) != "tiff"@ ==> r@ == "pdf"@,
        r@ == container_format(value@),
{
    let chars = chars_of(value);
    let lowered = lower_chars(chars.as_slice());
    let text = text_of(lowered.as_slice());
    if same_text(text.as_str(), "tif") || same_text(text.as_str(), "tiff") {
        "tif".to_owned()
    } else {
        "pdf".to_owned()
    }
}

/// The device that is selected at first: the configured one, else the first that was found, else
/// the mock.
pub open spec fn first_device(configured: Seq<char>, devices: Seq<Seq<char>>) -> Seq<char> {
    if configured.len() > 0 {
        configured
    } else if devices.len() > 0 {
        devices[0]
    } else {
        "mock"@
    }
}

fn is_blank_text(text: &str) -> (r: bool)
    ensures
        r == (text@.len() == 0),
{
    text.chars().next().is_none()
}

fn select_device(configured: &str, devices: &Vec<String>) -> (r: String)
    ensures
        r@ == first_device(configured@, strings(devices@)),
{
    if !is_blank_text(configured) {
        configured.to_owned()
    } else if devices.len() > 0 {
        assert(strings(devices@)[0] == devices@[0]@);
        devices[0].clone()
    } else {
        "mock".to_owned()
    }
}

/// The output directory, the current one where none is configured.
pub open spec fn output_directory(configured: Seq<char>) -> Seq<char> {
    if configured.len() == 0 {
        "."@
    } else {
        configured
    }
}

/// A crop rectangle as text; none is blank.
#[verifier::opaque]
pub open spec fn crop_as_text(crop: Option<Rect>) -> Seq<char> {
    match crop {
        None => Seq::empty(),
        Some(rect) => signed(rect.x as int) + ","@ + signed(rect.y as int) + ","@ + decimal(
            rect.width as nat,
        ) + ","@ + decimal(rect.height as nat),
    }
}

/// A crop rectangle as text; none is blank.
pub fn crop_text(crop: Option<Rect>) -> (r: String)
    ensures
        r@ == crop_as_text(crop),
{
    proof {
        reveal(crop_as_text);
    }
    let mut out = String::new();
    if let Some(rect) = crop {
        push_signed(&mut out, rect.x);
        out.append(",");
        push_signed(&mut out, rect.y);
        out.append(",");
        push_decimal(&mut out, rect.width as u64);
        out.append(",");
        push_decimal(&mut out, rect.height as u64);
        assert(out@ =~= crop_as_text(crop));
    }
    assert(out@ =~= crop_as_text(crop));
    out
}

/// A choice as it is shown: `off` where there is none.
pub open spec fn shown_choice(o: Option<Seq<char>>) -> Seq<char> {
    match o {
        Some(text) => text,
        None => "off"@,
    }
}

fn show_choice(o: &Option<String>) -> (r: String)
    ensures
        r@ == shown_choice(opt_text(*o)),
{
    match o {
        Some(text) => text.clone(),
        None => "off".to_owned(),
    }
}

/// A text as it is shown: blank where there is none.
pub open spec fn shown_text(o: Option<Seq<char>>) -> Seq<char> {
    match o {
        Some(text) => text,
        None => Seq::empty(),
    }
}

fn show_text(o: &Option<String>) -> (r: String)
    ensures
        r@ == shown_text(opt_text(*o)),
{
    match o {
        Some(text) => text.clone(),
        None => {
            let blank = String::new();
            assert(blank@ =~= Seq::<char>::empty());
            blank
        },
    }
}

/// The controls of acquisition at first; sizes and resolution have a lower bound.
pub open spec fn first_capture(
    acquisition: Request,
    config: Settings,
    devices: Seq<Seq<char>>,
) -> CaptureChoice {
    CaptureChoice {
        device: first_device(config.capture.last_device_id, devices),
        devices,
        width: larger(acquisition.width as int, 16) as u32,
        height: larger(acquisition.height as int, 16) as u32,
        dpi: larger(acquisition.dpi_x as int, MIN_SCAN_DPI as int) as u32,
        media: media_name(acquisition.mode),
        duplex: acquisition.duplex,
        batch_pages: larger(config.capture.batch_pages as int, 1) as u32,
    }
}

/// The controls of processing at first.
pub open spec fn first_processing(pipeline: Prefs, curves_text: Seq<char>) -> ProcessingChoice {
    ProcessingChoice {
        rotate: pipeline.rotate.spec_degrees() as i32,
        flip_h: pipeline.flip_h,
        flip_v: pipeline.flip_v,
        crop_text: crop_as_text(pipeline.crop),
        brightness: pipeline.brightness,
        contrast: pipeline.contrast,
        saturation: pipeline.saturation,
        hue: pipeline.hue,
        curves_text,
        desaturate: pipeline.desaturate,
        levels_black: pipeline.levels_black,
        levels_white: pipeline.levels_white,
        levels_gamma: pipeline.levels_gamma,
        auto_deskew: pipeline.auto_deskew,
        deskew_angle: pipeline.deskew_angle,
        auto_orient: pipeline.auto_orient,
        auto_crop: pipeline.auto_crop,
        white_balance: pipeline.white_balance,
        infrared_clean: shown_choice(pipeline.infrared_clean),
        sharpen_amount: pipeline.sharpen_amount,
        descreen: pipeline.descreen,
        descreen_dpi: pipeline.descreen_dpi,
        invert_colors: pipeline.invert,
        auto_levels: pipeline.auto_levels,
        restore_colors: pipeline.restore_colors,
        restore_fading: pipeline.restore_fading,
        grain_reduction: shown_choice(pipeline.grain_reduction),
        flatten: pipeline.flatten,
        hole_punch: pipeline.hole_punch,
        colorize_mode: shown_choice(pipeline.colorize_mode),
        film_type: shown_text(pipeline.film_type),
    }
}

/// The controls of output at first.
pub open spec fn first_output(config: Settings, language: Seq<char>) -> OutputChoice {
    OutputChoice {
        output_dir: output_directory(config.output.output_dir),
        output_name: nonempty(config.output.output_name, "scan"@),
        output_fmt: image_ext(config.output.output_format, "png"@),
        multipage: config.output.multipage,
        multipage_format: container_format(config.output.multipage_format),
        save_raw: config.output.save_raw,
        contact_sheet: config.output.contact_sheet,
        language,
        ocr_engine: engine_name(config.output.ocr_engine),
        ocr_language: nonempty(config.output.ocr_language, "eng"@),
        searchable_pdf: false,
        scanner_profile_path: Seq::empty(),
        open_path_input: Seq::empty(),
    }
}

/// The surface at first: nothing is opened, no secret is held, and a configuration that could not
/// be loaded has to be given up explicitly before it is replaced.
pub open spec fn first_state(
    config: Settings,
    config_path: Seq<char>,
    load_error: Option<Seq<char>>,
    acquisition: Request,
    pipeline: Prefs,
    curves_text: Seq<char>,
    devices: Seq<Seq<char>>,
    language: Seq<char>,
) -> Gui {
    Gui {
        config,
        config_path,
        config_load_error: load_error,
        config_recovery_required: load_error is Some,
        capture: first_capture(acquisition, config, devices),
        processing: first_processing(pipeline, curves_text),
        output: first_output(config, language),
        pdf_password: Seq::empty(),
        status: match load_error {
            Some(text) => StatusText::ConfigError(text),
            None => StatusText::Ready,
        },
        last_image: None,
        session: None,
        frame_index: 0,
        cancel_requested: false,
        scanning: false,
    }
}

fn capture_controls(acquisition: &ScanRequest, config: &AppConfig, devices: Vec<String>) -> (r:
    CaptureControls)
    ensures
        r@ == first_capture(acquisition@, config@, strings(devices@)),
{
    let device = select_device(config.capture.last_device_id.as_str(), &devices);
    CaptureControls {
        device,
        devices,
        width: if acquisition.width < 16 {
            16
        } else {
            acquisition.width
        },
        height: if acquisition.height < 16 {
            16
        } else {
            acquisition.height
        },
        dpi: if acquisition.dpi_x < MIN_SCAN_DPI {
            MIN_SCAN_DPI
        } else {
            acquisition.dpi_x
        },
        media: media_for_scan_mode(acquisition.mode).to_owned(),
        duplex: acquisition.duplex,
        batch_pages: if config.capture.batch_pages < 1 {
            1
        } else {
            config.capture.batch_pages
        },
    }
}

#[verifier::spinoff_prover]
#[verifier::rlimit(60)]
fn processing_controls(pipeline: &PipelinePrefs, curves_text: String) -> (r: ProcessingControls)
    ensures
        r.flip_h == pipeline.flip_h,
        r.flip_v == pipeline.flip_v,
        r.brightness == pipeline.brightness,
        r.contrast == pipeline.contrast,
        r.saturation == pipeline.saturation,
        r.hue == pipeline.hue,
        r.desaturate == pipeline.desaturate,
        r.levels_black == pipeline.levels_black,
        r.levels_white == pipeline.levels_white,
        r.levels_gamma == pipeline.levels_gamma,
        r.auto_deskew == pipeline.auto_deskew,
        r.deskew_angle == pipeline.deskew_angle,
        r.auto_orient == pipeline.auto_orient,
        r.auto_crop == pipeline.auto_crop,
        r.white_balance == pipeline.white_balance,
        r.sharpen_amount == pipeline.sharpen_amount,
        r.descreen == pipeline.descreen,
        r.descreen_dpi == pipeline.descreen_dpi,
        r.auto_levels == pipeline.auto_levels,
        r.restore_colors == pipeline.restore_colors,
        r.restore_fading == pipeline.restore_fading,
        r.flatten == pipeline.flatten,
        r.hole_punch == pipeline.hole_punch,
        r.invert_colors == pipeline.invert,
        r.rotate == pipeline.rotate.spec_degrees(),
        r.infrared_clean@ == (match opt_text(pipeline.infrared_clean) {
            Some(text) => text,
            None => "off"@,
        }),
        r.grain_reduction@ == (match opt_text(pipeline.grain_reduction) {
            Some(text) => text,
            None => "off"@,
        }),
        r.colorize_mode@ == (match opt_text(pipeline.colorize_mode) {
            Some(text) => text,
            None => "off"@,
        }),
        r.film_type@ == (match opt_text(pipeline.film_type) {
            Some(text) => text,
            None => Seq::empty(),
        }),
        r.curves_text@ == curves_text@,
        r@ == first_processing(pipeline@, curves_text@),
{
    ProcessingControls {
        rotate: pipeline.rotate.degrees(),
        flip_h: pipeline.flip_h,
        flip_v: pipeline.flip_v,
        crop_text: crop_text(pipeline.crop),
        brightness: pipeline.brightness,
        contrast: pipeline.contrast,
        saturation: pipeline.saturation,
        hue: pipeline.hue,
        curves_text,
        desaturate: pipeline.desaturate,
        levels_black: pipeline.levels_black,
        levels_white: pipeline.levels_white,
        levels_gamma: pipeline.levels_gamma,
        auto_deskew: pipeline.auto_deskew,
        deskew_angle: pipeline.deskew_angle,
        auto_orient: pipeline.auto_orient,
        auto_crop: pipeline.auto_crop,
        white_balance: pipeline.white_balance,
        infrared_clean: show_choice(&pipeline.infrared_clean),
        sharpen_amount: pipeline.sharpen_amount,
        descreen: pipeline.descreen,
        descreen_dpi: pipeline.descreen_dpi,
        invert_colors: pipeline.invert,
        auto_levels: pipeline.auto_levels,
        restore_colors: pipeline.restore_colors,
        restore_fading: pipeline.restore_fading,
        grain_reduction: show_choice(&pipeline.grain_reduction),
        flatten: pipeline.flatten,
        hole_punch: pipeline.hole_punch,
        colorize_mode: show_choice(&pipeline.colorize_mode),
        film_type: show_text(&pipeline.film_type),
    }
}

fn output_controls(config: &AppConfig, language: String) -> (r: OutputControls)
    ensures
        r@ == first_output(config@, language@),
{
    let output_dir = if is_blank_text(config.output.output_dir.as_str()) {
        ".".to_owned()
    } else {
        config.output.output_dir.clone()
    };
    let scanner_profile_path = String::new();
    let open_path_input = String::new();
    assert(scanner_profile_path@ =~= Seq::<char>::empty());
    assert(open_path_input@ =~= Seq::<char>::empty());
    OutputControls {
        output_dir,
        output_name: nonempty_or(config.output.output_name.as_str(), "scan"),
        output_fmt: normalize_image_ext(config.output.output_format.as_str(), "png"),
        multipage: config.output.multipage,
        multipage_format: multipage_format(config.output.multipage_format.as_str()),
        save_raw: config.output.save_raw,
        contact_sheet: config.output.contact_sheet,
        language,
        ocr_engine: ocr_engine(config.output.ocr_engine.as_str()),
        ocr_language: nonempty_or(config.output.ocr_language.as_str(), "eng"),
        searchable_pdf: false,
        scanner_profile_path,
        open_path_input,
    }
}

impl GuiState {
    /// The surface at first, given the configuration and what it resolves to.
    #[verifier::spinoff_prover]
    #[verifier::rlimit(60)]
    pub fn new(
        config: AppConfig,
        config_path: String,
        config_load_error: Option<String>,
        acquisition: &ScanRequest,
        pipeline: &PipelinePrefs,
        curves_text: String,
        devices: Vec<String>,
        language: String,
    ) -> (r: Self)
        ensures
            config.capture.last_device_id@.len() > 0 ==> r.capture.device@ == config.capture.last_device_id@,
            strings(r.capture.devices@) == strings(devices@),
            acquisition.width >= 16 ==> r.capture.width == acquisition.width,
            acquisition.width < 16 ==> r.capture.width == 16,
            acquisition.height >= 16 ==> r.capture.height == acquisition.height,
            acquisition.height < 16 ==> r.capture.height == 16,
            acquisition.dpi_x >= MIN_SCAN_DPI ==> r.capture.dpi == acquisition.dpi_x,
            acquisition.dpi_x < MIN_SCAN_DPI ==> r.capture.dpi == MIN_SCAN_DPI,
            acquisition.mode == ScanMode::Reflective ==> r.capture.media@ == "flatbed"@,
            acquisition.mode == ScanMode::Film ==> r.capture.media@ == "film"@,
            acquisition.mode == ScanMode::Document ==> r.capture.media@ == "document"@,
            r.capture.duplex == acquisition.duplex,
            config.capture.batch_pages >= 1 ==> r.capture.batch_pages == config.capture.batch_pages,
            config.capture.batch_pages == 0 ==> r.capture.batch_pages == 1,
            r.processing.flip_h == pipeline.flip_h,
            r.processing.flip_v == pipeline.flip_v,
            r.processing.brightness == pipeline.brightness,
            r.processing.contrast == pipeline.contrast,
            r.processing.saturation == pipeline.saturation,
            r.processing.hue == pipeline.hue,
            r.processing.desaturate == pipeline.desaturate,
            r.processing.levels_black == pipeline.levels_black,
            r.processing.levels_white == pipeline.levels_white,
            r.processing.levels_gamma == pipeline.levels_gamma,
            r.processing.auto_deskew == pipeline.auto_deskew,
            r.processing.deskew_angle == pipeline.deskew_angle,
            r.processing.auto_orient == pipeline.auto_orient,
            r.processing.auto_crop == pipeline.auto_crop,
            r.processing.white_balance == pipeline.white_balance,
            r.processing.sharpen_amount == pipeline.sharpen_amount,
            r.processing.descreen == pipeline.descreen,
            r.processing.descreen_dpi == pipeline.descreen_dpi,
            r.processing.auto_levels == pipeline.auto_levels,
            r.processing.restore_colors == pipeline.restore_colors,
            r.processing.restore_fading == pipeline.restore_fading,
            r.processing.flatten == pipeline.flatten,
            r.processing.hole_punch == pipeline.hole_punch,
            r.processing.invert_colors == pipeline.invert,
            r.processing.rotate == pipeline.rotate.spec_degrees(),
            r.processing.infrared_clean@ == (match opt_text(pipeline.infrared_clean) {
                Some(text) => text,
                None => "off"@,
            }),
            r.processing.grain_reduction@ == (match opt_text(pipeline.grain_reduction) {
                Some(text) => text,
                None => "off"@,
            }),
            r.processing.colorize_mode@ == (match opt_text(pipeline.colorize_mode) {
                Some(text) => text,
                None => "off"@,
            }),
            r.processing.film_type@ == (match opt_text(pipeline.film_type) {
                Some(text) => text,
                None => Seq::empty(),
            }),
            r.processing.curves_text@ == curves_text@,
            trim(config.output.output_name@).len() > 0 ==> r.output.output_name@ == trim(
                config.output.output_name@,
            ),
            trim(config.output.output_name@).len() == 0 ==> r.output.output_name@ == "scan"@,
            r.output.multipage == config.output.multipage,
            r.output.save_raw == config.output.save_raw,
            r.output.contact_sheet == config.output.contact_sheet,
            r.output.language@ == language@,
            trim(config.output.ocr_language@).len() > 0 ==> r.output.ocr_language@ == trim(
                config.output.ocr_language@,
            ),
            trim(config.output.ocr_language@).len() == 0 ==> r.output.ocr_language@ == "eng"@,
            !r.output.searchable_pdf,
            r.pdf_password@.len() == 0,
            r.config_recovery_required <==> config_load_error is Some,
            r.config@ == config@,
            r.config_path@ == config_path@,
            r.last_image is None,
            r.frame_index == 0,
            !r.scanning && !r.cancel_requested,
            r@ == first_state(
                config@,
                config_path@,
                opt_text(config_load_error),
                acquisition@,
                pipeline@,
                curves_text@,
                strings(devices@),
                language@,
            ),
    {
        let capture = capture_controls(acquisition, &config, devices);
        let processing = processing_controls(pipeline, curves_text);
        let output = output_controls(&config, language);
        let status = match &config_load_error {
            Some(text) => Status::ConfigError(text.clone()),
            None => Status::Ready,
        };
        let pdf_password = String::new();
        assert(pdf_password@ =~= Seq::<char>::empty());
        let config_recovery_required = config_load_error.is_some();
        GuiState {
            config,
            config_path,
            config_load_error,
            config_recovery_required,
            capture,
            processing,
            output,
            pdf_password,
            status,
            last_image: None,
            multipage_session: None,
            frame_index: 0,
            cancel_requested: false,
            scanning: false,
        }
    }

    /// The acquisition mode of the selected medium.
    pub fn scan_mode(&self) -> (r: ScanMode)
        ensures
            self.capture.media@ == "adf"@ || self.capture.media@ == "document"@ ==> r == ScanMode::Document,
            self.capture.media@ == "transparency"@ || self.capture.media@ == "film"@ ==> r == ScanMode::Film,
            self.capture.media@ != "adf"@ && self.capture.media@ != "document"@ && self.capture.media@
                != "transparency"@ && self.capture.media@ != "film"@ ==> r == ScanMode::Reflective,
            r == media_mode(self@.capture.media),
    {
        proof {
            reveal_strlit("adf");
            reveal_strlit("document");
            reveal_strlit("transparency");
            reveal_strlit("film");
            assert("film"@.len() != "adf"@.len() && "film"@.len() != "document"@.len());
            assert("transparency"@.len() != "adf"@.len());
            assert("transparency"@.len() != "document"@.len());
        }
        let media = self.capture.media.as_str();
        if same_text(media, "adf") || same_text(media, "document") {
            ScanMode::Document
        } else if same_text(media, "transparency") || same_text(media, "film") {
            ScanMode::Film
        } else {
            ScanMode::Reflective
        }
    }
}

// ---------------------------------------------------------------------------
// Processing preferences
// ---------------------------------------------------------------------------

/// A choice where it is not `off`.
pub open spec fn active_choice(text: Seq<char>) -> Option<Seq<char>> {
    if text == "off"@ {
        None
    } else {
        Some(text)
    }
}

/// A choice where it is not `off`.
pub fn active(text: &String) -> (r: Option<String>)
    ensures
        text@ == "off"@ ==> r is None,
        text@ != "off"@ ==> r is Some && r->0@ == text@,
        opt_text(r) == active_choice(text@),
{
    if same_text(text.as_str(), "off") {
        None
    } else {
        Some(text.clone())
    }
}

/// A text where it is not blank.
pub open spec fn filled(text: Seq<char>) -> Option<Seq<char>> {
    if trim(text).len() == 0 {
        None
    } else {
        Some(text)
    }
}

/// A text where it is not blank.
pub fn filled_text(text: &String) -> (r: Option<String>)
    ensures
        opt_text(r) == filled(text@),
{
    let chars = chars_of(text.as_str());
    if trimmed(chars.as_slice()).len() == 0 {
        None
    } else {
        Some(text.clone())
    }
}

/// The crop that the text asks for: none where it is blank, no crop or empty.
#[verifier::opaque]
pub open spec fn control_crop(text: Seq<char>) -> Option<Rect> {
    match crop_text_value(text) {
        Ok(Some(values)) => crop_rect(values),
        _ => None,
    }
}

fn crop_of_text(text: &str) -> (r: Option<Rect>)
    ensures
        r == control_crop(text@),
{
    proof {
        reveal(control_crop);
    }
    match parse_crop_string(text) {
        Ok(Some(crop)) => rect_of(crop),
        _ => None,
    }
}

/// A crop that is shown as text is the crop that the text asks for. The sides of a rectangle that can
/// be written are positive integers of 32 bits with a sign.
pub proof fn shown_crops_are_read_back(crop: Option<Rect>)
    requires
        crop matches Some(rect) ==> 0 < rect.width <= i32::MAX && 0 < rect.height <= i32::MAX,
    ensures
        control_crop(crop_as_text(crop)) == crop,
{
    reveal(control_crop);
    reveal(crop_as_text);
    if let Some(rect) = crop {
        reveal_strlit(",");
        let values = seq![
            rect.x as int,
            rect.y as int,
            rect.width as int,
            rect.height as int,
        ];
        let none = seq![Seq::<char>::empty(), Seq::empty(), Seq::empty(), Seq::empty()];
        let parts = Seq::new(4, |i: int| padded(none[i], values[i], none[i]));
        crop_texts_are_read_back(values, none, none);
        assert(parts[0] =~= signed(values[0]));
        assert(parts[1] =~= signed(values[1]));
        assert(parts[2] =~= signed(values[2]));
        assert(parts[3] =~= signed(values[3]));
        assert(","@ =~= seq![',']);
        assert(crop_as_text(crop) =~= crop_line(parts));
    }
}

/// The points that a curves text gives; a text that is no curve gives none.
pub open spec fn control_curves(text: Seq<char>) -> Option<Seq<(int, int)>> {
    match curve_of(text) {
        Ok(points) => points,
        Err(_) => None,
    }
}

/// The preferences that the controls ask for.
pub open spec fn control_prefs(controls: ProcessingChoice) -> Prefs {
    Prefs {
        rotate: Rotate::of_degrees(controls.rotate as int),
        flip_h: controls.flip_h,
        flip_v: controls.flip_v,
        crop: control_crop(controls.crop_text),
        brightness: controls.brightness,
        contrast: controls.contrast,
        desaturate: controls.desaturate,
        levels_black: controls.levels_black,
        levels_white: controls.levels_white,
        levels_gamma: controls.levels_gamma,
        auto_deskew: controls.auto_deskew,
        deskew_angle: controls.deskew_angle,
        auto_orient: controls.auto_orient,
        auto_crop: controls.auto_crop,
        white_balance: controls.white_balance,
        sharpen_amount: controls.sharpen_amount,
        invert: controls.invert_colors,
        auto_levels: controls.auto_levels,
        saturation: controls.saturation,
        hue: controls.hue,
        curves: control_curves(controls.curves_text),
        infrared_clean: active_choice(controls.infrared_clean),
        descreen: controls.descreen,
        descreen_dpi: controls.descreen_dpi,
        restore_colors: controls.restore_colors,
        restore_fading: controls.restore_fading,
        grain_reduction: active_choice(controls.grain_reduction),
        flatten: controls.flatten,
        hole_punch: controls.hole_punch,
        colorize_mode: active_choice(controls.colorize_mode),
        film_type: filled(controls.film_type),
    }
}

impl GuiState {
    /// The preferences that the controls ask for.
    #[verifier::spinoff_prover]
    #[verifier::rlimit(60)]
    pub fn pipeline_prefs(&self) -> (r: PipelinePrefs)
        ensures
            self.processing.rotate % 90 == 0 ==> (self.processing.rotate - r.rotate.spec_degrees()) % 360 == 0,
            r.flip_h == self.processing.flip_h,
            r.flip_v == self.processing.flip_v,
            r.brightness == self.processing.brightness,
            r.contrast == self.processing.contrast,
            r.saturation == self.processing.saturation,
            r.hue == self.processing.hue,
            r.desaturate == self.processing.desaturate,
            r.levels_black == self.processing.levels_black,
            r.levels_white == self.processing.levels_white,
            r.levels_gamma == self.processing.levels_gamma,
            r.auto_deskew == self.processing.auto_deskew,
            r.deskew_angle == self.processing.deskew_angle,
            r.auto_orient == self.processing.auto_orient,
            r.auto_crop == self.processing.auto_crop,
            r.white_balance == self.processing.white_balance,
            r.sharpen_amount == self.processing.sharpen_amount,
            r.descreen == self.processing.descreen,
            r.descreen_dpi == self.processing.descreen_dpi,
            r.auto_levels == self.processing.auto_levels,
            r.restore_colors == self.processing.restore_colors,
            r.restore_fading == self.processing.restore_fading,
            r.flatten == self.processing.flatten,
            r.hole_punch == self.processing.hole_punch,
            r.invert == self.processing.invert_colors,
            self.processing.infrared_clean@ == "off"@ ==> r.infrared_clean is None,
            self.processing.infrared_clean@ != "off"@ ==> opt_text(r.infrared_clean) == Some(self.processing.infrared_clean@),
            self.processing.grain_reduction@ == "off"@ ==> r.grain_reduction is None,
            self.processing.grain_reduction@ != "off"@ ==> opt_text(r.grain_reduction) == Some(self.processing.grain_reduction@),
            self.processing.colorize_mode@ == "off"@ ==> r.colorize_mode is None,
            self.processing.colorize_mode@ != "off"@ ==> opt_text(r.colorize_mode) == Some(self.processing.colorize_mode@),
            trim(self.processing.film_type@).len() == 0 ==> r.film_type is None,
            trim(self.processing.film_type@).len() > 0 ==> opt_text(r.film_type) == Some(self.processing.film_type@),
            r@ == control_prefs(self@.processing),
    {
        prefs_of_controls(&self.processing)
    }
}

fn points_of_text(text: &str) -> (r: Option<Vec<[i32; 2]>>)
    ensures
        opt_points(r) == control_curves(text@),
{
    match parse_curve_points(text) {
        Ok(points) => points,
        Err(_) => None,
    }
}

#[verifier::spinoff_prover]
#[verifier::rlimit(60)]
fn prefs_of_controls(p: &ProcessingControls) -> (r: PipelinePrefs)
    ensures
        p.rotate % 90 == 0 ==> (p.rotate - r.rotate.spec_degrees()) % 360 == 0,
        r.flip_h == p.flip_h,
        r.flip_v == p.flip_v,
        r.brightness == p.brightness,
        r.contrast == p.contrast,
        r.saturation == p.saturation,
        r.hue == p.hue,
        r.desaturate == p.desaturate,
        r.levels_black == p.levels_black,
        r.levels_white == p.levels_white,
        r.levels_gamma == p.levels_gamma,
        r.auto_deskew == p.auto_deskew,
        r.deskew_angle == p.deskew_angle,
        r.auto_orient == p.auto_orient,
        r.auto_crop == p.auto_crop,
        r.white_balance == p.white_balance,
        r.sharpen_amount == p.sharpen_amount,
        r.descreen == p.descreen,
        r.descreen_dpi == p.descreen_dpi,
        r.auto_levels == p.auto_levels,
        r.restore_colors == p.restore_colors,
        r.restore_fading == p.restore_fading,
        r.flatten == p.flatten,
        r.hole_punch == p.hole_punch,
        r.invert == p.invert_colors,
        p.infrared_clean@ == "off"@ ==> r.infrared_clean is None,
        p.infrared_clean@ != "off"@ ==> opt_text(r.infrared_clean) == Some(p.infrared_clean@),
        p.grain_reduction@ == "off"@ ==> r.grain_reduction is None,
        p.grain_reduction@ != "off"@ ==> opt_text(r.grain_reduction) == Some(p.grain_reduction@),
        p.colorize_mode@ == "off"@ ==> r.colorize_mode is None,
        p.colorize_mode@ != "off"@ ==> opt_text(r.colorize_mode) == Some(p.colorize_mode@),
        trim(p.film_type@).len() == 0 ==> r.film_type is None,
        trim(p.film_type@).len() > 0 ==> opt_text(r.film_type) == Some(p.film_type@),
        r@ == control_prefs(p@),
{
    PipelinePrefs {
        rotate: Rotate::from_degrees(p.rotate),
        flip_h: p.flip_h,
        flip_v: p.flip_v,
        crop: crop_of_text(p.crop_text.as_str()),
        brightness: p.brightness,
        contrast: p.contrast,
        desaturate: p.desaturate,
        levels_black: p.levels_black,
        levels_white: p.levels_white,
        levels_gamma: p.levels_gamma,
        auto_deskew: p.auto_deskew,
        deskew_angle: p.deskew_angle,
        auto_orient: p.auto_orient,
        auto_crop: p.auto_crop,
        white_balance: p.white_balance,
        sharpen_amount: p.sharpen_amount,
        invert: p.invert_colors,
        auto_levels: p.auto_levels,
        saturation: p.saturation,
        hue: p.hue,
        curves: points_of_text(p.curves_text.as_str()),
        infrared_clean: active(&p.infrared_clean),
        descreen: p.descreen,
        descreen_dpi: p.descreen_dpi,
        restore_colors: p.restore_colors,
        restore_fading: p.restore_fading,
        grain_reduction: active(&p.grain_reduction),
        flatten: p.flatten,
        hole_punch: p.hole_punch,
        colorize_mode: active(&p.colorize_mode),
        film_type: filled_text(&p.film_type),
    }
}

// ---------------------------------------------------------------------------
// Secrets and export controls
// ---------------------------------------------------------------------------

/// The export controls that the surface asks for.
pub open spec fn control_export(output: OutputChoice, password: Seq<char>) -> Export {
    Export {
        pdf_password: if password.len() == 0 {
            None
        } else {
            Some(password)
        },
        searchable_pdf: output.searchable_pdf,
        ocr_language: nonempty(output.ocr_language, "eng"@),
        ocr_engine: if output.ocr_engine == "tesseract"@ {
            OcrEngine::Tesseract
        } else {
            OcrEngine::Offline
        },
        scanner_profile: if trim(output.scanner_profile_path).len() == 0 {
            None
        } else {
            Some(trim(output.scanner_profile_path))
        },
    }
}

/// The surface after a snapshot of its export controls was taken: the password went with it.
pub open spec fn without_password(state: Gui) -> Gui {
    Gui { pdf_password: Seq::empty(), ..state }
}

/// The surface after a failed export: a password that it consumed is put back, unless another one
/// was entered in the meantime.
pub open spec fn with_restored_password(state: Gui, password: Option<Seq<char>>) -> Gui {
    match password {
        Some(text) => if state.pdf_password.len() == 0 {
            Gui { pdf_password: text, ..state }
        } else {
            state
        },
        None => state,
    }
}

impl GuiState {
    /// The export controls that the surface asks for.
    #[verifier::spinoff_prover]
    #[verifier::rlimit(60)]
    pub fn export_options(&self) -> (r: ExportOptions)
        ensures
            self.pdf_password@.len() == 0 ==> r.pdf_password is None,
            self.pdf_password@.len() > 0 ==> opt_text(r.pdf_password) == Some(self.pdf_password@),
            r.searchable_pdf == self.output.searchable_pdf,
            trim(self.output.ocr_language@).len() == 0 ==> r.ocr_language@ == "eng"@,
            trim(self.output.ocr_language@).len() > 0 ==> r.ocr_language@ == trim(self.output.ocr_language@),
            r.ocr_engine == OcrEngine::Tesseract <==> self.output.ocr_engine@ == "tesseract"@,
            trim(self.output.scanner_profile_path@).len() == 0 ==> r.scanner_profile is None,
            trim(self.output.scanner_profile_path@).len() > 0 ==> opt_text(r.scanner_profile) == Some(
                trim(self.output.scanner_profile_path@),
            ),
            r@ == control_export(self@.output, self@.pdf_password),
    {
        let pdf_password = if is_blank_text(self.pdf_password.as_str()) {
            None
        } else {
            Some(self.pdf_password.clone())
        };
        let chars = chars_of(self.output.scanner_profile_path.as_str());
        let profile = trimmed(chars.as_slice());
        let scanner_profile = if profile.len() == 0 {
            None
        } else {
            Some(text_of(profile))
        };
        ExportOptions {
            pdf_password,
            searchable_pdf: self.output.searchable_pdf,
            ocr_language: nonempty_or(self.output.ocr_language.as_str(), "eng"),
            ocr_engine: if same_text(self.output.ocr_engine.as_str(), "tesseract") {
                OcrEngine::Tesseract
            } else {
                OcrEngine::Offline
            },
            scanner_profile,
        }
    }

    /// Snapshots the export controls for a worker; the password is cleared as soon as it has been
    /// copied.
    pub fn take_export_options(&mut self) -> (r: ExportOptions)
        ensures
            opt_text(r.pdf_password) == (if old(self).pdf_password@.len() == 0 {
                None
            } else {
                Some(old(self).pdf_password@)
            }),
            final(self).pdf_password@.len() == 0,
            r.searchable_pdf == old(self).output.searchable_pdf,
            r@ == control_export(old(self)@.output, old(self)@.pdf_password),
            final(self)@ == without_password(old(self)@),
    {
        let export = self.export_options();
        self.pdf_password = String::new();
        assert(self.pdf_password@ =~= Seq::<char>::empty());
        export
    }

    /// Puts back a password that a failed export consumed, unless another one was entered in the
    /// meantime.
    pub fn restore_export_password(&mut self, password: Option<String>)
        ensures
            old(self).pdf_password@.len() > 0 || password is None ==> final(self).pdf_password@ == old(
                self,
            ).pdf_password@,
            old(self).pdf_password@.len() == 0 && password is Some ==> final(self).pdf_password@ == password->0@,
            final(self)@ == with_restored_password(old(self)@, opt_text(password)),
    {
        if is_blank_text(self.pdf_password.as_str()) {
            if let Some(text) = password {
                self.pdf_password = text;
            }
        }
        assert(self@.pdf_password =~= with_restored_password(
            old(self)@,
            opt_text(password),
        ).pdf_password);
    }
}

/// An export that fails leaves the password as it was: what a snapshot takes, a failure puts back.
pub proof fn failed_exports_keep_the_password(state: Gui)
    ensures
        with_restored_password(
            without_password(state),
            control_export(state.output, state.pdf_password).pdf_password,
        ) == state,
{
    let back = with_restored_password(
        without_password(state),
        control_export(state.output, state.pdf_password).pdf_password,
    );
    assert(back.pdf_password =~= state.pdf_password);
}

/// A password that was entered in the meantime is never overwritten.
pub proof fn new_passwords_win(state: Gui, consumed: Option<Seq<char>>)
    requires
        state.pdf_password.len() > 0,
    ensures
        with_restored_password(state, consumed) == state,
{
}

// ---------------------------------------------------------------------------
// Multipage documents
// ---------------------------------------------------------------------------

/// The candidate of the next save, and the password that it consumes: a session of the same
/// destination goes on with one more page and its own controls, any other destination begins anew.
pub open spec fn next_candidate(state: Gui, destination: Seq<char>, source: Seq<char>) -> (
    Session,
    Option<Seq<char>>,
) {
    match state.session {
        Some(session) => if session.destination == destination {
            (
                Session { sources: session.sources.push(source), ..session },
                None,
            )
        } else {
            fresh_candidate(state, destination, source)
        },
        None => fresh_candidate(state, destination, source),
    }
}

/// The candidate of the first save to a destination.
pub open spec fn fresh_candidate(state: Gui, destination: Seq<char>, source: Seq<char>) -> (
    Session,
    Option<Seq<char>>,
) {
    let export = control_export(state.output, state.pdf_password);
    (Session { destination, sources: seq![source], export }, export.pdf_password)
}

/// Whether a save goes on with the session of the surface.
pub open spec fn continues(state: Gui, destination: Seq<char>) -> bool {
    state.session matches Some(session) && session.destination == destination
}

/// The surface after a candidate was taken: a fresh one has taken the password with it.
pub open spec fn after_candidate(state: Gui, destination: Seq<char>) -> Gui {
    if continues(state, destination) {
        state
    } else {
        without_password(state)
    }
}

/// The surface after a candidate was published: it is the session now, and no password is held.
pub open spec fn committed(state: Gui, candidate: Session) -> Gui {
    Gui { session: Some(candidate), pdf_password: Seq::empty(), ..state }
}

/// Whether a working image is still needed: it is the current one, or a page of the session.
pub open spec fn references(state: Gui, path: Seq<char>) -> bool {
    state.last_image == Some(path) || (state.session matches Some(session)
        && session.sources.contains(path))
}

impl GuiState {
    /// Takes the candidate of a multipage save, without changing the session.
    pub fn take_multipage_save_candidate(&mut self, destination: &str, source: &str) -> (r: (
        MultipageSession,
        Option<String>,
    ))
        ensures
            r.0.destination@ == destination@,
            r.0.sources@.len() > 0 && r.0.sources@.last()@ == source@,
            old(self).multipage_session is None ==> r.0.sources@.len() == 1 && final(self).pdf_password@.len() == 0,
            (r.0@, opt_text(r.1)) == next_candidate(old(self)@, destination@, source@),
            final(self)@ == after_candidate(old(self)@, destination@),
    {
        if let Some(session) = &self.multipage_session {
            if same_text(session.destination.as_str(), destination) {
                let mut sources = copy_strings(&session.sources);
                let ghost before = strings(sources@);
                sources.push(source.to_owned());
                assert(strings(sources@) =~= before.push(source@));
                return (
                    MultipageSession {
                        destination: destination.to_owned(),
                        sources,
                        export: session.export.clone(),
                    },
                    None,
                );
            }
        }
        let export = self.take_export_options();
        let pending = copy_opt(&export.pdf_password);
        let mut sources: Vec<String> = Vec::new();
        sources.push(source.to_owned());
        assert(strings(sources@) =~= seq![source@]);
        (MultipageSession { destination: destination.to_owned(), sources, export }, pending)
    }

    /// Makes a candidate the session, once its container was published.
    pub fn commit_multipage_save(&mut self, candidate: MultipageSession)
        ensures
            final(self)@ == committed(old(self)@, candidate@),
    {
        self.multipage_session = Some(candidate);
        self.pdf_password = String::new();
        assert(self.pdf_password@ =~= Seq::<char>::empty());
    }

    /// Ends the session.
    pub fn clear_multipage_session(&mut self)
        ensures
            final(self)@ == (Gui { session: None, ..old(self)@ }),
    {
        self.multipage_session = None;
    }

    /// Whether a working image is still needed.
    pub fn references_working_source(&self, path: &str) -> (r: bool)
        ensures
            r == references(self@, path@),
    {
        if let Some(last) = &self.last_image {
            if same_text(last.as_str(), path) {
                return true;
            }
        }
        match &self.multipage_session {
            None => false,
            Some(session) => {
                let mut i: usize = 0;
                while i < session.sources.len()
                    invariant
                        i <= session.sources@.len(),
                        opt_session(self.multipage_session) == Some(session@),
                        forall|j: int|
                            0 <= j < i ==> #[trigger] strings(session.sources@)[j] != path@,
                    decreases session.sources@.len() - i,
                {
                    assert(strings(session.sources@)[i as int] == session.sources@[i as int]@);
                    if same_text(session.sources[i].as_str(), path) {
                        return true;
                    }
                    i += 1;
                }
                false
            },
        }
    }
}

/// Pages gather: after two saves to one destination its session holds both sources in order, with
/// the controls that it was begun with.
pub proof fn pages_gather_per_destination(
    state: Gui,
    destination: Seq<char>,
    first: Seq<char>,
    second: Seq<char>,
)
    requires
        !continues(state, destination),
    ensures
        ({
            let one = next_candidate(state, destination, first).0;
            let after = committed(after_candidate(state, destination), one);
            let two = next_candidate(after, destination, second).0;
            &&& one.sources == seq![first]
            &&& two.sources == seq![first, second]
            &&& two.destination == destination
            &&& two.export == one.export
            &&& next_candidate(after, destination, second).1 is None
        }),
{
    let one = next_candidate(state, destination, first).0;
    let after = committed(after_candidate(state, destination), one);
    let two = next_candidate(after, destination, second).0;
    assert(two.sources =~= seq![first, second]);
}

/// Another destination begins a new document: nothing of the earlier session goes into it.
pub proof fn new_destinations_begin_anew(
    state: Gui,
    destination: Seq<char>,
    source: Seq<char>,
)
    requires
        !continues(state, destination),
    ensures
        next_candidate(state, destination, source).0.sources == seq![source],
        next_candidate(state, destination, source).0.export == control_export(
            state.output,
            state.pdf_password,
        ),
{
}

/// A failed multipage save leaves the surface as it was, the password and the session with it, so
/// that it can be tried again.
pub proof fn failed_multipage_saves_can_be_retried(
    state: Gui,
    destination: Seq<char>,
    source: Seq<char>,
)
    ensures
        with_restored_password(
            after_candidate(state, destination),
            next_candidate(state, destination, source).1,
        ) == state,
{
    failed_exports_keep_the_password(state);
}

} // verus!
