//! Command-line requests: from options and configuration to what is run.

use crate::acquisition::ScanMode;
use crate::batch::{copy_output, opt_target, Batch, BatchOutput, BatchScanArgs, Target};
use crate::crop::CropParseError;
use crate::error::{Failure, ScanError};
use crate::export::{Export, ExportOptions, OcrEngine};
use crate::overrides::{
    apply_explicit_bool, chosen, pipeline_with_overrides, with_overrides, PipelineOverrides,
};
use crate::paths::{extension_of_name, name_extension};
use crate::processing::{larger, opt_text, PipelinePrefs, Prefs};
use crate::settings::{AppConfig, Settings};
use crate::text::{
    chars_of, equal_letters, lower_all, lower_chars, same_letters, same_text, text_of,
};
use vstd::prelude::*;
use vstd::string::StringExecFns;

verus! {

/// Where sheets are scanned from.
#[derive(Debug, Clone, Copy, PartialEq, Eq, Structural)]
pub enum ScanSource {
    Flatbed,
    Adf,
    Film,
}

impl ScanSource {
    /// The acquisition mode of a source.
    pub open spec fn spec_mode(self) -> ScanMode {
        match self {
            ScanSource::Flatbed => ScanMode::Reflective,
            ScanSource::Adf => ScanMode::Document,
            ScanSource::Film => ScanMode::Film,
        }
    }

    /// The acquisition mode of a source.
    pub fn mode(self) -> (r: ScanMode)
        ensures
            self is Flatbed ==> r is Reflective,
            self is Adf ==> r is Document,
            self is Film ==> r is Film,
            r == self.spec_mode(),
    {
        match self {
            ScanSource::Flatbed => ScanMode::Reflective,
            ScanSource::Adf => ScanMode::Document,
            ScanSource::Film => ScanMode::Film,
        }
    }
}

/// The explicit source's mode, or the configured one.
pub open spec fn mode_choice(configured: ScanMode, source: Option<ScanSource>) -> ScanMode {
    match source {
        Some(source) => source.spec_mode(),
        None => configured,
    }
}

fn choose_mode(configured: ScanMode, source: Option<ScanSource>) -> (r: ScanMode)
    ensures
        r == mode_choice(configured, source),
{
    match source {
        Some(source) => source.mode(),
        None => configured,
    }
}

fn choose_count(configured: u32, explicit: Option<u32>) -> (r: u32)
    ensures
        r == chosen(configured, explicit),
{
    match explicit {
        Some(value) => value,
        None => configured,
    }
}

fn choose_text(configured: &String, explicit: &Option<String>) -> (r: String)
    ensures
        r@ == chosen(configured@, opt_text(*explicit)),
{
    match explicit {
        Some(value) => value.clone(),
        None => configured.clone(),
    }
}

// ---------------------------------------------------------------------------
// Export options
// ---------------------------------------------------------------------------

/// Explicit export choices.
#[derive(Debug)]
pub struct ExportOptionOverrides {
    pub pdf_searchable: bool,
    pub ocr_language: Option<String>,
    pub ocr_engine: Option<OcrEngine>,
    pub scanner_profile: Option<String>,
}

/// The OCR engine that a configuration names.
pub open spec fn configured_engine(value: Seq<char>) -> Result<OcrEngine, Seq<char>> {
    let lowered = lower_all(value);
    if lowered == "offline"@ {
        Ok(OcrEngine::Offline)
    } else if lowered == "tesseract"@ {
        Ok(OcrEngine::Tesseract)
    } else {
        Err("config OCR engine must be offline or tesseract"@)
    }
}

/// The OCR engine that a configuration names.
pub fn ocr_engine_from_config(value: &str) -> (r: Result<OcrEngine, String>)
    ensures
        match configured_engine(value@) {
            Ok(engine) => r == Ok::<OcrEngine, String>(engine),
            Err(text) => r is Err && r->Err_0@ == text,
        },
{
    let chars = chars_of(value);
    let lowered = lower_chars(chars.as_slice());
    let word = text_of(lowered.as_slice());
    if same_text(word.as_str(), "offline") {
        Ok(OcrEngine::Offline)
    } else if same_text(word.as_str(), "tesseract") {
        Ok(OcrEngine::Tesseract)
    } else {
        Err("config OCR engine must be offline or tesseract".to_owned())
    }
}

/// The OCR language that was chosen, explicitly or by configuration.
pub fn chosen_ocr_language(config: &AppConfig, overrides: &ExportOptionOverrides) -> (r: String)
    ensures
        r@ == chosen(config@.output.ocr_language, opt_text(overrides.ocr_language)),
{
    choose_text(&config.output.ocr_language, &overrides.ocr_language)
}

/// The export controls of a command, given its password and whether the chosen OCR language was
/// accepted: the first thing that is wrong is reported.
pub open spec fn export_choice(
    config: Settings,
    searchable: bool,
    language: Option<Seq<char>>,
    engine: Option<OcrEngine>,
    profile: Option<Seq<char>>,
    password: Result<Option<Seq<char>>, Seq<char>>,
    language_check: Result<(), Failure>,
) -> Result<Export, Seq<char>> {
    match password {
        Err(text) => Err(text),
        Ok(password) => match language_check {
            Err(failure) => Err(failure.text()),
            Ok(_) => {
                let engine = match engine {
                    Some(engine) => Ok(engine),
                    None => configured_engine(config.output.ocr_engine),
                };
                match engine {
                    Err(text) => Err(text),
                    Ok(engine) => Ok(
                        Export {
                            pdf_password: password,
                            searchable_pdf: searchable,
                            ocr_language: chosen(config.output.ocr_language, language),
                            ocr_engine: engine,
                            scanner_profile: profile,
                        },
                    ),
                }
            },
        },
    }
}

/// Makes the export controls of a command before it can write anything.
#[verifier::spinoff_prover]
#[verifier::rlimit(60)]
pub fn build_export_options(
    config: &AppConfig,
    overrides: ExportOptionOverrides,
    password: Result<Option<String>, String>,
    language_check: Result<(), ScanError>,
) -> (r: Result<ExportOptions, String>)
    ensures
        r is Ok <==> password is Ok && language_check is Ok && (overrides.ocr_engine is Some || lower_all(
            config.output.ocr_engine@,
        ) == "offline"@ || lower_all(config.output.ocr_engine@) == "tesseract"@),
        r is Ok ==> opt_text(r->Ok_0.pdf_password) == opt_text(password->Ok_0),
        r is Ok ==> r->Ok_0.searchable_pdf == overrides.pdf_searchable,
        r is Ok ==> r->Ok_0.ocr_language@ == (match opt_text(overrides.ocr_language) {
            Some(language) => language,
            None => config.output.ocr_language@,
        }),
        r is Ok && overrides.ocr_engine is Some ==> r->Ok_0.ocr_engine == overrides.ocr_engine->0,
        r is Ok && overrides.ocr_engine is None ==> (r->Ok_0.ocr_engine == OcrEngine::Tesseract <==> lower_all(
            config.output.ocr_engine@,
        ) == "tesseract"@),
        r is Ok ==> opt_text(r->Ok_0.scanner_profile) == opt_text(overrides.scanner_profile),
        match export_choice(
            config@,
            overrides.pdf_searchable,
            opt_text(overrides.ocr_language),
            overrides.ocr_engine,
            opt_text(overrides.scanner_profile),
            match password {
                Ok(password) => Ok(opt_text(password)),
                Err(text) => Err(text@),
            },
            crate::error::outcome(language_check),
        ) {
            Ok(export) => r is Ok && r->Ok_0@ == export,
            Err(text) => r is Err && r->Err_0@ == text,
        },
{
    proof {
        reveal_strlit("offline");
        reveal_strlit("tesseract");
        assert("offline"@.len() != "tesseract"@.len());
    }
    let pdf_password = match password {
        Ok(password) => password,
        Err(text) => {
            return Err(text);
        },
    };
    let ocr_language = chosen_ocr_language(config, &overrides);
    match language_check {
        Ok(()) => {},
        Err(error) => {
            return Err(error.message());
        },
    }
    let ocr_engine = match overrides.ocr_engine {
        Some(engine) => engine,
        None => match ocr_engine_from_config(config.output.ocr_engine.as_str()) {
            Ok(engine) => engine,
            Err(text) => {
                return Err(text);
            },
        },
    };
    Ok(
        ExportOptions {
            pdf_password,
            searchable_pdf: overrides.pdf_searchable,
            ocr_language,
            ocr_engine,
            scanner_profile: overrides.scanner_profile,
        },
    )
}

// ---------------------------------------------------------------------------
// Single scans and files
// ---------------------------------------------------------------------------

/// Explicit choices of one acquisition.
#[derive(Debug)]
pub struct Acquisition {
    pub device: Option<String>,
    pub out: String,
    pub width: Option<u32>,
    pub height: Option<u32>,
    pub seed: u32,
    pub dpi: Option<u32>,
    pub source: Option<ScanSource>,
    pub duplex: Option<bool>,
    pub invert: Option<bool>,
    pub raw_out: Option<String>,
}

/// A scan into a file.
#[derive(Debug)]
pub struct ScanToFileArgs {
    pub device: Option<String>,
    pub out: String,
    pub width: u32,
    pub height: u32,
    pub seed: u32,
    pub dpi: u32,
    pub mode: ScanMode,
    pub duplex: bool,
    pub pipeline: PipelinePrefs,
    pub invert_colors: bool,
    pub use_preview: bool,
    pub raw_out: Option<String>,
}

/// What a scan into a file is.
pub struct FileScan {
    pub device: Option<Seq<char>>,
    pub out: Seq<char>,
    pub width: u32,
    pub height: u32,
    pub seed: u32,
    pub dpi: u32,
    pub mode: ScanMode,
    pub duplex: bool,
    pub pipeline: Prefs,
    pub invert_colors: bool,
    pub use_preview: bool,
    pub raw_out: Option<Seq<char>>,
}

impl View for ScanToFileArgs {
    type V = FileScan;

    open spec fn view(&self) -> FileScan {
        FileScan {
            device: opt_text(self.device),
            out: self.out@,
            width: self.width,
            height: self.height,
            seed: self.seed,
            dpi: self.dpi,
            mode: self.mode,
            duplex: self.duplex,
            pipeline: self.pipeline@,
            invert_colors: self.invert_colors,
            use_preview: self.use_preview,
            raw_out: opt_text(self.raw_out),
        }
    }
}

/// The scan of a command: every explicit choice stands, and the configuration fills in the rest.
pub open spec fn file_scan(acquisition: Acquisition, config: Settings, pipeline: Prefs) -> FileScan {
    FileScan {
        device: Some(chosen(config.capture.last_device_id, opt_text(acquisition.device))),
        out: acquisition.out@,
        width: chosen(config.capture.default_width, acquisition.width),
        height: chosen(config.capture.default_height, acquisition.height),
        seed: acquisition.seed,
        dpi: chosen(config.capture.default_dpi, acquisition.dpi),
        mode: mode_choice(config.capture.scan_mode, acquisition.source),
        duplex: chosen(config.capture.duplex, acquisition.duplex),
        pipeline,
        invert_colors: chosen(config.processing.invert_colors, acquisition.invert),
        use_preview: false,
        raw_out: opt_text(acquisition.raw_out),
    }
}

/// Makes the scan of a command.
#[verifier::spinoff_prover]
#[verifier::rlimit(60)]
pub fn scan_args(acquisition: Acquisition, config: &AppConfig, pipeline: PipelinePrefs) -> (r:
    ScanToFileArgs)
    ensures
        opt_text(r.device) == Some(match opt_text(acquisition.device) {
            Some(device) => device,
            None => config.capture.last_device_id@,
        }),
        r.out@ == acquisition.out@,
        r.width == (match acquisition.width {
            Some(value) => value,
            None => config.capture.default_width,
        }),
        r.height == (match acquisition.height {
            Some(value) => value,
            None => config.capture.default_height,
        }),
        r.seed == acquisition.seed,
        r.dpi == (match acquisition.dpi {
            Some(value) => value,
            None => config.capture.default_dpi,
        }),
        acquisition.source == Some(ScanSource::Flatbed) ==> r.mode == ScanMode::Reflective,
        acquisition.source == Some(ScanSource::Adf) ==> r.mode == ScanMode::Document,
        acquisition.source == Some(ScanSource::Film) ==> r.mode == ScanMode::Film,
        acquisition.source is None ==> r.mode == config.capture.scan_mode,
        r.duplex == (match acquisition.duplex {
            Some(value) => value,
            None => config.capture.duplex,
        }),
        r.pipeline == pipeline,
        r.invert_colors == (match acquisition.invert {
            Some(value) => value,
            None => config.processing.invert_colors,
        }),
        !r.use_preview,
        opt_text(r.raw_out) == opt_text(acquisition.raw_out),
        r@ == file_scan(acquisition, config@, pipeline@),
{
    ScanToFileArgs {
        device: Some(choose_text(&config.capture.last_device_id, &acquisition.device)),
        out: acquisition.out,
        width: choose_count(config.capture.default_width, acquisition.width),
        height: choose_count(config.capture.default_height, acquisition.height),
        seed: acquisition.seed,
        dpi: choose_count(config.capture.default_dpi, acquisition.dpi),
        mode: choose_mode(config.capture.scan_mode, acquisition.source),
        duplex: apply_explicit_bool(config.capture.duplex, acquisition.duplex),
        pipeline,
        invert_colors: apply_explicit_bool(config.processing.invert_colors, acquisition.invert),
        use_preview: false,
        raw_out: acquisition.raw_out,
    }
}

/// The preferences with explicit automatic crop and orientation.
pub open spec fn with_automatic(
    prefs: Prefs,
    auto_crop: Option<bool>,
    auto_orient: Option<bool>,
) -> Prefs {
    Prefs {
        auto_crop: chosen(prefs.auto_crop, auto_crop),
        auto_orient: chosen(prefs.auto_orient, auto_orient),
        ..prefs
    }
}

fn apply_automatic(pipeline: PipelinePrefs, auto_crop: Option<bool>, auto_orient: Option<bool>) -> (r:
    PipelinePrefs)
    ensures
        r@ == with_automatic(pipeline@, auto_crop, auto_orient),
{
    PipelinePrefs {
        auto_crop: apply_explicit_bool(pipeline.auto_crop, auto_crop),
        auto_orient: apply_explicit_bool(pipeline.auto_orient, auto_orient),
        ..pipeline
    }
}

fn set_invert(pipeline: PipelinePrefs, invert: bool) -> (r: PipelinePrefs)
    ensures
        r@ == (Prefs { invert, ..pipeline@ }),
{
    PipelinePrefs { invert, ..pipeline }
}

/// The processing of a scan command: color inversion is part of the scan, not of it.
pub open spec fn scan_processing(
    configured: Prefs,
    overrides: PipelineOverrides,
    auto_crop: Option<bool>,
    auto_orient: Option<bool>,
) -> Result<Prefs, CropParseError> {
    match with_overrides(configured, overrides) {
        Err(error) => Err(error),
        Ok(prefs) => Ok(with_automatic(prefs, auto_crop, auto_orient)),
    }
}

/// Makes the processing of a scan command.
#[verifier::spinoff_prover]
#[verifier::rlimit(60)]
pub fn scan_pipeline(
    configured: &PipelinePrefs,
    overrides: &PipelineOverrides,
    auto_crop: Option<bool>,
    auto_orient: Option<bool>,
) -> (r: Result<PipelinePrefs, CropParseError>)
    ensures
        r is Ok ==> r->Ok_0.invert == configured.invert,
        r is Ok ==> r->Ok_0.auto_crop == (match auto_crop {
            Some(value) => value,
            None => configured.auto_crop,
        }),
        r is Ok ==> r->Ok_0.auto_orient == (match auto_orient {
            Some(value) => value,
            None => configured.auto_orient,
        }),
        match scan_processing(configured@, *overrides, auto_crop, auto_orient) {
            Ok(prefs) => r is Ok && r->Ok_0@ == prefs,
            Err(error) => r == Err::<PipelinePrefs, CropParseError>(error),
        },
{
    match pipeline_with_overrides(configured, overrides) {
        Ok(pipeline) => Ok(apply_automatic(pipeline, auto_crop, auto_orient)),
        Err(error) => Err(error),
    }
}

/// The processing of a process or batch command: color inversion is part of it.
pub open spec fn file_processing(
    config: Settings,
    configured: Prefs,
    overrides: PipelineOverrides,
    invert: Option<bool>,
    auto_crop: Option<bool>,
    auto_orient: Option<bool>,
) -> Result<Prefs, CropParseError> {
    match scan_processing(configured, overrides, auto_crop, auto_orient) {
        Err(error) => Err(error),
        Ok(prefs) => Ok(
            Prefs { invert: chosen(config.processing.invert_colors, invert), ..prefs },
        ),
    }
}

/// Makes the processing of a process or batch command.
#[verifier::spinoff_prover]
#[verifier::rlimit(60)]
pub fn process_pipeline(
    config: &AppConfig,
    configured: &PipelinePrefs,
    overrides: &PipelineOverrides,
    invert: Option<bool>,
    auto_crop: Option<bool>,
    auto_orient: Option<bool>,
) -> (r: Result<PipelinePrefs, CropParseError>)
    ensures
        r is Ok ==> r->Ok_0.invert == (match invert {
            Some(value) => value,
            None => config.processing.invert_colors,
        }),
        r is Ok ==> r->Ok_0.auto_crop == (match auto_crop {
            Some(value) => value,
            None => configured.auto_crop,
        }),
        r is Ok ==> r->Ok_0.auto_orient == (match auto_orient {
            Some(value) => value,
            None => configured.auto_orient,
        }),
        match file_processing(config@, configured@, *overrides, invert, auto_crop, auto_orient) {
            Ok(prefs) => r is Ok && r->Ok_0@ == prefs,
            Err(error) => r == Err::<PipelinePrefs, CropParseError>(error),
        },
{
    match scan_pipeline(configured, overrides, auto_crop, auto_orient) {
        Ok(pipeline) => {
            let inverted = apply_explicit_bool(config.processing.invert_colors, invert);
            Ok(set_invert(pipeline, inverted))
        },
        Err(error) => Err(error),
    }
}

// ---------------------------------------------------------------------------
// Batches
// ---------------------------------------------------------------------------

/// Explicit choices of a batch.
#[derive(Debug)]
pub struct BatchRequest {
    pub device: Option<String>,
    pub out_dir: String,
    pub pages: Option<u32>,
    pub width: Option<u32>,
    pub height: Option<u32>,
    pub seed: u32,
    pub dpi: Option<u32>,
    pub source: Option<ScanSource>,
    pub duplex: Option<bool>,
    pub format: Option<String>,
    pub overrides: PipelineOverrides,
    pub auto_crop: Option<bool>,
    pub auto_orient: Option<bool>,
    pub invert: Option<bool>,
    pub multipage_tiff: Option<BatchOutput>,
    pub multipage_pdf: Option<BatchOutput>,
    pub multipage_out: Option<BatchOutput>,
    pub contact_sheet: Option<BatchOutput>,
}

/// An output in the output directory.
pub open spec fn generated(name: Seq<char>) -> Target {
    Target { path: name, extension: name_extension(name), in_out_dir: true }
}

fn generated_output(name: String) -> (r: BatchOutput)
    ensures
        r@ == generated(name@),
{
    let extension = extension_of_name(name.as_str());
    BatchOutput { path: name, extension, in_out_dir: true }
}

/// The format of the pages of a batch: a document is put together from PNG pages.
pub open spec fn page_format_choice(format: Seq<char>) -> Seq<char> {
    if same_letters(format, "pdf"@) {
        "png"@
    } else {
        format
    }
}

/// The container that a batch is put together in where no output was asked for: a PDF where that
/// is the format, the configured container where one is configured.
pub open spec fn implied_container(format: Seq<char>, config: Settings) -> Option<Seq<char>> {
    if same_letters(format, "pdf"@) {
        Some("pdf"@)
    } else if config.output.multipage {
        Some(config.output.multipage_format)
    } else {
        None
    }
}

/// The multipage output of a batch.
pub open spec fn multipage_choice(request: BatchRequest, config: Settings) -> Option<Target> {
    let format = chosen(config.output.output_format, opt_text(request.format));
    if request.multipage_out is Some || request.multipage_pdf is Some || request.multipage_tiff
        is Some {
        opt_target(request.multipage_out)
    } else {
        match implied_container(format, config) {
            Some(container) => Some(
                generated(config.output.output_name + "_multipage."@ + container),
            ),
            None => None,
        }
    }
}

/// The contact sheet of a batch.
pub open spec fn sheet_choice(request: BatchRequest, config: Settings) -> Option<Target> {
    match opt_target(request.contact_sheet) {
        Some(target) => Some(target),
        None => if config.output.contact_sheet {
            Some(generated(config.output.output_name + "_contact.bmp"@))
        } else {
            None
        },
    }
}

/// The batch of a command: every explicit choice stands, and the configuration fills in the rest.
pub open spec fn batch_choice(request: BatchRequest, config: Settings, pipeline: Prefs) -> Batch {
    Batch {
        device: chosen(config.capture.last_device_id, opt_text(request.device)),
        out_dir: request.out_dir@,
        pages: chosen(larger(config.capture.batch_pages as int, 1) as u32, request.pages),
        width: chosen(config.capture.default_width, request.width),
        height: chosen(config.capture.default_height, request.height),
        seed: request.seed,
        dpi: chosen(config.capture.default_dpi, request.dpi),
        mode: mode_choice(config.capture.scan_mode, request.source),
        duplex: chosen(config.capture.duplex, request.duplex),
        format: page_format_choice(chosen(config.output.output_format, opt_text(request.format))),
        multipage_tiff: opt_target(request.multipage_tiff),
        multipage_pdf: opt_target(request.multipage_pdf),
        multipage_out: multipage_choice(request, config),
        contact_sheet: sheet_choice(request, config),
        pipeline,
    }
}

fn is_pdf_format(format: &str) -> (r: bool)
    ensures
        r == same_letters(format@, "pdf"@),
{
    let left = chars_of(format);
    let right = chars_of("pdf");
    equal_letters(left.as_slice(), right.as_slice())
}

impl BatchRequest {
    fn multipage_output(&self, config: &AppConfig) -> (r: Option<BatchOutput>)
        ensures
            opt_target(r) == multipage_choice(*self, config@),
    {
        if self.multipage_out.is_some() || self.multipage_pdf.is_some()
            || self.multipage_tiff.is_some() {
            return copy_output(&self.multipage_out);
        }
        let format = choose_text(&config.output.output_format, &self.format);
        let mut name = config.output.output_name.clone();
        name.append("_multipage.");
        if is_pdf_format(format.as_str()) {
            name.append("pdf");
            Some(generated_output(name))
        } else if config.output.multipage {
            name.append(config.output.multipage_format.as_str());
            Some(generated_output(name))
        } else {
            None
        }
    }

    fn sheet_output(&self, config: &AppConfig) -> (r: Option<BatchOutput>)
        ensures
            opt_target(r) == sheet_choice(*self, config@),
    {
        if self.contact_sheet.is_some() {
            return copy_output(&self.contact_sheet);
        }
        if config.output.contact_sheet {
            let mut name = config.output.output_name.clone();
            name.append("_contact.bmp");
            Some(generated_output(name))
        } else {
            None
        }
    }

    fn page_format(&self, config: &AppConfig) -> (r: String)
        ensures
            r@ == page_format_choice(chosen(config@.output.output_format, opt_text(self.format))),
    {
        let format = choose_text(&config.output.output_format, &self.format);
        if is_pdf_format(format.as_str()) {
            "png".to_owned()
        } else {
            format
        }
    }

    /// Makes the batch of a command.
    #[verifier::spinoff_prover]
    #[verifier::rlimit(60)]
    pub fn scan_args(&self, config: &AppConfig, configured: &PipelinePrefs) -> (r: Result<
        BatchScanArgs,
        CropParseError,
    >)
        ensures
            r is Ok ==> r->Ok_0.device@ == (match opt_text(self.device) {
                Some(device) => device,
                None => config.capture.last_device_id@,
            }),
            r is Ok ==> r->Ok_0.out_dir@ == self.out_dir@,
            r is Ok && self.pages is Some ==> r->Ok_0.pages == self.pages->0,
            r is Ok && self.pages is None && config.capture.batch_pages >= 1 ==> r->Ok_0.pages
                == config.capture.batch_pages,
            r is Ok && self.pages is None && config.capture.batch_pages == 0 ==> r->Ok_0.pages == 1,
            r is Ok ==> r->Ok_0.width == (match self.width {
                Some(value) => value,
                None => config.capture.default_width,
            }),
            r is Ok ==> r->Ok_0.height == (match self.height {
                Some(value) => value,
                None => config.capture.default_height,
            }),
            r is Ok ==> r->Ok_0.seed == self.seed,
            r is Ok ==> r->Ok_0.dpi == (match self.dpi {
                Some(value) => value,
                None => config.capture.default_dpi,
            }),
            r is Ok && self.source == Some(ScanSource::Flatbed) ==> r->Ok_0.mode == ScanMode::Reflective,
            r is Ok && self.source == Some(ScanSource::Adf) ==> r->Ok_0.mode == ScanMode::Document,
            r is Ok && self.source == Some(ScanSource::Film) ==> r->Ok_0.mode == ScanMode::Film,
            r is Ok && self.source is None ==> r->Ok_0.mode == config.capture.scan_mode,
            r is Ok ==> r->Ok_0.duplex == (match self.duplex {
                Some(value) => value,
                None => config.capture.duplex,
            }),
            r is Ok ==> opt_target(r->Ok_0.multipage_tiff) == opt_target(self.multipage_tiff),
            r is Ok ==> opt_target(r->Ok_0.multipage_pdf) == opt_target(self.multipage_pdf),
            r is Ok && (self.multipage_out is Some || self.multipage_pdf is Some || self.multipage_tiff is Some)
                ==> opt_target(r->Ok_0.multipage_out) == opt_target(self.multipage_out),
            r is Ok && self.contact_sheet is Some ==> opt_target(r->Ok_0.contact_sheet) == opt_target(
                self.contact_sheet,
            ),
            r is Ok && self.contact_sheet is None ==> (r->Ok_0.contact_sheet is Some
                <==> config.output.contact_sheet),
            r is Ok ==> r->Ok_0.pipeline.invert == (match self.invert {
                Some(value) => value,
                None => config.processing.invert_colors,
            }),
            r is Ok ==> r->Ok_0.pipeline.auto_crop == (match self.auto_crop {
                Some(value) => value,
                None => configured.auto_crop,
            }),
            r is Ok ==> r->Ok_0.pipeline.auto_orient == (match self.auto_orient {
                Some(value) => value,
                None => configured.auto_orient,
            }),
            match file_processing(
                config@,
                configured@,
                self.overrides,
                self.invert,
                self.auto_crop,
                self.auto_orient,
            ) {
                Ok(pipeline) => r is Ok && r->Ok_0@ == batch_choice(*self, config@, pipeline),
                Err(error) => r is Err && r->Err_0 == error,
            },
    {
        let pipeline = match process_pipeline(
            config,
            configured,
            &self.overrides,
            self.invert,
            self.auto_crop,
            self.auto_orient,
        ) {
            Ok(pipeline) => pipeline,
            Err(error) => {
                return Err(error);
            },
        };
        let configured_pages: u32 = if config.capture.batch_pages < 1 {
            1
        } else {
            config.capture.batch_pages
        };
        Ok(
            BatchScanArgs {
                device: choose_text(&config.capture.last_device_id, &self.device),
                out_dir: self.out_dir.clone(),
                pages: choose_count(configured_pages, self.pages),
                width: choose_count(config.capture.default_width, self.width),
                height: choose_count(config.capture.default_height, self.height),
                seed: self.seed,
                dpi: choose_count(config.capture.default_dpi, self.dpi),
                mode: choose_mode(config.capture.scan_mode, self.source),
                duplex: apply_explicit_bool(config.capture.duplex, self.duplex),
                format: self.page_format(config),
                multipage_tiff: copy_output(&self.multipage_tiff),
                multipage_pdf: copy_output(&self.multipage_pdf),
                multipage_out: self.multipage_output(config),
                contact_sheet: self.sheet_output(config),
                pipeline,
            },
        )
    }
}

} // verus!
