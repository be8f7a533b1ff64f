//! What the controls of the desktop surface do: requests are put together and checked before any
//! work starts.

use crate::acquisition::{default_request, Request, ScanMode, ScanRequest};
use crate::batch::{opt_target, three_digits, Batch, BatchOutput, BatchScanArgs, Target};
use crate::cli::{generated, FileScan, ScanToFileArgs};
use crate::crop::values_of;
use crate::curves::{curve_of, parse_curve_points};
use crate::error::{outcome, outcome_view, Failure, ScanError};
use crate::export::{Export, ExportOptions};
use crate::gui::state::{
    active, active_choice, after_candidate, control_curves, control_export, control_prefs, filled,
    filled_text, media_mode, next_candidate, nonempty, nonempty_or, opt_session, without_password,
    Gui, GuiState, MultipageSession, OutputChoice, ProcessingChoice, ProcessingControls, Session,
    Status, StatusText,
};
use crate::gui::{crop_text_value, image_ext, normalize_image_ext, parse_crop_string};
use crate::paths::extension_of_name;
use crate::processing::{copy_opt, larger, opt_points, opt_text, smaller, PipelinePrefs, Prefs};
use crate::settings::{
    AppConfig, Capture, CaptureConfig, OutputConfig, Outputs, Processing, ProcessingConfig,
    Settings,
};
use crate::text::{
    chars_of, decimal, lower_all, lower_chars, push_decimal, push_signed, same_text, signed, strings,
    text_of, trim, trimmed,
};
use vstd::prelude::*;
use vstd::string::StringExecFns;

verus! {

// ---------------------------------------------------------------------------
// File names
// ---------------------------------------------------------------------------

/// A frame number with leading zeros up to three characters.
pub open spec fn frame_number(n: int) -> Seq<char> {
    if n >= 0 {
        three_digits(n as nat)
    } else if n > -10 {
        "-0"@ + decimal((-n) as nat)
    } else {
        signed(n)
    }
}

fn push_frame(out: &mut String, n: i32)
    ensures
        final(out)@ == old(out)@ + frame_number(n as int),
{
    let ghost before = out@;
    if n >= 0 {
        if n < 10 {
            out.append("00");
        } else if n < 100 {
            out.append("0");
        }
        push_decimal(out, n as u64);
    } else if n > -10 {
        out.append("-0");
        push_decimal(out, (0 - n) as u64);
    } else {
        push_signed(out, n);
    }
    assert(out@ =~= before + frame_number(n as int));
}

/// The name of a numbered output file.
pub open spec fn numbered_name(
    name: Seq<char>,
    suffix: Seq<char>,
    frame: int,
    format: Seq<char>,
) -> Seq<char> {
    name + "_"@ + suffix + "_"@ + frame_number(frame) + "."@ + image_ext(format, "png"@)
}

/// The name of an output file.
pub open spec fn plain_name(name: Seq<char>, suffix: Seq<char>, format: Seq<char>) -> Seq<char> {
    name + "_"@ + suffix + "."@ + image_ext(format, "png"@)
}

/// The extension of the selected multipage container.
pub open spec fn container_extension(format: Seq<char>) -> Result<Seq<char>, Failure> {
    let text = lower_all(trim(format));
    if text == "pdf"@ {
        Ok("pdf"@)
    } else if text == "tif"@ || text == "tiff"@ {
        Ok("tif"@)
    } else {
        Err(Failure::Invalid("multipage format must be PDF or TIFF, not '"@ + text + "'"@))
    }
}

/// The file name of the multipage document, given the output name that was accepted.
pub open spec fn multipage_name(name: Result<Seq<char>, Failure>, format: Seq<char>) -> Result<
    Seq<char>,
    Failure,
> {
    match name {
        Err(failure) => Err(failure),
        Ok(name) => match container_extension(format) {
            Err(failure) => Err(failure),
            Ok(extension) => Ok(name + "_multipage."@ + extension),
        },
    }
}

impl GuiState {
    /// The name of a numbered output file in the output directory, given the output name that was
    /// accepted.
    pub fn out_path(&self, suffix: &str, output_name: Result<String, ScanError>) -> (r: Result<
        String,
        ScanError,
    >)
        ensures
            r is Ok <==> output_name is Ok,
            r is Ok && self.frame_index >= 0 ==> r->Ok_0@ == output_name->Ok_0@ + "_"@ + suffix@ + "_"@
                + three_digits(self.frame_index as nat) + "."@ + image_ext(self.output.output_fmt@, "png"@),
            match outcome_view(output_name) {
                Err(failure) => r is Err && r->Err_0@ == failure,
                Ok(name) => r is Ok && r->Ok_0@ == numbered_name(
                    name,
                    suffix@,
                    self@.frame_index as int,
                    self@.output.output_fmt,
                ),
            },
    {
        let name = match output_name {
            Ok(name) => name,
            Err(error) => {
                return Err(error);
            },
        };
        let ext = normalize_image_ext(self.output.output_fmt.as_str(), "png");
        let mut out = name;
        out.append("_");
        out.append(suffix);
        out.append("_");
        push_frame(&mut out, self.frame_index);
        out.append(".");
        out.append(ext.as_str());
        Ok(out)
    }

    /// The name of an output file in the output directory, given the output name that was accepted.
    pub fn out_path_plain(&self, suffix: &str, output_name: Result<String, ScanError>) -> (r: Result<
        String,
        ScanError,
    >)
        ensures
            r is Ok <==> output_name is Ok,
            r is Ok ==> r->Ok_0@ == output_name->Ok_0@ + "_"@ + suffix@ + "."@ + image_ext(
                self.output.output_fmt@,
                "png"@,
            ),
            match outcome_view(output_name) {
                Err(failure) => r is Err && r->Err_0@ == failure,
                Ok(name) => r is Ok && r->Ok_0@ == plain_name(
                    name,
                    suffix@,
                    self@.output.output_fmt,
                ),
            },
    {
        let name = match output_name {
            Ok(name) => name,
            Err(error) => {
                return Err(error);
            },
        };
        let ext = normalize_image_ext(self.output.output_fmt.as_str(), "png");
        let mut out = name;
        out.append("_");
        out.append(suffix);
        out.append(".");
        out.append(ext.as_str());
        Ok(out)
    }

    /// The extension of the selected multipage container.
    pub fn multipage_extension(&self) -> (r: Result<String, ScanError>)
        ensures
            lower_all(trim(self.output.multipage_format@)) == "pdf"@ ==> r is Ok && r->Ok_0@ == "pdf"@,
            lower_all(trim(self.output.multipage_format@)) == "tif"@ || lower_all(trim(self.output.multipage_format@))
                == "tiff"@ ==> r is Ok && r->Ok_0@ == "tif"@,
            r is Ok ==> r->Ok_0@ == "pdf"@ || r->Ok_0@ == "tif"@,
            outcome_view(r) == container_extension(self@.output.multipage_format),
    {
        proof {
            reveal_strlit("pdf");
            reveal_strlit("tif");
            reveal_strlit("tiff");
            assert("pdf"@[0] == 'p' && "tif"@[0] == 't' && "tiff"@[0] == 't');
        }
        let chars = chars_of(self.output.multipage_format.as_str());
        let lowered = lower_chars(trimmed(chars.as_slice()));
        let text = text_of(lowered.as_slice());
        if same_text(text.as_str(), "pdf") {
            Ok("pdf".to_owned())
        } else if same_text(text.as_str(), "tif") || same_text(text.as_str(), "tiff") {
            Ok("tif".to_owned())
        } else {
            let mut message = "multipage format must be PDF or TIFF, not '".to_owned();
            message.append(text.as_str());
            message.append("'");
            Err(ScanError::Invalid(message))
        }
    }

    /// The file name of the multipage document, given the output name that was accepted.
    pub fn multipage_save_destination(&self, output_name: Result<String, ScanError>) -> (r: Result<
        String,
        ScanError,
    >)
        ensures
            r is Ok ==> output_name is Ok && (r->Ok_0@ == output_name->Ok_0@ + "_multipage."@ + "pdf"@ || r->Ok_0@
                == output_name->Ok_0@ + "_multipage."@ + "tif"@),
            output_name is Ok && lower_all(trim(self.output.multipage_format@)) == "pdf"@ ==> r is Ok && r->Ok_0@
                == output_name->Ok_0@ + "_multipage."@ + "pdf"@,
            outcome_view(r) == multipage_name(
                outcome_view(output_name),
                self@.output.multipage_format,
            ),
    {
        let name = match output_name {
            Ok(name) => name,
            Err(error) => {
                return Err(error);
            },
        };
        let extension = match self.multipage_extension() {
            Ok(extension) => extension,
            Err(error) => {
                return Err(error);
            },
        };
        let mut out = name;
        out.append("_multipage.");
        out.append(extension.as_str());
        Ok(out)
    }

    /// The file name that a save proposes: the multipage document, or a plain output file.
    pub fn save_destination(&self, output_name: Result<String, ScanError>) -> (r: Result<
        String,
        ScanError,
    >)
        ensures
            outcome_view(r) == (if self@.output.multipage {
                multipage_name(outcome_view(output_name), self@.output.multipage_format)
            } else {
                match outcome_view(output_name) {
                    Err(failure) => Err(failure),
                    Ok(name) => Ok(plain_name(name, "save"@, self@.output.output_fmt)),
                }
            }),
    {
        if self.output.multipage {
            self.multipage_save_destination(output_name)
        } else {
            self.out_path_plain("save", output_name)
        }
    }

    /// The file name of a save without a dialog: the multipage document, or a numbered output file.
    pub fn save_plus_destination(&self, output_name: Result<String, ScanError>) -> (r: Result<
        String,
        ScanError,
    >)
        ensures
            outcome_view(r) == (if self@.output.multipage {
                multipage_name(outcome_view(output_name), self@.output.multipage_format)
            } else {
                match outcome_view(output_name) {
                    Err(failure) => Err(failure),
                    Ok(name) => Ok(
                        numbered_name(
                            name,
                            "save"@,
                            self@.frame_index as int,
                            self@.output.output_fmt,
                        ),
                    ),
                }
            }),
    {
        if self.output.multipage {
            self.multipage_save_destination(output_name)
        } else {
            self.out_path("save", output_name)
        }
    }

    /// The extension that a path picked in a dialog is given: that of the container for a
    /// multipage document, and the selected format for a path without one.
    pub fn picked_extension(&self, has_extension: bool) -> (r: Result<Option<String>, ScanError>)
        ensures
            if self@.output.multipage {
                match container_extension(self@.output.multipage_format) {
                    Ok(extension) => r matches Ok(Some(text)) && text@ == extension,
                    Err(failure) => r is Err && r->Err_0@ == failure,
                }
            } else if !has_extension {
                r matches Ok(Some(text)) && text@ == image_ext(self@.output.output_fmt, "png"@)
            } else {
                r matches Ok(None)
            },
    {
        if self.output.multipage {
            match self.multipage_extension() {
                Ok(extension) => Ok(Some(extension)),
                Err(error) => Err(error),
            }
        } else if !has_extension {
            Ok(Some(normalize_image_ext(self.output.output_fmt.as_str(), "png")))
        } else {
            Ok(None)
        }
    }
}

// ---------------------------------------------------------------------------
// Status
// ---------------------------------------------------------------------------

/// The surface with another status line.
pub open spec fn with_status(state: Gui, status: StatusText) -> Gui {
    Gui { status, ..state }
}

impl GuiState {
    /// Shows an error.
    pub fn set_error(&mut self, text: String)
        ensures
            final(self)@ == with_status(old(self)@, StatusText::Error(text@)),
    {
        self.status = Status::Error(text);
    }

    /// Makes a finished image the current one.
    pub fn set_image_success(&mut self, path: String)
        ensures
            final(self)@ == (Gui {
                last_image: Some(path@),
                status: StatusText::Done(path@),
                ..old(self)@
            }),
    {
        self.last_image = Some(path.clone());
        self.status = Status::Done(path);
    }

    /// Asks for the work that is going on to be cancelled.
    pub fn do_cancel(&mut self)
        ensures
            final(self).cancel_requested,
            final(self).scanning == old(self).scanning,
            final(self)@ == (Gui {
                cancel_requested: true,
                status: if old(self)@.scanning {
                    StatusText::Cancelled
                } else {
                    StatusText::Idle
                },
                ..old(self)@
            }),
    {
        self.cancel_requested = true;
        self.status =
        if self.scanning {
            Status::Cancelled
        } else {
            Status::Idle
        };
    }

    /// Takes over a fresh list of devices; a selection that is gone gives way to the first device.
    pub fn refresh_devices(&mut self, devices: Vec<String>)
        ensures
            strings(final(self).capture.devices@) == strings(devices@),
            strings(devices@).contains(old(self).capture.device@) ==> final(self).capture.device@ == old(self).capture.device@,
            !strings(devices@).contains(old(self).capture.device@) && devices@.len() > 0 ==> final(self).capture.device@ == devices@[0]@,
            devices@.len() == 0 ==> final(self).capture.device@ == "mock"@,
            final(self).capture.width == old(self).capture.width && final(self).capture.height == old(self).capture.height && final(self).capture.dpi == old(self).capture.dpi,
            final(self)@ == refreshed(old(self)@, strings(devices@)),
    {
        let count: usize = devices.len();
        let mut found = false;
        let mut i: usize = 0;
        while i < count
            invariant
                i <= count,
                count == devices@.len(),
                found == exists|j: int|
                    0 <= j < i && #[trigger] strings(devices@)[j] == self.capture.device@,
            decreases count - i,
        {
            assert(strings(devices@)[i as int] == devices@[i as int]@);
            if same_text(devices[i].as_str(), self.capture.device.as_str()) {
                found = true;
            }
            i += 1;
        }
        assert(found == strings(devices@).contains(self.capture.device@));
        if !found {
            self.capture.device =
            if count > 0 {
                assert(strings(devices@)[0] == devices@[0]@);
                devices[0].clone()
            } else {
                "mock".to_owned()
            };
        }
        self.capture.devices = devices;
        self.status = Status::Devices(count);
    }
}

/// The surface with a fresh list of devices.
pub open spec fn refreshed(state: Gui, devices: Seq<Seq<char>>) -> Gui {
    Gui {
        capture: crate::gui::state::CaptureChoice {
            device: if devices.contains(state.capture.device) {
                state.capture.device
            } else if devices.len() > 0 {
                devices[0]
            } else {
                "mock"@
            },
            devices,
            ..state.capture
        },
        status: StatusText::Devices(devices.len() as usize),
        ..state
    }
}

// ---------------------------------------------------------------------------
// Opening
// ---------------------------------------------------------------------------

/// The path that is opened: the given one, else the one that was typed; none leaves the choice to a
/// dialog.
pub open spec fn path_to_open(state: Gui, path: Option<Seq<char>>) -> Option<Seq<char>> {
    match path {
        Some(text) => Some(text),
        None => if trim(state.output.open_path_input).len() == 0 {
            None
        } else {
            Some(trim(state.output.open_path_input))
        },
    }
}

/// The surface after an image was opened, or not.
pub open spec fn opened(state: Gui, path: Option<Result<Seq<char>, Failure>>) -> Gui {
    match path {
        None => with_status(state, StatusText::OpenPrompt),
        Some(Err(failure)) => with_status(state, StatusText::Error(failure.text())),
        Some(Ok(path)) => Gui {
            output: OutputChoice { open_path_input: path, ..state.output },
            last_image: Some(path),
            status: StatusText::Done(path),
            ..state
        },
    }
}

impl GuiState {
    /// The path that is opened.
    pub fn selected_path(&self, path: Option<&str>) -> (r: Option<String>)
        ensures
            opt_text(r) == path_to_open(
                self@,
                match path {
                    Some(text) => Some(text@),
                    None => None,
                },
            ),
    {
        match path {
            Some(text) => Some(text.to_owned()),
            None => {
                let chars = chars_of(self.output.open_path_input.as_str());
                let typed = trimmed(chars.as_slice());
                if typed.len() == 0 {
                    None
                } else {
                    Some(text_of(typed))
                }
            },
        }
    }

    /// Takes over an image that was opened; without one the status line asks for it.
    pub fn do_open_file(&mut self, path: Option<Result<String, ScanError>>)
        ensures
            path matches Some(Ok(opened)) ==> opt_text(final(self).last_image) == Some(opened@) && final(self).output.open_path_input@ == opened@,
            !(path matches Some(Ok(_))) ==> opt_text(final(self).last_image) == opt_text(old(self).last_image),
            final(self)@ == opened(
                old(self)@,
                match path {
                    Some(result) => Some(outcome_view(result)),
                    None => None,
                },
            ),
    {
        match path {
            None => {
                self.status = Status::OpenPrompt;
            },
            Some(Err(error)) => {
                self.status = Status::Error(error.message());
            },
            Some(Ok(path)) => {
                self.output.open_path_input = path.clone();
                self.set_image_success(path);
            },
        }
    }
}

// ---------------------------------------------------------------------------
// Recognition
// ---------------------------------------------------------------------------

/// A recognition of the current image.
#[derive(Debug)]
pub struct OcrAction {
    pub src: String,
    pub language: String,
    pub offline: bool,
}

impl GuiState {
    /// The language and kind of recognition that the controls ask for.
    pub fn ocr_options(&self) -> (r: (String, bool))
        ensures
            trim(self.output.ocr_language@).len() > 0 ==> r.0@ == trim(self.output.ocr_language@),
            trim(self.output.ocr_language@).len() == 0 ==> r.0@ == "eng"@,
            r.1 <==> self.output.ocr_engine@ == "offline"@,
            r.0@ == nonempty(self@.output.ocr_language, "eng"@),
            r.1 == (self@.output.ocr_engine == "offline"@),
    {
        (
            nonempty_or(self.output.ocr_language.as_str(), "eng"),
            same_text(self.output.ocr_engine.as_str(), "offline"),
        )
    }

    /// Puts together a recognition of the current image; without one the status line says so.
    pub fn prepare_ocr(&mut self) -> (r: Option<OcrAction>)
        ensures
            match old(self)@.last_image {
                None => r is None && final(self)@ == with_status(
                    old(self)@,
                    StatusText::OpenError,
                ),
                Some(src) => {
                    &&& final(self)@ == old(self)@
                    &&& r matches Some(action) && action.src@ == src && action.language@
                        == nonempty(old(self)@.output.ocr_language, "eng"@) && action.offline == (
                    old(self)@.output.ocr_engine == "offline"@)
                },
            },
    {
        let current = copy_opt(&self.last_image);
        match current {
            None => {
                self.status = Status::OpenError;
                None
            },
            Some(src) => {
                let (language, offline) = self.ocr_options();
                Some(OcrAction { src, language, offline })
            },
        }
    }
}

// ---------------------------------------------------------------------------
// Scans and batches
// ---------------------------------------------------------------------------

/// The size of a scan: a preview is small.
pub open spec fn scan_size(state: Gui, preview: bool) -> (u32, u32) {
    if preview {
        (
            smaller(state.capture.width as int, 320) as u32,
            smaller(state.capture.height as int, 240) as u32,
        )
    } else {
        (state.capture.width, state.capture.height)
    }
}

/// The scan that the controls ask for: its output and raw output are file names in the output
/// directory. Color inversion is part of the scan, not of its processing.
pub open spec fn control_scan(
    state: Gui,
    preview: bool,
    name: Seq<char>,
) -> FileScan {
    FileScan {
        device: Some(state.capture.device),
        out: if preview {
            name + "_preview.png"@
        } else {
            numbered_name(name, "scan"@, state.frame_index as int, state.output.output_fmt)
        },
        width: scan_size(state, preview).0,
        height: scan_size(state, preview).1,
        seed: 1,
        dpi: state.capture.dpi,
        mode: media_mode(state.capture.media),
        duplex: state.capture.duplex,
        pipeline: Prefs { invert: false, ..control_prefs(state.processing) },
        invert_colors: state.processing.invert_colors,
        use_preview: preview,
        raw_out: if !preview && state.output.save_raw {
            Some(name + "_raw.tif"@)
        } else {
            None
        },
    }
}

fn without_invert(pipeline: PipelinePrefs) -> (r: PipelinePrefs)
    ensures
        r@ == (Prefs { invert: false, ..pipeline@ }),
{
    PipelinePrefs { invert: false, ..pipeline }
}

impl GuiState {
    /// Puts together the scan that the controls ask for, given the output name that was accepted.
    #[verifier::spinoff_prover]
    #[verifier::rlimit(60)]
    pub fn scan_args(
        &self,
        preview: bool,
        output_name: Result<String, ScanError>,
    ) -> (r: Result<ScanToFileArgs, ScanError>)
        ensures
            r is Ok <==> output_name is Ok,
            r is Ok ==> opt_text(r->Ok_0.device) == Some(self.capture.device@),
            r is Ok && !preview ==> r->Ok_0.width == self.capture.width && r->Ok_0.height == self.capture.height,
            r is Ok && preview ==> r->Ok_0.width <= 320 && r->Ok_0.width <= self.capture.width && (r->Ok_0.width
                == 320 || r->Ok_0.width == self.capture.width),
            r is Ok && preview ==> r->Ok_0.height <= 240 && r->Ok_0.height <= self.capture.height && (
            r->Ok_0.height == 240 || r->Ok_0.height == self.capture.height),
            r is Ok ==> r->Ok_0.seed == 1,
            r is Ok ==> r->Ok_0.dpi == self.capture.dpi,
            r is Ok && (self.capture.media@ == "adf"@ || self.capture.media@ == "document"@) ==> r->Ok_0.mode
                == ScanMode::Document,
            r is Ok && (self.capture.media@ == "transparency"@ || self.capture.media@ == "film"@)
                ==> r->Ok_0.mode == ScanMode::Film,
            r is Ok && self.capture.media@ != "adf"@ && self.capture.media@ != "document"@
                && self.capture.media@ != "transparency"@ && self.capture.media@ != "film"@ ==> r->Ok_0.mode
                == ScanMode::Reflective,
            r is Ok ==> r->Ok_0.duplex == self.capture.duplex,
            r is Ok ==> r->Ok_0.invert_colors == self.processing.invert_colors && !r->Ok_0.pipeline.invert,
            r is Ok ==> r->Ok_0.use_preview == preview,
            r is Ok ==> (r->Ok_0.raw_out is Some <==> !preview && self.output.save_raw),
            r is Ok && r->Ok_0.raw_out is Some ==> r->Ok_0.raw_out->0@ == output_name->Ok_0@ + "_raw.tif"@,
            r is Ok && preview ==> r->Ok_0.out@ == output_name->Ok_0@ + "_preview.png"@,
            match outcome_view(output_name) {
                Err(failure) => r is Err && r->Err_0@ == failure,
                Ok(name) => r is Ok && r->Ok_0@ == control_scan(self@, preview, name),
            },
    {
        let name = match output_name {
            Ok(name) => name,
            Err(error) => {
                return Err(error);
            },
        };
        let raw_out = if !preview && self.output.save_raw {
            let mut raw = name.clone();
            raw.append("_raw.tif");
            Some(raw)
        } else {
            None
        };
        let out = if preview {
            let mut out = name;
            out.append("_preview.png");
            out
        } else {
            match self.out_path("scan", Ok(name)) {
                Ok(out) => out,
                Err(error) => {
                    return Err(error);
                },
            }
        };
        let width: u32 = if preview && self.capture.width > 320 {
            320
        } else {
            self.capture.width
        };
        let height: u32 = if preview && self.capture.height > 240 {
            240
        } else {
            self.capture.height
        };
        let pipeline = without_invert(self.pipeline_prefs());
        Ok(
            ScanToFileArgs {
                device: Some(self.capture.device.clone()),
                out,
                width,
                height,
                seed: 1,
                dpi: self.capture.dpi,
                mode: self.scan_mode(),
                duplex: self.capture.duplex,
                pipeline,
                invert_colors: self.processing.invert_colors,
                use_preview: preview,
                raw_out,
            },
        )
    }
}

/// The format of the pages of a batch: a document is put together from PNG pages.
pub open spec fn batch_page_format(format: Seq<char>) -> Seq<char> {
    if image_ext(format, "png"@) == "pdf"@ {
        "png"@
    } else {
        image_ext(format, "png"@)
    }
}

/// The multipage output of a batch, where the controls ask for one.
pub open spec fn batch_multipage(output: OutputChoice, name: Seq<char>) -> Option<Target> {
    if image_ext(output.output_fmt, "png"@) == "pdf"@ {
        Some(generated(name + "_multipage."@ + "pdf"@))
    } else if output.multipage {
        Some(generated(name + "_multipage."@ + output.multipage_format))
    } else {
        None
    }
}

/// The contact sheet of a batch, where the controls ask for one.
pub open spec fn batch_sheet(output: OutputChoice, name: Seq<char>) -> Option<Target> {
    if output.contact_sheet {
        Some(generated(name + "_contact.bmp"@))
    } else {
        None
    }
}

/// The batch that the controls ask for.
pub open spec fn control_batch(
    state: Gui,
    name: Seq<char>,
    out_dir: Seq<char>,
    pages: u32,
) -> Batch {
    Batch {
        device: state.capture.device,
        out_dir,
        pages,
        width: state.capture.width,
        height: state.capture.height,
        seed: 1,
        dpi: state.capture.dpi,
        mode: media_mode(state.capture.media),
        duplex: state.capture.duplex,
        format: batch_page_format(state.output.output_fmt),
        multipage_tiff: None,
        multipage_pdf: None,
        multipage_out: batch_multipage(state.output, name),
        contact_sheet: batch_sheet(state.output, name),
        pipeline: control_prefs(state.processing),
    }
}

/// The refusal of a batch of JPEG XL pages.
pub open spec fn no_jxl_batch() -> Failure {
    Failure::Invalid(
        "GUI batch pages must use a built-in raster format; JPEG XL is available for single-image scan, reprocess, and save"@,
    )
}

fn named_output(name: String) -> (r: BatchOutput)
    ensures
        r@ == generated(name@),
{
    let extension = extension_of_name(name.as_str());
    BatchOutput { path: name, extension, in_out_dir: true }
}

impl GuiState {
    fn batch_multipage_output(&self, name: &String, is_pdf: bool) -> (r: Option<BatchOutput>)
        requires
            is_pdf == (image_ext(self@.output.output_fmt, "png"@) == "pdf"@),
        ensures
            opt_target(r) == batch_multipage(self@.output, name@),
    {
        let mut out = name.clone();
        out.append("_multipage.");
        if is_pdf {
            out.append("pdf");
            Some(named_output(out))
        } else if self.output.multipage {
            out.append(self.output.multipage_format.as_str());
            Some(named_output(out))
        } else {
            None
        }
    }

    fn batch_sheet_output(&self, name: &String) -> (r: Option<BatchOutput>)
        ensures
            opt_target(r) == batch_sheet(self@.output, name@),
    {
        if self.output.contact_sheet {
            let mut out = name.clone();
            out.append("_contact.bmp");
            Some(named_output(out))
        } else {
            None
        }
    }

    /// Puts together the batch that the controls ask for, given the output name that was accepted.
    #[verifier::spinoff_prover]
    #[verifier::rlimit(60)]
    pub fn batch_args(
        &self,
        output_name: Result<String, ScanError>,
        out_dir: String,
        pages: u32,
    ) -> (r: Result<BatchScanArgs, ScanError>)
        ensures
            r is Ok ==> r->Ok_0.device@ == self.capture.device@,
            r is Ok ==> r->Ok_0.out_dir@ == out_dir@,
            r is Ok ==> r->Ok_0.pages == pages,
            r is Ok ==> r->Ok_0.width == self.capture.width,
            r is Ok ==> r->Ok_0.height == self.capture.height,
            r is Ok ==> r->Ok_0.seed == 1,
            r is Ok ==> r->Ok_0.dpi == self.capture.dpi,
            r is Ok && (self.capture.media@ == "adf"@ || self.capture.media@ == "document"@) ==> r->Ok_0.mode
                == ScanMode::Document,
            r is Ok && (self.capture.media@ == "transparency"@ || self.capture.media@ == "film"@)
                ==> r->Ok_0.mode == ScanMode::Film,
            r is Ok && self.capture.media@ != "adf"@ && self.capture.media@ != "document"@
                && self.capture.media@ != "transparency"@ && self.capture.media@ != "film"@ ==> r->Ok_0.mode
                == ScanMode::Reflective,
            r is Ok ==> r->Ok_0.duplex == self.capture.duplex,
            r is Ok ==> r->Ok_0.multipage_tiff is None && r->Ok_0.multipage_pdf is None,
            r is Ok ==> (r->Ok_0.contact_sheet is Some <==> self.output.contact_sheet),
            r is Ok && self.output.contact_sheet ==> r->Ok_0.contact_sheet->0.path@ == output_name->Ok_0@
                + "_contact.bmp"@ && r->Ok_0.contact_sheet->0.in_out_dir,
            r is Ok && self.output.multipage ==> r->Ok_0.multipage_out is Some,
            r is Ok ==> r->Ok_0.pipeline.invert == self.processing.invert_colors,
            r is Ok ==> r->Ok_0.pipeline.flip_h == self.processing.flip_h && r->Ok_0.pipeline.flip_v
                == self.processing.flip_v,
            match outcome_view(output_name) {
                Err(failure) => r is Err && r->Err_0@ == failure,
                Ok(name) => if image_ext(self@.output.output_fmt, "png"@) == "jxl"@ {
                    r is Err && r->Err_0@ == no_jxl_batch()
                } else {
                    r is Ok && r->Ok_0@ == control_batch(self@, name, out_dir@, pages)
                },
            },
    {
        let name = match output_name {
            Ok(name) => name,
            Err(error) => {
                return Err(error);
            },
        };
        let format = normalize_image_ext(self.output.output_fmt.as_str(), "png");
        if same_text(format.as_str(), "jxl") {
            return Err(
                ScanError::Invalid(
                    "GUI batch pages must use a built-in raster format; JPEG XL is available for single-image scan, reprocess, and save".to_owned(),
                ),
            );
        }
        let is_pdf = same_text(format.as_str(), "pdf");
        let multipage_out = self.batch_multipage_output(&name, is_pdf);
        let contact_sheet = self.batch_sheet_output(&name);
        let pipeline = self.pipeline_prefs();
        Ok(
            BatchScanArgs {
                device: self.capture.device.clone(),
                out_dir,
                pages,
                width: self.capture.width,
                height: self.capture.height,
                seed: 1,
                dpi: self.capture.dpi,
                mode: self.scan_mode(),
                duplex: self.capture.duplex,
                format: if is_pdf {
                    "png".to_owned()
                } else {
                    format
                },
                multipage_tiff: None,
                multipage_pdf: None,
                multipage_out,
                contact_sheet,
                pipeline,
            },
        )
    }

    /// The acquisition of an exposure measurement: a small image of the selected device.
    pub fn exposure_request(&self) -> (r: ScanRequest)
        ensures
            r.device_id@ == self.capture.device@,
            r.width <= 160 && r.width <= self.capture.width && (r.width == 160 || r.width == self.capture.width),
            r.height <= 120 && r.height <= self.capture.height && (r.height == 120 || r.height
                == self.capture.height),
            r.dpi_x == self.capture.dpi && r.dpi_y == self.capture.dpi,
            r@ == (Request {
                device_id: self@.capture.device,
                width: smaller(self@.capture.width as int, 160) as u32,
                height: smaller(self@.capture.height as int, 120) as u32,
                dpi_x: self@.capture.dpi,
                dpi_y: self@.capture.dpi,
                ..default_request()
            }),
    {
        let request = ScanRequest::default();
        ScanRequest {
            device_id: self.capture.device.clone(),
            width: if self.capture.width > 160 {
                160
            } else {
                self.capture.width
            },
            height: if self.capture.height > 120 {
                120
            } else {
                self.capture.height
            },
            dpi_x: self.capture.dpi,
            dpi_y: self.capture.dpi,
            ..request
        }
    }
}

// ---------------------------------------------------------------------------
// Devices
// ---------------------------------------------------------------------------

/// How a device operation ended: its status where it reports one, else whether it reports success,
/// else only that it is done.
pub open spec fn device_outcome(status: Option<Seq<char>>, ok: Option<bool>) -> Seq<char> {
    match (status, ok) {
        (Some(text), _) => text,
        (None, Some(true)) => "ok"@,
        (None, Some(false)) => "error"@,
        (None, None) => "done"@,
    }
}

/// The status line of a device operation.
pub open spec fn device_line(action: Seq<char>, device: Seq<char>, outcome: Seq<char>) -> Seq<char> {
    action + " "@ + device + ": "@ + outcome
}

impl GuiState {
    fn show_device(&mut self, action: &str, outcome: &str)
        ensures
            final(self)@ == with_status(
                old(self)@,
                StatusText::Message(device_line(action@, old(self)@.capture.device, outcome@)),
            ),
    {
        let mut line = String::new();
        line.append(action);
        line.append(" ");
        line.append(self.capture.device.as_str());
        line.append(": ");
        line.append(outcome);
        assert(line@ =~= device_line(action@, self@.capture.device, outcome@));
        self.status = Status::Message(line);
    }

    /// Shows how a device operation ended, by the status or the success that it reports.
    pub fn set_device_result(&mut self, action: &str, status: Option<&str>, ok: Option<bool>)
        ensures
            final(self)@ == with_status(
                old(self)@,
                StatusText::Message(
                    device_line(
                        action@,
                        old(self)@.capture.device,
                        device_outcome(
                            match status {
                                Some(text) => Some(text@),
                                None => None,
                            },
                            ok,
                        ),
                    ),
                ),
            ),
    {
        match status {
            Some(text) => self.show_device(action, text),
            None => match ok {
                Some(true) => self.show_device(action, "ok"),
                Some(false) => self.show_device(action, "error"),
                None => self.show_device(action, "done"),
            },
        }
    }

    /// Shows what an exposure measurement reports.
    pub fn do_exposure(&mut self, report: &str)
        ensures
            final(self)@ == with_status(
                old(self)@,
                StatusText::Message(
                    device_line("exposure"@, old(self)@.capture.device, report@),
                ),
            ),
    {
        self.show_device("exposure", report);
    }

    /// Ends the profiling of a scanner, given where the profile was written and whether it is good.
    pub fn do_profile_scanner(&mut self, result: Result<(String, bool), ScanError>)
        ensures
            final(self)@ == match result {
                Ok((dest, ok)) => Gui {
                    output: OutputChoice { scanner_profile_path: dest@, ..old(self)@.output },
                    status: StatusText::Message(
                        "profile scanner IT8 → "@ + dest@ + " ok="@ + if ok {
                            "true"@
                        } else {
                            "false"@
                        },
                    ),
                    ..old(self)@
                },
                Err(error) => with_status(old(self)@, StatusText::Error(error@.text())),
            },
    {
        match result {
            Ok((dest, ok)) => {
                let mut line = String::new();
                line.append("profile scanner IT8 → ");
                line.append(dest.as_str());
                line.append(" ok=");
                if ok {
                    line.append("true");
                } else {
                    line.append("false");
                }
                assert(line@ =~= "profile scanner IT8 → "@ + dest@ + " ok="@ + if ok {
                    "true"@
                } else {
                    "false"@
                });
                self.output.scanner_profile_path = dest;
                self.status = Status::Message(line);
            },
            Err(error) => self.set_error(error.message()),
        }
    }
}

// ---------------------------------------------------------------------------
// Configuration
// ---------------------------------------------------------------------------

/// The crop that is saved: none for a blank text, and a rectangle that is not empty.
pub open spec fn crop_to_save(text: Seq<char>) -> Result<Option<Seq<int>>, Seq<char>> {
    match crop_text_value(text) {
        Ok(None) => Ok(None),
        Ok(Some(values)) => if values[2] > 0 && values[3] > 0 {
            Ok(Some(values))
        } else {
            Err("crop width and height must be positive"@)
        },
        Err(error) => Err("invalid crop: "@ + error.spec_text()),
    }
}

/// The error text with which a configuration is not saved, if there is one: a configuration that
/// could not be loaded is not replaced before that was asked for, and every control has to be valid.
pub open spec fn save_refusal(state: Gui, colors: Result<(), Failure>) -> Option<Seq<char>> {
    if state.config_recovery_required {
        Some(
            "configuration was not saved because loading "@ + state.config_path + " failed: "@ + (
            match state.config_load_error {
                Some(text) => text,
                None => "unknown error"@,
            }) + ". Reset configuration before replacing it"@,
        )
    } else {
        match crop_to_save(state.processing.crop_text) {
            Err(text) => Some(text),
            Ok(_) => match curve_of(state.processing.curves_text) {
                Err(failure) => Some("invalid curves: "@ + failure.text()),
                Ok(_) => match colors {
                    Err(failure) => Some("invalid color controls: "@ + failure.text()),
                    Ok(_) => None,
                },
            },
        }
    }
}

/// What acquisition controls are saved as.
pub open spec fn saved_capture(state: Gui) -> Capture {
    Capture {
        last_device_id: state.capture.device,
        default_dpi: state.capture.dpi,
        default_width: state.capture.width,
        default_height: state.capture.height,
        scan_mode: media_mode(state.capture.media),
        duplex: state.capture.duplex,
        batch_pages: larger(state.capture.batch_pages as int, 1) as u32,
    }
}

/// What output controls are saved as. No password and no other runtime choice is among them.
pub open spec fn saved_outputs(state: Gui) -> Outputs {
    Outputs {
        output_dir: state.output.output_dir,
        output_name: state.output.output_name,
        output_format: state.output.output_fmt,
        multipage: state.output.multipage,
        multipage_format: state.output.multipage_format,
        save_raw: state.output.save_raw,
        contact_sheet: state.output.contact_sheet,
        ocr_engine: state.output.ocr_engine,
        ocr_language: state.output.ocr_language,
        language: state.output.language,
    }
}

/// What processing controls are saved as, given the crop.
pub open spec fn saved_processing(p: ProcessingChoice, crop: Option<[i32; 4]>) -> Processing {
    Processing {
        rotate: p.rotate,
        flip_h: p.flip_h,
        flip_v: p.flip_v,
        crop,
        brightness: p.brightness,
        contrast: p.contrast,
        saturation: p.saturation,
        hue: p.hue,
        curves: control_curves(p.curves_text),
        desaturate: p.desaturate,
        levels_black: p.levels_black,
        levels_white: p.levels_white,
        levels_gamma: p.levels_gamma,
        invert_colors: p.invert_colors,
        auto_deskew: p.auto_deskew,
        deskew_angle: p.deskew_angle,
        auto_orient: p.auto_orient,
        auto_crop: p.auto_crop,
        white_balance: p.white_balance,
        auto_levels: p.auto_levels,
        sharpen_amount: p.sharpen_amount,
        infrared_clean: active_choice(p.infrared_clean),
        descreen: p.descreen,
        descreen_dpi: p.descreen_dpi,
        restore_colors: p.restore_colors,
        restore_fading: p.restore_fading,
        grain_reduction: active_choice(p.grain_reduction),
        flatten: p.flatten,
        hole_punch: p.hole_punch,
        colorize_mode: active_choice(p.colorize_mode),
        film_type: filled(p.film_type),
    }
}

/// Whether a saved crop is the one that the text asks for.
pub open spec fn is_saved_crop(crop: Option<[i32; 4]>, text: Seq<char>) -> bool {
    match crop {
        Some(values) => crop_to_save(text) == Ok::<Option<Seq<int>>, Seq<char>>(
            Some(values_of(values)),
        ),
        None => crop_to_save(text) == Ok::<Option<Seq<int>>, Seq<char>>(None),
    }
}

fn read_crop(text: &str) -> (r: Result<Option<[i32; 4]>, String>)
    ensures
        match r {
            Ok(crop) => is_saved_crop(crop, text@),
            Err(message) => crop_to_save(text@) == Err::<Option<Seq<int>>, Seq<char>>(message@),
        },
{
    match parse_crop_string(text) {
        Ok(None) => Ok(None),
        Ok(Some(crop)) => {
            if crop[2] > 0 && crop[3] > 0 {
                Ok(Some(crop))
            } else {
                Err("crop width and height must be positive".to_owned())
            }
        },
        Err(error) => {
            let mut message = "invalid crop: ".to_owned();
            message.append(error.as_str());
            Err(message)
        },
    }
}

fn error_text(prefix: &str, error: &ScanError) -> (r: String)
    ensures
        r@ == prefix@ + error@.text(),
{
    let mut message = prefix.to_owned();
    message.append(error.message().as_str());
    message
}

#[verifier::spinoff_prover]
#[verifier::rlimit(60)]
fn config_processing(
    p: &ProcessingControls,
    crop: Option<[i32; 4]>,
    curves: Option<Vec<[i32; 2]>>,
) -> (r: ProcessingConfig)
    ensures
        r.flip_h == p.flip_h,
        r.flip_v == p.flip_v,
        r.brightness == p.brightness,
        r.contrast == p.contrast,
        r.saturation == p.saturation,
        r.hue == p.hue,
        r.desaturate == p.desaturate,
        r.levels_black == p.levels_black,
        r.levels_white == p.levels_white,
        r.levels_gamma == p.levels_gamma,
        r.auto_deskew == p.auto_deskew,
        r.deskew_angle == p.deskew_angle,
        r.auto_orient == p.auto_orient,
        r.auto_crop == p.auto_crop,
        r.white_balance == p.white_balance,
        r.sharpen_amount == p.sharpen_amount,
        r.descreen == p.descreen,
        r.descreen_dpi == p.descreen_dpi,
        r.auto_levels == p.auto_levels,
        r.restore_colors == p.restore_colors,
        r.restore_fading == p.restore_fading,
        r.flatten == p.flatten,
        r.hole_punch == p.hole_punch,
        r.rotate == p.rotate,
        r.invert_colors == p.invert_colors,
        p.infrared_clean@ == "off"@ ==> r.infrared_clean is None,
        p.infrared_clean@ != "off"@ ==> opt_text(r.infrared_clean) == Some(p.infrared_clean@),
        p.grain_reduction@ == "off"@ ==> r.grain_reduction is None,
        p.grain_reduction@ != "off"@ ==> opt_text(r.grain_reduction) == Some(p.grain_reduction@),
        p.colorize_mode@ == "off"@ ==> r.colorize_mode is None,
        p.colorize_mode@ != "off"@ ==> opt_text(r.colorize_mode) == Some(p.colorize_mode@),
        trim(p.film_type@).len() == 0 ==> r.film_type is None,
        trim(p.film_type@).len() > 0 ==> opt_text(r.film_type) == Some(p.film_type@),
        r.crop == crop,
        r@ == (Processing { curves: opt_points(curves), ..saved_processing(p@, crop) }),
{
    ProcessingConfig {
        rotate: p.rotate,
        flip_h: p.flip_h,
        flip_v: p.flip_v,
        crop,
        brightness: p.brightness,
        contrast: p.contrast,
        saturation: p.saturation,
        hue: p.hue,
        curves,
        desaturate: p.desaturate,
        levels_black: p.levels_black,
        levels_white: p.levels_white,
        levels_gamma: p.levels_gamma,
        invert_colors: p.invert_colors,
        auto_deskew: p.auto_deskew,
        deskew_angle: p.deskew_angle,
        auto_orient: p.auto_orient,
        auto_crop: p.auto_crop,
        white_balance: p.white_balance,
        auto_levels: p.auto_levels,
        sharpen_amount: p.sharpen_amount,
        infrared_clean: active(&p.infrared_clean),
        descreen: p.descreen,
        descreen_dpi: p.descreen_dpi,
        restore_colors: p.restore_colors,
        restore_fading: p.restore_fading,
        grain_reduction: active(&p.grain_reduction),
        flatten: p.flatten,
        hole_punch: p.hole_punch,
        colorize_mode: active(&p.colorize_mode),
        film_type: filled_text(&p.film_type),
    }
}

/// The surface after its configuration was written, or not.
pub open spec fn after_config_save(
    state: Gui,
    config: Settings,
    result: Result<(), Failure>,
) -> Gui {
    match result {
        Ok(_) => Gui { config, status: StatusText::ConfigSaved(state.config_path), ..state },
        Err(failure) => with_status(state, StatusText::Error(failure.text())),
    }
}

impl GuiState {
    fn load_failure(&self) -> (r: String)
        ensures
            r@ == (match self@.config_load_error {
                Some(text) => text,
                None => "unknown error"@,
            }),
    {
        match &self.config_load_error {
            Some(text) => text.clone(),
            None => "unknown error".to_owned(),
        }
    }

    fn config_capture(&self) -> (r: CaptureConfig)
        ensures
            r.last_device_id@ == self.capture.device@,
            r.default_dpi == self.capture.dpi,
            r.default_width == self.capture.width,
            r.default_height == self.capture.height,
            r.duplex == self.capture.duplex,
            r@ == saved_capture(self@),
    {
        CaptureConfig {
            last_device_id: self.capture.device.clone(),
            default_dpi: self.capture.dpi,
            default_width: self.capture.width,
            default_height: self.capture.height,
            scan_mode: self.scan_mode(),
            duplex: self.capture.duplex,
            batch_pages: if self.capture.batch_pages < 1 {
                1
            } else {
                self.capture.batch_pages
            },
        }
    }

    fn config_output(&self) -> (r: OutputConfig)
        ensures
            r.output_dir@ == self.output.output_dir@,
            r.output_name@ == self.output.output_name@,
            r.output_format@ == self.output.output_fmt@,
            r.multipage == self.output.multipage,
            r.multipage_format@ == self.output.multipage_format@,
            r.save_raw == self.output.save_raw,
            r.contact_sheet == self.output.contact_sheet,
            r.ocr_engine@ == self.output.ocr_engine@,
            r.ocr_language@ == self.output.ocr_language@,
            r.language@ == self.output.language@,
            r@ == saved_outputs(self@),
    {
        OutputConfig {
            output_dir: self.output.output_dir.clone(),
            output_name: self.output.output_name.clone(),
            output_format: self.output.output_fmt.clone(),
            multipage: self.output.multipage,
            multipage_format: self.output.multipage_format.clone(),
            save_raw: self.output.save_raw,
            contact_sheet: self.output.contact_sheet,
            ocr_engine: self.output.ocr_engine.clone(),
            ocr_language: self.output.ocr_language.clone(),
            language: self.output.language.clone(),
        }
    }

    /// The configuration that the controls are saved as, given whether the color controls were
    /// accepted; or why it is not saved.
    #[verifier::spinoff_prover]
    #[verifier::rlimit(60)]
    pub fn do_save_config(&self, colors: Result<(), ScanError>) -> (r: Result<AppConfig, String>)
        ensures
            self.config_recovery_required ==> r is Err,
            colors is Err ==> r is Err,
            r is Ok ==> r->Ok_0.capture.last_device_id@ == self.capture.device@,
            r is Ok ==> r->Ok_0.capture.default_dpi == self.capture.dpi,
            r is Ok ==> r->Ok_0.capture.default_width == self.capture.width,
            r is Ok ==> r->Ok_0.capture.default_height == self.capture.height,
            r is Ok ==> r->Ok_0.capture.duplex == self.capture.duplex,
            r is Ok && self.capture.batch_pages >= 1 ==> r->Ok_0.capture.batch_pages == self.capture.batch_pages,
            r is Ok ==> r->Ok_0.output.output_dir@ == self.output.output_dir@,
            r is Ok ==> r->Ok_0.output.output_name@ == self.output.output_name@,
            r is Ok ==> r->Ok_0.output.output_format@ == self.output.output_fmt@,
            r is Ok ==> r->Ok_0.output.multipage == self.output.multipage,
            r is Ok ==> r->Ok_0.output.multipage_format@ == self.output.multipage_format@,
            r is Ok ==> r->Ok_0.output.save_raw == self.output.save_raw,
            r is Ok ==> r->Ok_0.output.contact_sheet == self.output.contact_sheet,
            r is Ok ==> r->Ok_0.output.ocr_engine@ == self.output.ocr_engine@,
            r is Ok ==> r->Ok_0.output.ocr_language@ == self.output.ocr_language@,
            r is Ok ==> r->Ok_0.output.language@ == self.output.language@,
            r is Ok ==> r->Ok_0.processing.flip_h == self.processing.flip_h,
            r is Ok ==> r->Ok_0.processing.flip_v == self.processing.flip_v,
            r is Ok ==> r->Ok_0.processing.brightness == self.processing.brightness,
            r is Ok ==> r->Ok_0.processing.contrast == self.processing.contrast,
            r is Ok ==> r->Ok_0.processing.saturation == self.processing.saturation,
            r is Ok ==> r->Ok_0.processing.hue == self.processing.hue,
            r is Ok ==> r->Ok_0.processing.desaturate == self.processing.desaturate,
            r is Ok ==> r->Ok_0.processing.levels_black == self.processing.levels_black,
            r is Ok ==> r->Ok_0.processing.levels_white == self.processing.levels_white,
            r is Ok ==> r->Ok_0.processing.levels_gamma == self.processing.levels_gamma,
            r is Ok ==> r->Ok_0.processing.auto_deskew == self.processing.auto_deskew,
            r is Ok ==> r->Ok_0.processing.deskew_angle == self.processing.deskew_angle,
            r is Ok ==> r->Ok_0.processing.auto_orient == self.processing.auto_orient,
            r is Ok ==> r->Ok_0.processing.auto_crop == self.processing.auto_crop,
            r is Ok ==> r->Ok_0.processing.white_balance == self.processing.white_balance,
            r is Ok ==> r->Ok_0.processing.sharpen_amount == self.processing.sharpen_amount,
            r is Ok ==> r->Ok_0.processing.descreen == self.processing.descreen,
            r is Ok ==> r->Ok_0.processing.descreen_dpi == self.processing.descreen_dpi,
            r is Ok ==> r->Ok_0.processing.auto_levels == self.processing.auto_levels,
            r is Ok ==> r->Ok_0.processing.restore_colors == self.processing.restore_colors,
            r is Ok ==> r->Ok_0.processing.restore_fading == self.processing.restore_fading,
            r is Ok ==> r->Ok_0.processing.flatten == self.processing.flatten,
            r is Ok ==> r->Ok_0.processing.hole_punch == self.processing.hole_punch,
            r is Ok ==> r->Ok_0.processing.rotate == self.processing.rotate,
            r is Ok ==> r->Ok_0.processing.invert_colors == self.processing.invert_colors,
            r is Ok ==> (self.processing.infrared_clean@ == "off"@ ==> r->Ok_0.processing.infrared_clean is None),
            r is Ok ==> (self.processing.infrared_clean@ != "off"@ ==> opt_text(r->Ok_0.processing.infrared_clean) == Some(self.processing.infrared_clean@)),
            r is Ok ==> (self.processing.grain_reduction@ == "off"@ ==> r->Ok_0.processing.grain_reduction is None),
            r is Ok ==> (self.processing.grain_reduction@ != "off"@ ==> opt_text(r->Ok_0.processing.grain_reduction) == Some(self.processing.grain_reduction@)),
            r is Ok ==> (self.processing.colorize_mode@ == "off"@ ==> r->Ok_0.processing.colorize_mode is None),
            r is Ok ==> (self.processing.colorize_mode@ != "off"@ ==> opt_text(r->Ok_0.processing.colorize_mode) == Some(self.processing.colorize_mode@)),
            r is Ok ==> (trim(self.processing.film_type@).len() == 0 ==> r->Ok_0.processing.film_type is None),
            r is Ok ==> (trim(self.processing.film_type@).len() > 0 ==> opt_text(r->Ok_0.processing.film_type) == Some(self.processing.film_type@)),
            match save_refusal(self@, outcome(colors)) {
                Some(text) => r is Err && r->Err_0@ == text,
                None => {
                    &&& r is Ok
                    &&& r->Ok_0@.capture == saved_capture(self@)
                    &&& r->Ok_0@.output == saved_outputs(self@)
                    &&& r->Ok_0@.processing == saved_processing(
                        self@.processing,
                        r->Ok_0@.processing.crop,
                    )
                    &&& is_saved_crop(r->Ok_0@.processing.crop, self@.processing.crop_text)
                },
            },
    {
        if self.config_recovery_required {
            let mut message = "configuration was not saved because loading ".to_owned();
            message.append(self.config_path.as_str());
            message.append(" failed: ");
            message.append(self.load_failure().as_str());
            message.append(". Reset configuration before replacing it");
            return Err(message);
        }
        let crop = match read_crop(self.processing.crop_text.as_str()) {
            Ok(crop) => crop,
            Err(message) => {
                return Err(message);
            },
        };
        let points = match parse_curve_points(self.processing.curves_text.as_str()) {
            Ok(points) => points,
            Err(error) => {
                return Err(error_text("invalid curves: ", &error));
            },
        };
        match colors {
            Ok(()) => {},
            Err(error) => {
                return Err(error_text("invalid color controls: ", &error));
            },
        }
        Ok(
            AppConfig {
                capture: self.config_capture(),
                output: self.config_output(),
                processing: config_processing(&self.processing, crop, points),
            },
        )
    }

    /// Takes over a configuration once it was written.
    pub fn finish_config_save(&mut self, config: AppConfig, result: Result<(), ScanError>)
        ensures
            final(self)@ == after_config_save(old(self)@, config@, outcome(result)),
    {
        match result {
            Ok(()) => {
                self.config = config;
                self.status = Status::ConfigSaved(self.config_path.clone());
            },
            Err(error) => {
                self.status = Status::Error(error.message());
            },
        }
    }

    /// Explicitly allows the controls to replace a configuration that could not be loaded.
    pub fn do_reset_config_recovery(&mut self)
        ensures
            final(self)@ == recovered(old(self)@),
    {
        if !self.config_recovery_required {
            self.status = Status::Message("configuration recovery is not needed".to_owned());
            return;
        }
        self.config_recovery_required = false;
        self.config_load_error = None;
        let mut message =
            "configuration recovery enabled; Save Config will replace ".to_owned();
        message.append(self.config_path.as_str());
        self.status = Status::Message(message);
    }
}

/// The surface after recovery was asked for.
pub open spec fn recovered(state: Gui) -> Gui {
    if !state.config_recovery_required {
        with_status(state, StatusText::Message("configuration recovery is not needed"@))
    } else {
        Gui {
            config_recovery_required: false,
            config_load_error: None,
            status: StatusText::Message(
                "configuration recovery enabled; Save Config will replace "@ + state.config_path,
            ),
            ..state
        }
    }
}

/// A configuration that could not be loaded is replaced only after recovery was asked for; the
/// refusal does not depend on the controls.
pub proof fn unloaded_configurations_are_kept(
    state: Gui,
    colors: Result<(), Failure>,
)
    requires
        state.config_recovery_required,
    ensures
        save_refusal(state, colors) is Some,
        !recovered(state).config_recovery_required,
        recovered(state).processing == state.processing,
{
}

// ---------------------------------------------------------------------------
// Saving and reprocessing
// ---------------------------------------------------------------------------

/// A save of the current image.
#[derive(Debug)]
pub struct SaveAction {
    pub src: String,
    pub dest: String,
    pub dpi: u32,
    pub export: ExportOptions,
    pub candidate: Option<MultipageSession>,
    pub advance_frame: bool,
    pub pending_pdf_password: Option<String>,
}

/// What a save of the current image is.
pub struct Save {
    pub src: Seq<char>,
    pub dest: Seq<char>,
    pub dpi: u32,
    pub export: Export,
    pub candidate: Option<Session>,
    pub advance_frame: bool,
    pub pending: Option<Seq<char>>,
}

impl View for SaveAction {
    type V = Save;

    open spec fn view(&self) -> Save {
        Save {
            src: self.src@,
            dest: self.dest@,
            dpi: self.dpi,
            export: self.export@,
            candidate: opt_session(self.candidate),
            advance_frame: self.advance_frame,
            pending: opt_text(self.pending_pdf_password),
        }
    }
}

/// The save of an image to a destination: a page of the multipage document, or an image of its own.
pub open spec fn save_to(state: Gui, src: Seq<char>, dest: Seq<char>, advance_frame: bool) -> Save {
    if state.output.multipage {
        let (candidate, pending) = next_candidate(state, dest, src);
        Save {
            src,
            dest,
            dpi: state.capture.dpi,
            export: candidate.export,
            candidate: Some(candidate),
            advance_frame,
            pending,
        }
    } else {
        let export = control_export(state.output, state.pdf_password);
        Save {
            src,
            dest,
            dpi: state.capture.dpi,
            export,
            candidate: None,
            advance_frame,
            pending: export.pdf_password,
        }
    }
}

/// The surface after a save was put together: an image of its own ends the multipage session.
pub open spec fn after_save_to(state: Gui, dest: Seq<char>) -> Gui {
    if state.output.multipage {
        after_candidate(state, dest)
    } else {
        without_password(Gui { session: None, ..state })
    }
}

/// A reprocessing of the current image.
#[derive(Debug)]
pub struct ReprocessAction {
    pub src: String,
    pub dst: String,
    pub pipeline: PipelinePrefs,
    pub export: ExportOptions,
    pub dpi: u32,
    pub pending_pdf_password: Option<String>,
}

impl GuiState {
    fn prepare_save_to(&mut self, src: String, dest: String, advance_frame: bool) -> (r: SaveAction)
        ensures
            r@ == save_to(old(self)@, src@, dest@, advance_frame),
            final(self)@ == after_save_to(old(self)@, dest@),
    {
        let dpi: u32 = self.capture.dpi;
        if self.output.multipage {
            let (candidate, pending) = self.take_multipage_save_candidate(
                dest.as_str(),
                src.as_str(),
            );
            let export = candidate.export.clone();
            SaveAction {
                src,
                dest,
                dpi,
                export,
                candidate: Some(candidate),
                advance_frame,
                pending_pdf_password: pending,
            }
        } else {
            self.clear_multipage_session();
            let export = self.take_export_options();
            let pending = copy_opt(&export.pdf_password);
            SaveAction {
                src,
                dest,
                dpi,
                export,
                candidate: None,
                advance_frame,
                pending_pdf_password: pending,
            }
        }
    }

    /// Puts together a save to a picked destination. Without a current image, without a
    /// destination, or with one that is wrong, nothing but the status line changes.
    #[verifier::spinoff_prover]
    #[verifier::rlimit(60)]
    pub fn prepare_save(&mut self, dest: Result<Option<String>, ScanError>) -> (r: Option<
        SaveAction,
    >)
        ensures
            r is Some <==> old(self).last_image is Some && dest is Ok && dest->Ok_0 is Some,
            r is Some ==> r->0.src@ == old(self).last_image->0@ && r->0.dest@ == dest->Ok_0->0@,
            r is Some ==> r->0.dpi == old(self).capture.dpi && !r->0.advance_frame,
            r is Some && !old(self).output.multipage ==> r->0.candidate is None && final(self).multipage_session
                is None,
            r is Some && old(self).output.multipage ==> r->0.candidate is Some,
            r is Some && !old(self).output.multipage ==> opt_text(r->0.export.pdf_password) == (if old(self).pdf_password@.len() == 0 {
                None
            } else {
                Some(old(self).pdf_password@)
            }),
            r is None ==> final(self).pdf_password@ == old(self).pdf_password@,
            final(self).frame_index == old(self).frame_index,
            match old(self)@.last_image {
                None => r is None && final(self)@ == with_status(
                    old(self)@,
                    StatusText::OpenError,
                ),
                Some(src) => match dest {
                    Err(error) => r is None && final(self)@ == with_status(
                        old(self)@,
                        StatusText::Error(error@.text()),
                    ),
                    Ok(None) => r is None && final(self)@ == with_status(
                        old(self)@,
                        StatusText::Cancelled,
                    ),
                    Ok(Some(dest)) => {
                        &&& r is Some
                        &&& r->0@ == save_to(old(self)@, src, dest@, false)
                        &&& final(self)@ == after_save_to(old(self)@, dest@)
                    },
                },
            },
    {
        let current = copy_opt(&self.last_image);
        match current {
            None => {
                self.status = Status::OpenError;
                None
            },
            Some(src) => match dest {
                Err(error) => {
                    self.status = Status::Error(error.message());
                    None
                },
                Ok(None) => {
                    self.status = Status::Cancelled;
                    None
                },
                Ok(Some(dest)) => Some(self.prepare_save_to(src, dest, false)),
            },
        }
    }

    /// Puts together a save that advances the frame number.
    #[verifier::spinoff_prover]
    #[verifier::rlimit(60)]
    pub fn prepare_save_plus(&mut self, dest: Result<String, ScanError>) -> (r: Option<SaveAction>)
        ensures
            r is Some <==> old(self).last_image is Some && dest is Ok,
            r is Some ==> r->0.src@ == old(self).last_image->0@ && r->0.dest@ == dest->Ok_0@,
            r is Some ==> r->0.dpi == old(self).capture.dpi && r->0.advance_frame,
            r is Some && !old(self).output.multipage ==> r->0.candidate is None && final(self).multipage_session
                is None,
            r is Some && old(self).output.multipage ==> r->0.candidate is Some,
            r is Some && !old(self).output.multipage ==> opt_text(r->0.export.pdf_password) == (if old(self).pdf_password@.len() == 0 {
                None
            } else {
                Some(old(self).pdf_password@)
            }),
            r is None ==> final(self).pdf_password@ == old(self).pdf_password@,
            final(self).frame_index == old(self).frame_index,
            match old(self)@.last_image {
                None => r is None && final(self)@ == with_status(
                    old(self)@,
                    StatusText::OpenError,
                ),
                Some(src) => match dest {
                    Err(error) => r is None && final(self)@ == with_status(
                        old(self)@,
                        StatusText::Error(error@.text()),
                    ),
                    Ok(dest) => {
                        &&& r is Some
                        &&& r->0@ == save_to(old(self)@, src, dest@, true)
                        &&& final(self)@ == after_save_to(old(self)@, dest@)
                    },
                },
            },
    {
        let current = copy_opt(&self.last_image);
        match current {
            None => {
                self.status = Status::OpenError;
                None
            },
            Some(src) => match dest {
                Err(error) => {
                    self.status = Status::Error(error.message());
                    None
                },
                Ok(dest) => Some(self.prepare_save_to(src, dest, true)),
            },
        }
    }

    /// Puts together a reprocessing of the current image, given whether the color controls were
    /// accepted and where it is written. Where it cannot start only the status line changes.
    #[verifier::spinoff_prover]
    #[verifier::rlimit(60)]
    pub fn prepare_reprocess(
        &mut self,
        colors: Result<(), ScanError>,
        dest: Result<String, ScanError>,
    ) -> (r: Option<ReprocessAction>)
        ensures
            r is Some ==> old(self).last_image is Some && r->0.src@ == old(self).last_image->0@,
            r is Some ==> dest is Ok && r->0.dst@ == dest->Ok_0@ && r->0.dpi == old(self).capture.dpi,
            r is Some ==> r->0.pipeline.invert == old(self).processing.invert_colors,
            r is Some ==> r->0.pipeline.flip_h == old(self).processing.flip_h && r->0.pipeline.flip_v == old(self).processing.flip_v,
            r is Some ==> final(self).pdf_password@.len() == 0 && r->0.export.searchable_pdf == old(self).output.searchable_pdf,
            r is None ==> final(self).pdf_password@ == old(self).pdf_password@,
            old(self).cancel_requested || colors is Err || dest is Err || old(self).last_image is None
                ==> r is None,
            match reprocess_refusal(old(self)@, outcome(colors), outcome_view(dest)) {
                Some(status) => r is None && final(self)@ == with_status(old(self)@, status),
                None => {
                    &&& r is Some
                    &&& final(self)@ == without_password(old(self)@)
                    &&& Some(r->0.src@) == old(self)@.last_image
                    &&& Ok::<Seq<char>, Failure>(r->0.dst@) == outcome_view(dest)
                    &&& r->0.pipeline@ == control_prefs(old(self)@.processing)
                    &&& r->0.export@ == control_export(
                        old(self)@.output,
                        old(self)@.pdf_password,
                    )
                    &&& r->0.dpi == old(self)@.capture.dpi
                    &&& opt_text(r->0.pending_pdf_password) == r->0.export@.pdf_password
                },
            },
    {
        if self.cancel_requested {
            self.status = Status::Cancelled;
            return None;
        }
        match colors {
            Ok(()) => {},
            Err(error) => {
                self.status = Status::Error(error_text("invalid color controls: ", &error));
                return None;
            },
        }
        let current = copy_opt(&self.last_image);
        match current {
            None => {
                self.status = Status::OpenError;
                None
            },
            Some(src) => match dest {
                Err(error) => {
                    self.status = Status::Error(error.message());
                    None
                },
                Ok(dst) => {
                    let pipeline = self.pipeline_prefs();
                    let dpi: u32 = self.capture.dpi;
                    let export = self.take_export_options();
                    let pending_pdf_password = copy_opt(&export.pdf_password);
                    Some(ReprocessAction { src, dst, pipeline, export, dpi, pending_pdf_password })
                },
            },
        }
    }
}

/// The status with which a reprocessing does not start.
pub open spec fn reprocess_refusal(
    state: Gui,
    colors: Result<(), Failure>,
    dest: Result<Seq<char>, Failure>,
) -> Option<StatusText> {
    if state.cancel_requested {
        Some(StatusText::Cancelled)
    } else {
        match colors {
            Err(failure) => Some(
                StatusText::Error("invalid color controls: "@ + failure.text()),
            ),
            Ok(_) => if state.last_image is None {
                Some(StatusText::OpenError)
            } else {
                match dest {
                    Err(failure) => Some(StatusText::Error(failure.text())),
                    Ok(_) => None,
                }
            },
        }
    }
}

} // verus!
