//! The surface of the command line: what is run, what is shown and which code is returned.

use crate::acquisition::BackendInfo;
use crate::manufacturers::{bool_name, bool_text};
use vstd::prelude::*;
use vstd::string::StringExecFns;

verus! {

/// The exit code of an operation that was cancelled.
pub const CANCELLED_EXIT_CODE: i32 = 130;

/// The exit code of an operation: a cancelled one is told apart from any other.
pub fn operation_exit_code(code: i32, is_cancelled: bool) -> (r: i32)
    ensures
        r == (if is_cancelled {
            CANCELLED_EXIT_CODE
        } else {
            code
        }),
{
    if is_cancelled {
        CANCELLED_EXIT_CODE
    } else {
        code
    }
}

/// The exit code where arguments were not parsed: help and version are no errors.
pub fn parse_exit_code(is_error: bool) -> (r: i32)
    ensures
        r == (if is_error {
            2i32
        } else {
            0i32
        }),
{
    if is_error {
        2
    } else {
        0
    }
}

/// How the application is started.
#[derive(Debug, Clone, Copy, PartialEq, Eq, Structural)]
pub enum RunMode {
    Normal,
    Plugin,
}

/// What is started.
#[derive(Debug, Clone, Copy, PartialEq, Eq, Structural)]
pub enum Startup {
    Plugin,
    Gui,
    Command,
}

/// What is started: a command where one is given, and otherwise what the mode says.
pub fn dispatch(mode: RunMode, has_command: bool) -> (r: Startup)
    ensures
        r == (if has_command {
            Startup::Command
        } else if mode == RunMode::Plugin {
            Startup::Plugin
        } else {
            Startup::Gui
        }),
{
    if has_command {
        Startup::Command
    } else if mode == RunMode::Plugin {
        Startup::Plugin
    } else {
        Startup::Gui
    }
}

// ---------------------------------------------------------------------------
// Information
// ---------------------------------------------------------------------------

/// What information is asked for.
#[derive(Debug, Clone, Copy, PartialEq, Eq, Structural)]
pub enum InfoModule {
    All,
    Platform,
    Ocr,
    Ml,
    Twain,
    Backends,
    Features,
    Manufacturers,
}

/// The sections of an information report, in order.
pub open spec fn info_sections(module: InfoModule) -> Seq<InfoModule> {
    if module == InfoModule::All {
        seq![
            InfoModule::Platform,
            InfoModule::Ocr,
            InfoModule::Ml,
            InfoModule::Twain,
            InfoModule::Backends,
            InfoModule::Features,
            InfoModule::Manufacturers,
        ]
    } else {
        seq![module]
    }
}

/// The sections of an information report, in order.
pub fn report_sections(module: InfoModule) -> (r: Vec<InfoModule>)
    ensures
        module != InfoModule::All ==> r@ == seq![module],
        module == InfoModule::All ==> r@.len() == 7 && r@[0] is Platform && r@[1] is Ocr && r@[2] is Ml && r@[3]
            is Twain && r@[4] is Backends && r@[5] is Features && r@[6] is Manufacturers,
        r@ == info_sections(module),
{
    let mut sections: Vec<InfoModule> = Vec::new();
    if module == InfoModule::All {
        sections.push(InfoModule::Platform);
        sections.push(InfoModule::Ocr);
        sections.push(InfoModule::Ml);
        sections.push(InfoModule::Twain);
        sections.push(InfoModule::Backends);
        sections.push(InfoModule::Features);
        sections.push(InfoModule::Manufacturers);
    } else {
        sections.push(module);
    }
    assert(sections@ =~= info_sections(module));
    sections
}

/// The line of a backend.
pub fn backend_line(backend: &BackendInfo) -> (r: String)
    ensures
        backend.available ==> r@ == "# backend\t"@ + backend.id@ + "\t"@ + backend.name@ + "\tavailable="@
            + "true"@,
        !backend.available ==> r@ == "# backend\t"@ + backend.id@ + "\t"@ + backend.name@ + "\tavailable="@
            + "false"@,
        r@ == "# backend\t"@ + backend.id@ + "\t"@ + backend.name@ + "\tavailable="@ + bool_text(
            backend.available,
        ),
{
    let mut out = "# backend\t".to_owned();
    out.append(backend.id.as_str());
    out.append("\t");
    out.append(backend.name.as_str());
    out.append("\tavailable=");
    out.append(bool_name(backend.available));
    out
}

// ---------------------------------------------------------------------------
// Manual
// ---------------------------------------------------------------------------

/// The manual behind the name and version of the application.
pub open spec fn manual_body() -> Seq<char> {
    " — local Rust application for acquiring, processing, and exporting scanned images\n\nCommands:\n  devices              List sources and backend availability\n  manufacturers        Browse the manufacturer support catalog\n  scan                 Acquire one image from a selected source\n  batch                Multi-page acquisition with PDF or TIFF output\n  package              Validate and archive an existing executable as ZIP\n  convert              Convert an image to PNG, JPEG, TIFF, WebP, BMP, GIF, or PDF; JPEG XL needs cjxl\n  process              Crop, transform, clean, and adjust an image\n  onnx                 Run a user-supplied ONNX image model and print JSON\n  ocr                  Built-in offline OCR or optional Tesseract OCR\n  info                 Capability and runtime availability JSON\n  config               Show or write the JSON configuration\n  gui                  Desktop GUI (default gui feature and desktop session)\n  plugin / --mode=plugin   Headless host status and acquisition entry point\n  help-text            This manual\n\nShared paths:\n  open_scanline::scan::run_scan_to_file\n  open_scanline::process::process_image_file\n  open_scanline::batch::run_batch_scan\n\nPDF export controls for scan, process, and batch:\n  --pdf-searchable            Add OCR text layers to a PDF destination\n  --pdf-password-file PATH    Read a PDF password from PATH, or - for standard input\n  --pdf-password PASSWORD     UNSAFE/DEPRECATED; requires --allow-insecure-password-argv\n  --allow-insecure-password-argv\n                               Explicitly opt in to a command-line password\n  --ocr-lang LANG             OCR language (default: eng)\n  --ocr-engine offline|tesseract\n                               OCR implementation for searchable PDF output\n  --scanner-profile PATH      Apply a scanner profile before export\n  For batch, these PDF-only controls require a PDF destination selected by --multipage-pdf,\n  --multipage-out PATH.pdf, or the configured output/multipage format.\n\nDirect eSCL trust:\n  --allow-unlisted-escl        Permit a strict direct eSCL device id that was not discovered\n                               or listed in OPEN_SCANLINE_ESCL_HOSTS (scan and batch only)\n\nNot included: proprietary scanner drivers, firmware, activation or licensing systems,\na native TWAIN Data Source or direct TWAIN acquisition, or proprietary resource blobs.\n"@
}

/// The manual of the application.
pub fn user_manual_text(version: &str) -> (r: String)
    ensures
        r@ == "open-scanline "@ + version@ + manual_body(),
{
    let mut out = "open-scanline ".to_owned();
    out.append(version);
    out.append(" — local Rust application for acquiring, processing, and exporting scanned images\n\nCommands:\n  devices              List sources and backend availability\n  manufacturers        Browse the manufacturer support catalog\n  scan                 Acquire one image from a selected source\n  batch                Multi-page acquisition with PDF or TIFF output\n  package              Validate and archive an existing executable as ZIP\n  convert              Convert an image to PNG, JPEG, TIFF, WebP, BMP, GIF, or PDF; JPEG XL needs cjxl\n  process              Crop, transform, clean, and adjust an image\n  onnx                 Run a user-supplied ONNX image model and print JSON\n  ocr                  Built-in offline OCR or optional Tesseract OCR\n  info                 Capability and runtime availability JSON\n  config               Show or write the JSON configuration\n  gui                  Desktop GUI (default gui feature and desktop session)\n  plugin / --mode=plugin   Headless host status and acquisition entry point\n  help-text            This manual\n\nShared paths:\n  open_scanline::scan::run_scan_to_file\n  open_scanline::process::process_image_file\n  open_scanline::batch::run_batch_scan\n\nPDF export controls for scan, process, and batch:\n  --pdf-searchable            Add OCR text layers to a PDF destination\n  --pdf-password-file PATH    Read a PDF password from PATH, or - for standard input\n  --pdf-password PASSWORD     UNSAFE/DEPRECATED; requires --allow-insecure-password-argv\n  --allow-insecure-password-argv\n                               Explicitly opt in to a command-line password\n  --ocr-lang LANG             OCR language (default: eng)\n  --ocr-engine offline|tesseract\n                               OCR implementation for searchable PDF output\n  --scanner-profile PATH      Apply a scanner profile before export\n  For batch, these PDF-only controls require a PDF destination selected by --multipage-pdf,\n  --multipage-out PATH.pdf, or the configured output/multipage format.\n\nDirect eSCL trust:\n  --allow-unlisted-escl        Permit a strict direct eSCL device id that was not discovered\n                               or listed in OPEN_SCANLINE_ESCL_HOSTS (scan and batch only)\n\nNot included: proprietary scanner drivers, firmware, activation or licensing systems,\na native TWAIN Data Source or direct TWAIN acquisition, or proprietary resource blobs.\n");
    out
}

} // verus!
