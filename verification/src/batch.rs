//! Batch multi-page scan orchestration.

use crate::acquisition::{
    validate_scan_dpi, low_resolution, Request, ScanMode, ScanPagesEnd, ScanRequest,
    MAX_SCAN_PAGES, MIN_SCAN_DPI,
};
use crate::error::{cancelled, invalid, outcome, outcome_view, unsupported, Failure, ScanError};
use crate::export::{
    export_uses_pdf_features, multipage_pdf_choices, multipage_pdf_options,
    prepare_export_options_for_pdf, prepared_export, uses_pdf_features, Export, ExportOptions,
};
use crate::image::{checked_image_len, image_len, PixelFormat};
use crate::paths::{Extension, Suffix};
use crate::pdf::limits::{
    checked_pdf_searchable_text_total, searchable_aggregate, PdfChoices, PdfOptions,
};
use crate::processing::{PipelinePrefs, Prefs};
use crate::text::{
    chars_of, copy_strings, decimal, digits_value, has_prefix, lemma_decimal, lower_all,
    lower_chars, push_decimal, same_text, starts_with, strings, text_of,
};
use vstd::prelude::*;
use vstd::slice::slice_subrange;
use vstd::string::StringExecFns;

verus! {

/// The most logical sides of one batch, both sides of duplex sheets counted.
pub const MAX_BATCH_PAGES: u32 = MAX_SCAN_PAGES;

/// An output that a batch writes beside its pages.
#[derive(Debug)]
pub struct BatchOutput {
    pub path: String,
    pub extension: Extension,
    /// Whether the path is a file name in the output directory.
    pub in_out_dir: bool,
}

/// What is known of an output.
pub struct Target {
    pub path: Seq<char>,
    pub extension: Suffix,
    pub in_out_dir: bool,
}

impl View for BatchOutput {
    type V = Target;

    open spec fn view(&self) -> Target {
        Target { path: self.path@, extension: self.extension@, in_out_dir: self.in_out_dir }
    }
}

impl Clone for BatchOutput {
    fn clone(&self) -> (r: Self)
        ensures
            r@ == self@,
    {
        BatchOutput {
            path: self.path.clone(),
            extension: self.extension.clone(),
            in_out_dir: self.in_out_dir,
        }
    }
}

/// Copies an optional output.
pub fn copy_output(o: &Option<BatchOutput>) -> (r: Option<BatchOutput>)
    ensures
        opt_target(r) == opt_target(*o),
{
    match o {
        Some(output) => Some(output.clone()),
        None => None,
    }
}

/// What is known of an optional output.
pub open spec fn opt_target(o: Option<BatchOutput>) -> Option<Target> {
    match o {
        Some(output) => Some(output@),
        None => None,
    }
}

/// Extended batch arguments.
#[derive(Debug)]
pub struct BatchScanArgs {
    pub device: String,
    pub out_dir: String,
    pub pages: u32,
    pub width: u32,
    pub height: u32,
    pub seed: u32,
    pub dpi: u32,
    pub mode: ScanMode,
    pub duplex: bool,
    pub format: String,
    pub multipage_tiff: Option<BatchOutput>,
    pub multipage_pdf: Option<BatchOutput>,
    pub multipage_out: Option<BatchOutput>,
    pub contact_sheet: Option<BatchOutput>,
    pub pipeline: PipelinePrefs,
}

/// What batch arguments hold.
pub struct Batch {
    pub device: Seq<char>,
    pub out_dir: Seq<char>,
    pub pages: u32,
    pub width: u32,
    pub height: u32,
    pub seed: u32,
    pub dpi: u32,
    pub mode: ScanMode,
    pub duplex: bool,
    pub format: Seq<char>,
    pub multipage_tiff: Option<Target>,
    pub multipage_pdf: Option<Target>,
    pub multipage_out: Option<Target>,
    pub contact_sheet: Option<Target>,
    pub pipeline: Prefs,
}

impl View for BatchScanArgs {
    type V = Batch;

    open spec fn view(&self) -> Batch {
        Batch {
            device: self.device@,
            out_dir: self.out_dir@,
            pages: self.pages,
            width: self.width,
            height: self.height,
            seed: self.seed,
            dpi: self.dpi,
            mode: self.mode,
            duplex: self.duplex,
            format: self.format@,
            multipage_tiff: opt_target(self.multipage_tiff),
            multipage_pdf: opt_target(self.multipage_pdf),
            multipage_out: opt_target(self.multipage_out),
            contact_sheet: opt_target(self.contact_sheet),
            pipeline: self.pipeline@,
        }
    }
}

impl Default for BatchScanArgs {
    fn default() -> (r: Self)
        ensures
            r@ == (Batch {
                device: "mock"@,
                out_dir: "batch_out"@,
                pages: 2,
                width: 320,
                height: 240,
                seed: 1,
                dpi: 150,
                mode: ScanMode::Reflective,
                duplex: false,
                format: "png"@,
                multipage_tiff: None,
                multipage_pdf: None,
                multipage_out: None,
                contact_sheet: None,
                pipeline: crate::processing::plain_prefs(),
            }),
    {
        BatchScanArgs {
            device: "mock".to_owned(),
            out_dir: "batch_out".to_owned(),
            pages: 2,
            width: 320,
            height: 240,
            seed: 1,
            dpi: 150,
            mode: ScanMode::Reflective,
            duplex: false,
            format: "png".to_owned(),
            multipage_tiff: None,
            multipage_pdf: None,
            multipage_out: None,
            contact_sheet: None,
            pipeline: PipelinePrefs::default(),
        }
    }
}

// ---------------------------------------------------------------------------
// Cancellation
// ---------------------------------------------------------------------------

/// The error of a cancelled batch.
pub open spec fn batch_cancelled() -> Failure {
    Failure::Cancelled("batch scan cancelled"@)
}

/// Refuses to go on with a cancelled batch.
pub fn check_output_cancellation(is_cancelled: bool) -> (r: Result<(), ScanError>)
    ensures
        outcome(r) == (if is_cancelled {
            Err::<(), Failure>(batch_cancelled())
        } else {
            Ok(())
        }),
{
    if is_cancelled {
        Err(cancelled("batch scan cancelled"))
    } else {
        Ok(())
    }
}

// ---------------------------------------------------------------------------
// Arguments
// ---------------------------------------------------------------------------

/// How many PDF documents a batch writes.
pub open spec fn pdf_count(batch: Batch) -> int {
    (if batch.multipage_pdf is Some {
        1int
    } else {
        0
    }) + (if batch.multipage_out matches Some(target) && target.extension.same_as("pdf"@) {
        1int
    } else {
        0
    })
}

/// How many PDF documents a batch writes.
pub fn pdf_destinations(args: &BatchScanArgs) -> (r: usize)
    ensures
        r == pdf_count(args@),
{
    let mut count: usize = 0;
    if args.multipage_pdf.is_some() {
        count += 1;
    }
    if let Some(output) = &args.multipage_out {
        if output.extension.same_as("pdf") {
            count += 1;
        }
    }
    count
}

/// Whether batch arguments can be used.
pub open spec fn batch_args_checked(batch: Batch) -> Result<(), Failure> {
    if batch.pages < 1 {
        Err(Failure::Invalid("pages must be >= 1"@))
    } else if batch.pages > MAX_BATCH_PAGES {
        Err(Failure::Invalid("pages must be <= 1000"@))
    } else {
        match image_len(batch.width as int, batch.height as int, 3) {
            Err(failure) => Err(failure),
            Ok(_) => if batch.dpi < MIN_SCAN_DPI {
                Err(low_resolution())
            } else if batch.duplex && batch.mode != ScanMode::Document {
                Err(
                    Failure::Invalid(
                        "duplex batch acquisition requires the document/ADF source"@,
                    ),
                )
            } else if batch.duplex && batch.pages % 2 != 0 {
                Err(
                    Failure::Invalid(
                        "duplex batch page count is logical sides and must be even"@,
                    ),
                )
            } else {
                Ok(())
            },
        }
    }
}

/// Validates batch arguments.
pub fn validate_batch_args(args: &BatchScanArgs) -> (r: Result<(), ScanError>)
    ensures
        outcome(r) == batch_args_checked(args@),
{
    if args.pages < 1 {
        return Err(invalid("pages must be >= 1"));
    }
    if args.pages > MAX_BATCH_PAGES {
        return Err(invalid("pages must be <= 1000"));
    }
    match checked_image_len(args.width, args.height, PixelFormat::Rgb8.bpp()) {
        Ok(_) => {},
        Err(error) => {
            return Err(error);
        },
    }
    match validate_scan_dpi(args.dpi, args.dpi) {
        Ok(()) => {},
        Err(error) => {
            return Err(error);
        },
    }
    if args.duplex && args.mode != ScanMode::Document {
        return Err(invalid("duplex batch acquisition requires the document/ADF source"));
    }
    if args.duplex && args.pages % 2 != 0 {
        return Err(invalid("duplex batch page count is logical sides and must be even"));
    }
    Ok(())
}

/// A batch that is accepted scans both sides only from the document source, and in whole sheets.
pub proof fn duplex_batches_are_whole_sheets(batch: Batch)
    requires
        batch_args_checked(batch) is Ok,
        batch.duplex,
    ensures
        batch.mode == ScanMode::Document,
        batch.pages % 2 == 0,
        2 <= batch.pages <= MAX_BATCH_PAGES,
{
}

/// A batch is accepted exactly with one to a thousand pages of an accepted size and resolution; both
/// sides are scanned only from the document source, and in whole sheets.
pub proof fn accepted_batches(batch: Batch)
    ensures
        batch_args_checked(batch) is Ok <==> {
            &&& 1 <= batch.pages <= 1000
            &&& image_len(batch.width as int, batch.height as int, 3) is Ok
            &&& batch.dpi >= MIN_SCAN_DPI
            &&& batch.duplex ==> batch.mode == ScanMode::Document && batch.pages % 2 == 0
        },
{
}

/// The format without its leading dot, in lower case.
pub open spec fn plain_format(format: Seq<char>) -> Seq<char> {
    let lowered = lower_all(format);
    if starts_with(lowered, "."@) {
        lowered.skip(1)
    } else {
        lowered
    }
}

/// Whether pages can be written in a format.
pub open spec fn is_page_format(ext: Seq<char>) -> bool {
    ext == "png"@ || ext == "jpg"@ || ext == "jpeg"@ || ext == "tif"@ || ext == "tiff"@ || ext
        == "webp"@ || ext == "bmp"@ || ext == "gif"@ || ext == "jxl"@
}

/// The file extension of pages in a format.
pub open spec fn page_extension(format: Seq<char>) -> Result<Seq<char>, Failure> {
    let ext = plain_format(format);
    if !is_page_format(ext) {
        Err(Failure::Invalid("unsupported batch format '"@ + ext + "'"@))
    } else if ext == "jpeg"@ {
        Ok("jpg"@)
    } else {
        Ok(ext)
    }
}

fn page_format(ext: &str) -> (r: bool)
    ensures
        r == is_page_format(ext@),
{
    same_text(ext, "png") || same_text(ext, "jpg") || same_text(ext, "jpeg") || same_text(
        ext,
        "tif",
    ) || same_text(ext, "tiff") || same_text(ext, "webp") || same_text(ext, "bmp") || same_text(
        ext,
        "gif",
    ) || same_text(ext, "jxl")
}

/// The file extension of pages in a format.
#[verifier::spinoff_prover]
#[verifier::rlimit(60)]
pub fn batch_file_extension(format: &str) -> (r: Result<String, ScanError>)
    ensures
        r is Ok ==> r->Ok_0@ == "png"@ || r->Ok_0@ == "jpg"@ || r->Ok_0@ == "tif"@ || r->Ok_0@ == "tiff"@
            || r->Ok_0@ == "webp"@ || r->Ok_0@ == "bmp"@ || r->Ok_0@ == "gif"@ || r->Ok_0@ == "jxl"@,
        plain_format(format@) == "jpeg"@ || plain_format(format@) == "jpg"@ ==> r is Ok && r->Ok_0@
            == "jpg"@,
        ({
            let ext = plain_format(format@);
            ext == "png"@ || ext == "tif"@ || ext == "tiff"@ || ext == "webp"@ || ext == "bmp"@ || ext
                == "gif"@ || ext == "jxl"@ ==> r is Ok && r->Ok_0@ == ext
        }),
        outcome_view(r) == page_extension(format@),
{
    proof {
        reveal_strlit(".");
        reveal_strlit("jpeg");
        reveal_strlit("jpg");
        reveal_strlit("png");
        reveal_strlit("tif");
        reveal_strlit("tiff");
        reveal_strlit("webp");
        reveal_strlit("bmp");
        reveal_strlit("gif");
        reveal_strlit("jxl");
        assert("jpeg"@[0] == 'j' && "tiff"@[0] == 't' && "webp"@[0] == 'w');
        assert("jpeg"@.len() == 4 && "jpg"@.len() == 3);
    }
    let chars = chars_of(format);
    let lowered = lower_chars(chars.as_slice());
    let dot = chars_of(".");
    let ext = if has_prefix(lowered.as_slice(), dot.as_slice()) {
        let rest = slice_subrange(lowered.as_slice(), 1, lowered.len());
        assert(rest@ =~= lowered@.skip(1));
        text_of(rest)
    } else {
        text_of(lowered.as_slice())
    };
    if !page_format(ext.as_str()) {
        let mut message = "unsupported batch format '".to_owned();
        message.append(ext.as_str());
        message.append("'");
        return Err(ScanError::Invalid(message));
    }
    if same_text(ext.as_str(), "jpeg") {
        Ok("jpg".to_owned())
    } else {
        Ok(ext)
    }
}

/// A number with leading zeros up to three digits.
pub open spec fn three_digits(n: nat) -> Seq<char> {
    if n < 10 {
        "00"@ + decimal(n)
    } else if n < 100 {
        "0"@ + decimal(n)
    } else {
        decimal(n)
    }
}

/// The file name of a page.
pub open spec fn page_name(page: nat, ext: Seq<char>) -> Seq<char> {
    "page_"@ + three_digits(page) + "."@ + ext
}

/// The file name of a page, counted from one.
pub fn page_file_name(page: u32, ext: &str) -> (r: String)
    ensures
        r@ == page_name(page as nat, ext@),
{
    let mut out = "page_".to_owned();
    if page < 10 {
        out.append("00");
    } else if page < 100 {
        out.append("0");
    }
    push_decimal(&mut out, page as u64);
    out.append(".");
    out.append(ext);
    assert(out@ =~= page_name(page as nat, ext@));
    out
}

proof fn lemma_leading_zero(s: Seq<char>)
    ensures
        digits_value(seq!['0'] + s) == digits_value(s),
    decreases s.len(),
{
    let t = seq!['0'] + s;
    if s.len() == 0 {
        assert(t.drop_last() =~= Seq::<char>::empty());
        assert(t.last() == '0');
        assert(digits_value(t.drop_last()) == 0);
    } else {
        assert(t.drop_last() =~= seq!['0'] + s.drop_last());
        assert(t.last() == s.last());
        lemma_leading_zero(s.drop_last());
    }
}

/// Pages of one batch have different file names.
pub proof fn page_names_differ(a: nat, b: nat, ext: Seq<char>)
    requires
        a != b,
    ensures
        page_name(a, ext) != page_name(b, ext),
{
    lemma_three_digits(a);
    lemma_three_digits(b);
    let x = three_digits(a);
    let y = three_digits(b);
    if page_name(a, ext) == page_name(b, ext) {
        let p = page_name(a, ext);
        let q = page_name(b, ext);
        assert(p.len() == 5 + x.len() + 1 + ext.len()) by {
            reveal_strlit("page_");
            reveal_strlit(".");
        }
        assert(q.len() == 5 + y.len() + 1 + ext.len()) by {
            reveal_strlit("page_");
            reveal_strlit(".");
        }
        assert(x.len() == y.len());
        assert(x =~= p.subrange(5, 5 + x.len() as int)) by {
            reveal_strlit("page_");
        }
        assert(y =~= q.subrange(5, 5 + y.len() as int)) by {
            reveal_strlit("page_");
        }
    }
}

proof fn lemma_three_digits(n: nat)
    ensures
        digits_value(three_digits(n)) == n,
{
    reveal_strlit("0");
    reveal_strlit("00");
    lemma_decimal(n);
    let d = decimal(n);
    if n < 10 {
        lemma_leading_zero(d);
        lemma_leading_zero(seq!['0'] + d);
        assert("00"@ + d =~= seq!['0'] + (seq!['0'] + d));
    } else if n < 100 {
        lemma_leading_zero(d);
        assert("0"@ + d =~= seq!['0'] + d);
    }
}

/// The file name of a page is `page_`, a number of at least three digits that reads back as the number
/// of the page, a dot and the extension.
#[verifier::spinoff_prover]
#[verifier::rlimit(60)]
pub proof fn page_names_tell_their_page(page: nat, ext: Seq<char>)
    ensures
        page_name(page, ext).len() >= 9 + ext.len(),
        page_name(page, ext).take(5) == "page_"@,
        page_name(page, ext).skip(page_name(page, ext).len() - ext.len()) == ext,
        page_name(page, ext)[page_name(page, ext).len() - ext.len() - 1] == '.',
        digits_value(
            page_name(page, ext).subrange(5, page_name(page, ext).len() - ext.len() - 1),
        ) == page,
{
    lemma_three_digits(page);
    reveal_strlit("page_");
    reveal_strlit(".");
    reveal_strlit("0");
    reveal_strlit("00");
    let name = page_name(page, ext);
    let digits = three_digits(page);
    lemma_decimal_len(page);
    assert(name.len() == 5 + digits.len() + 1 + ext.len());
    assert(name.take(5) =~= "page_"@);
    assert(name.skip(name.len() - ext.len()) =~= ext);
    assert(name.subrange(5, name.len() - ext.len() - 1) =~= digits);
}

proof fn lemma_decimal_len(n: nat)
    ensures
        decimal(n).len() >= 1,
        n >= 10 ==> decimal(n).len() >= 2,
        n >= 100 ==> decimal(n).len() >= 3,
{
    reveal_with_fuel(decimal, 4);
}

// ---------------------------------------------------------------------------
// Destinations
// ---------------------------------------------------------------------------

/// The outputs that a batch can write beside its pages.
#[derive(Debug, Clone, Copy, PartialEq, Eq, Structural)]
pub enum OutputKind {
    Multipage,
    Tiff,
    Pdf,
    ContactSheet,
}

impl OutputKind {
    /// What the output is called.
    pub open spec fn spec_label(self) -> Seq<char> {
        match self {
            OutputKind::Multipage => "multipage output"@,
            OutputKind::Tiff => "multipage TIFF"@,
            OutputKind::Pdf => "multipage PDF"@,
            OutputKind::ContactSheet => "contact sheet"@,
        }
    }

    /// What the output is called.
    pub fn label(self) -> (r: &'static str)
        ensures
            self is Multipage ==> r@ == "multipage output"@,
            self is Tiff ==> r@ == "multipage TIFF"@,
            self is Pdf ==> r@ == "multipage PDF"@,
            self is ContactSheet ==> r@ == "contact sheet"@,
            r@ == self.spec_label(),
    {
        match self {
            OutputKind::Multipage => "multipage output",
            OutputKind::Tiff => "multipage TIFF",
            OutputKind::Pdf => "multipage PDF",
            OutputKind::ContactSheet => "contact sheet",
        }
    }
}

/// The extension that a path without one is given.
pub open spec fn default_extension(kind: OutputKind, extension: Suffix) -> Option<Seq<char>> {
    if extension is Missing {
        match kind {
            OutputKind::Multipage => Some("tif"@),
            OutputKind::ContactSheet => Some("bmp"@),
            _ => None,
        }
    } else {
        None
    }
}

/// The extension that a path without one is given.
pub fn added_extension(kind: OutputKind, extension: &Extension) -> (r: Option<&'static str>)
    ensures
        match default_extension(kind, extension@) {
            Some(text) => r is Some && r->0@ == text,
            None => r is None,
        },
{
    if extension.is_missing() {
        match kind {
            OutputKind::Multipage => Some("tif"),
            OutputKind::ContactSheet => Some("bmp"),
            _ => None,
        }
    } else {
        None
    }
}

/// The outputs that a batch was asked for, in the order in which they are looked at.
pub open spec fn requested(batch: Batch) -> Seq<(OutputKind, Target)> {
    let out = match batch.multipage_out {
        Some(target) => seq![(OutputKind::Multipage, target)],
        None => Seq::empty(),
    };
    let tiff = match batch.multipage_tiff {
        Some(target) => seq![(OutputKind::Tiff, target)],
        None => Seq::empty(),
    };
    let pdf = match batch.multipage_pdf {
        Some(target) => seq![(OutputKind::Pdf, target)],
        None => Seq::empty(),
    };
    let sheet = match batch.contact_sheet {
        Some(target) => seq![(OutputKind::ContactSheet, target)],
        None => Seq::empty(),
    };
    out + tiff + pdf + sheet
}

/// What requested outputs hold.
pub open spec fn requests_of(v: Seq<(OutputKind, BatchOutput)>) -> Seq<(OutputKind, Target)> {
    v.map_values(|x: (OutputKind, BatchOutput)| (x.0, x.1@))
}

fn push_request(
    list: &mut Vec<(OutputKind, BatchOutput)>,
    kind: OutputKind,
    output: &Option<BatchOutput>,
)
    ensures
        requests_of(final(list)@) == requests_of(old(list)@) + match opt_target(*output) {
            Some(target) => seq![(kind, target)],
            None => Seq::empty(),
        },
{
    let ghost before = requests_of(list@);
    if let Some(output) = output {
        list.push((kind, output.clone()));
        assert(requests_of(list@) =~= before + seq![(kind, output@)]);
    } else {
        assert(before =~= before + Seq::<(OutputKind, Target)>::empty());
    }
}

/// The outputs that a batch was asked for.
pub fn requested_outputs(args: &BatchScanArgs) -> (r: Vec<(OutputKind, BatchOutput)>)
    ensures
        requests_of(r@) == requested(args@),
{
    let mut list: Vec<(OutputKind, BatchOutput)> = Vec::new();
    push_request(&mut list, OutputKind::Multipage, &args.multipage_out);
    push_request(&mut list, OutputKind::Tiff, &args.multipage_tiff);
    push_request(&mut list, OutputKind::Pdf, &args.multipage_pdf);
    push_request(&mut list, OutputKind::ContactSheet, &args.contact_sheet);
    assert(requests_of(list@) =~= requested(args@));
    list
}

/// What was found out about one destination: whether its last part can be written, and which
/// earlier destinations and generated pages are the same file.
#[derive(Debug)]
pub struct Destination {
    pub kind: OutputKind,
    pub extension: Extension,
    /// The path that is written, with the extension that was added.
    pub shown: String,
    pub leaf: Result<(), ScanError>,
    pub same_as_earlier: Vec<Result<bool, ScanError>>,
    pub same_as_page: Vec<Result<bool, ScanError>>,
}

/// What was found out about one destination.
pub struct Place {
    pub kind: OutputKind,
    pub extension: Suffix,
    pub shown: Seq<char>,
    pub leaf: Result<(), Failure>,
    pub same_as_earlier: Seq<Result<bool, Failure>>,
    pub same_as_page: Seq<Result<bool, Failure>>,
}

/// The answers of a row of questions.
pub open spec fn answers(v: Seq<Result<bool, ScanError>>) -> Seq<Result<bool, Failure>> {
    v.map_values(|x: Result<bool, ScanError>| outcome(x))
}

impl View for Destination {
    type V = Place;

    open spec fn view(&self) -> Place {
        Place {
            kind: self.kind,
            extension: self.extension@,
            shown: self.shown@,
            leaf: outcome(self.leaf),
            same_as_earlier: answers(self.same_as_earlier@),
            same_as_page: answers(self.same_as_page@),
        }
    }
}

/// What was found out about destinations.
pub open spec fn places_of(v: Seq<Destination>) -> Seq<Place> {
    v.map_values(|x: Destination| x@)
}

/// Whether an extension is allowed for an output.
pub open spec fn extension_checked(
    label: Seq<char>,
    extension: Option<Seq<char>>,
    allowed: Seq<Seq<char>>,
) -> Result<(), Failure> {
    match extension {
        None => Err(Failure::Invalid(label + " has no supported extension"@)),
        Some(text) => if allowed.contains(text) {
            Ok(())
        } else {
            Err(Failure::Invalid("unsupported "@ + label + " extension '."@ + text + "'"@))
        },
    }
}

/// The extensions that an output can have.
pub open spec fn allowed_extensions(kind: OutputKind, images: Seq<Seq<char>>) -> Seq<Seq<char>> {
    match kind {
        OutputKind::Multipage => seq!["pdf"@, "tif"@, "tiff"@],
        OutputKind::Tiff => seq!["tif"@, "tiff"@],
        OutputKind::Pdf => seq!["pdf"@],
        OutputKind::ContactSheet => images,
    }
}

/// Whether one destination can be written: its last part, then its extension.
pub open spec fn place_checked(place: Place, images: Seq<Seq<char>>) -> Result<(), Failure> {
    match place.leaf {
        Err(failure) => Err(failure),
        Ok(_) => if place.kind == OutputKind::Multipage && place.extension is Missing {
            Ok(())
        } else {
            extension_checked(
                place.kind.spec_label(),
                match default_extension(place.kind, place.extension) {
                    Some(text) => Some(text),
                    None => place.extension.lower(),
                },
                allowed_extensions(place.kind, images),
            )
        },
    }
}

/// Whether the first `n` destinations can be written.
pub open spec fn places_checked(places: Seq<Place>, images: Seq<Seq<char>>, n: int) -> Result<
    (),
    Failure,
>
    decreases n,
{
    if n <= 0 {
        Ok(())
    } else {
        match places_checked(places, images, n - 1) {
            Err(failure) => Err(failure),
            Ok(_) => place_checked(places[n - 1], images),
        }
    }
}

/// Whether a destination is none of the first `n` earlier ones.
pub open spec fn earlier_clear(places: Seq<Place>, i: int, n: int) -> Result<(), Failure>
    decreases n,
{
    if n <= 0 {
        Ok(())
    } else {
        match earlier_clear(places, i, n - 1) {
            Err(failure) => Err(failure),
            Ok(_) => match places[i].same_as_earlier[n - 1] {
                Err(failure) => Err(failure),
                Ok(same) => if same {
                    Err(
                        Failure::Invalid(
                            places[i].kind.spec_label() + " destination aliases "@ + places[n
                                - 1].kind.spec_label() + ": "@ + places[i].shown,
                        ),
                    )
                } else {
                    Ok(())
                },
            },
        }
    }
}

/// Whether a destination is none of the first `n` generated pages.
pub open spec fn pages_clear(place: Place, n: int) -> Result<(), Failure>
    decreases n,
{
    if n <= 0 {
        Ok(())
    } else {
        match pages_clear(place, n - 1) {
            Err(failure) => Err(failure),
            Ok(_) => match place.same_as_page[n - 1] {
                Err(failure) => Err(failure),
                Ok(same) => if same {
                    Err(
                        Failure::Invalid(
                            place.kind.spec_label() + " destination aliases generated page "@
                                + decimal(n as nat) + ": "@ + place.shown,
                        ),
                    )
                } else {
                    Ok(())
                },
            },
        }
    }
}

/// Whether one destination is a file of its own.
pub open spec fn place_clear(places: Seq<Place>, i: int) -> Result<(), Failure> {
    match earlier_clear(places, i, places[i].same_as_earlier.len() as int) {
        Err(failure) => Err(failure),
        Ok(_) => pages_clear(places[i], places[i].same_as_page.len() as int),
    }
}

/// Whether the first `n` destinations are files of their own.
pub open spec fn places_clear(places: Seq<Place>, n: int) -> Result<(), Failure>
    decreases n,
{
    if n <= 0 {
        Ok(())
    } else {
        match places_clear(places, n - 1) {
            Err(failure) => Err(failure),
            Ok(_) => place_clear(places, n - 1),
        }
    }
}

/// The first refusal among those of the first `n` generated pages.
pub open spec fn leaves_checked(leaves: Seq<Result<(), Failure>>, n: int) -> Result<(), Failure>
    decreases n,
{
    if n <= 0 {
        Ok(())
    } else {
        match leaves_checked(leaves, n - 1) {
            Err(failure) => Err(failure),
            Ok(_) => leaves[n - 1],
        }
    }
}

/// What was found out about generated pages.
pub open spec fn leaves_of(v: Seq<Result<(), ScanError>>) -> Seq<Result<(), Failure>> {
    v.map_values(|x: Result<(), ScanError>| outcome(x))
}

/// Whether a batch can write its pages and outputs: every file can be written, and no output is
/// the file of another output or of a page.
pub open spec fn destinations_checked(
    leaves: Seq<Result<(), Failure>>,
    places: Seq<Place>,
    images: Seq<Seq<char>>,
) -> Result<(), Failure> {
    match leaves_checked(leaves, leaves.len() as int) {
        Err(failure) => Err(failure),
        Ok(_) => match places_checked(places, images, places.len() as int) {
            Err(failure) => Err(failure),
            Ok(_) => places_clear(places, places.len() as int),
        },
    }
}

proof fn lemma_leaves_failed(leaves: Seq<Result<(), Failure>>, k: int, n: int)
    requires
        k <= n,
        leaves_checked(leaves, k) is Err,
    ensures
        leaves_checked(leaves, n) == leaves_checked(leaves, k),
    decreases n - k,
{
    if k < n {
        lemma_leaves_failed(leaves, k, n - 1);
    }
}

proof fn lemma_places_failed(places: Seq<Place>, images: Seq<Seq<char>>, k: int, n: int)
    requires
        k <= n,
        places_checked(places, images, k) is Err,
    ensures
        places_checked(places, images, n) == places_checked(places, images, k),
    decreases n - k,
{
    if k < n {
        lemma_places_failed(places, images, k, n - 1);
    }
}

proof fn lemma_clear_failed(places: Seq<Place>, k: int, n: int)
    requires
        k <= n,
        places_clear(places, k) is Err,
    ensures
        places_clear(places, n) == places_clear(places, k),
    decreases n - k,
{
    if k < n {
        lemma_clear_failed(places, k, n - 1);
    }
}

proof fn lemma_earlier_failed(places: Seq<Place>, i: int, k: int, n: int)
    requires
        k <= n,
        earlier_clear(places, i, k) is Err,
    ensures
        earlier_clear(places, i, n) == earlier_clear(places, i, k),
    decreases n - k,
{
    if k < n {
        lemma_earlier_failed(places, i, k, n - 1);
    }
}

proof fn lemma_pages_failed(place: Place, k: int, n: int)
    requires
        k <= n,
        pages_clear(place, k) is Err,
    ensures
        pages_clear(place, n) == pages_clear(place, k),
    decreases n - k,
{
    if k < n {
        lemma_pages_failed(place, k, n - 1);
    }
}

/// Whether one of the texts is the given one.
fn lists(list: &Vec<String>, text: &str) -> (r: bool)
    ensures
        r == strings(list@).contains(text@),
{
    let mut i: usize = 0;
    while i < list.len()
        invariant
            i <= list@.len(),
            forall|j: int| 0 <= j < i ==> #[trigger] strings(list@)[j] != text@,
        decreases list@.len() - i,
    {
        assert(strings(list@)[i as int] == list@[i as int]@);
        if same_text(list[i].as_str(), text) {
            return true;
        }
        i += 1;
    }
    false
}

fn check_extension(label: &str, extension: Option<String>, allowed: &Vec<String>) -> (r: Result<
    (),
    ScanError,
>)
    ensures
        outcome(r) == extension_checked(
            label@,
            match extension {
                Some(text) => Some(text@),
                None => None,
            },
            strings(allowed@),
        ),
{
    match extension {
        None => {
            let mut message = label.to_owned();
            message.append(" has no supported extension");
            Err(ScanError::Invalid(message))
        },
        Some(text) => {
            if lists(allowed, text.as_str()) {
                return Ok(());
            }
            let mut message = "unsupported ".to_owned();
            message.append(label);
            message.append(" extension '.");
            message.append(text.as_str());
            message.append("'");
            Err(ScanError::Invalid(message))
        },
    }
}

fn check_place(place: &Destination, images: &Vec<String>) -> (r: Result<(), ScanError>)
    ensures
        outcome(r) == place_checked(place@, strings(images@)),
{
    match &place.leaf {
        Ok(()) => {},
        Err(error) => {
            return Err(error.clone());
        },
    }
    let extension = match added_extension(place.kind, &place.extension) {
        Some(text) => Some(text.to_owned()),
        None => place.extension.lower(),
    };
    let mut allowed: Vec<String> = Vec::new();
    match place.kind {
        OutputKind::Multipage => {
            if place.extension.is_missing() {
                return Ok(());
            }
            allowed.push("pdf".to_owned());
            allowed.push("tif".to_owned());
            allowed.push("tiff".to_owned());
            assert(strings(allowed@) =~= seq!["pdf"@, "tif"@, "tiff"@]);
        },
        OutputKind::Tiff => {
            allowed.push("tif".to_owned());
            allowed.push("tiff".to_owned());
            assert(strings(allowed@) =~= seq!["tif"@, "tiff"@]);
        },
        OutputKind::Pdf => {
            allowed.push("pdf".to_owned());
            assert(strings(allowed@) =~= seq!["pdf"@]);
        },
        OutputKind::ContactSheet => {
            allowed = copy_strings(images);
        },
    }
    check_extension(place.kind.label(), extension, &allowed)
}

fn check_clear(places: &Vec<Destination>, i: usize) -> (r: Result<(), ScanError>)
    requires
        i < places@.len(),
        places@[i as int].same_as_earlier@.len() <= i,
    ensures
        outcome(r) == place_clear(places_of(places@), i as int),
{
    let ghost all = places_of(places@);
    let place = &places[i];
    assert(all[i as int] == place@);
    let earlier: usize = place.same_as_earlier.len();
    let mut j: usize = 0;
    while j < earlier
        invariant
            j <= earlier <= i,
            i < places@.len(),
            *place == places@[i as int],
            all == places_of(places@),
            all[i as int] == place@,
            earlier == place.same_as_earlier@.len(),
            earlier_clear(all, i as int, j as int) is Ok,
        decreases earlier - j,
    {
        assert(place@.same_as_earlier[j as int] == outcome(place.same_as_earlier@[j as int]));
        assert(all[j as int] == places@[j as int]@);
        proof {
            if earlier_clear(all, i as int, j + 1) is Err {
                lemma_earlier_failed(all, i as int, j + 1, earlier as int);
            }
        }
        match &place.same_as_earlier[j] {
            Err(error) => {
                return Err(error.clone());
            },
            Ok(same) => {
                if *same {
                    let mut message = place.kind.label().to_owned();
                    message.append(" destination aliases ");
                    message.append(places[j].kind.label());
                    message.append(": ");
                    message.append(place.shown.as_str());
                    return Err(ScanError::Invalid(message));
                }
            },
        }
        j += 1;
    }
    let pages: usize = place.same_as_page.len();
    let mut k: usize = 0;
    while k < pages
        invariant
            k <= pages,
            all == places_of(places@),
            all[i as int] == place@,
            pages == place.same_as_page@.len(),
            earlier_clear(all, i as int, place@.same_as_earlier.len() as int) is Ok,
            pages_clear(place@, k as int) is Ok,
        decreases pages - k,
    {
        assert(place@.same_as_page[k as int] == outcome(place.same_as_page@[k as int]));
        proof {
            if pages_clear(place@, k + 1) is Err {
                lemma_pages_failed(place@, k + 1, pages as int);
            }
        }
        match &place.same_as_page[k] {
            Err(error) => {
                return Err(error.clone());
            },
            Ok(same) => {
                if *same {
                    let mut message = place.kind.label().to_owned();
                    message.append(" destination aliases generated page ");
                    push_decimal(&mut message, (k + 1) as u64);
                    message.append(": ");
                    message.append(place.shown.as_str());
                    return Err(ScanError::Invalid(message));
                }
            },
        }
        k += 1;
    }
    Ok(())
}

/// Validates where a batch writes its pages and outputs, before anything is acquired. Every
/// destination was compared with all earlier ones and with every page.
pub fn validate_batch_destinations(
    page_leaves: &Vec<Result<(), ScanError>>,
    places: &Vec<Destination>,
    image_extensions: &Vec<String>,
) -> (r: Result<(), ScanError>)
    requires
        forall|i: int|
            0 <= i < places@.len() ==> (#[trigger] places@[i]).same_as_earlier@.len() == i,
        forall|i: int|
            0 <= i < places@.len() ==> (#[trigger] places@[i]).same_as_page@.len()
                == page_leaves@.len(),
    ensures
        outcome(r) == destinations_checked(
            leaves_of(page_leaves@),
            places_of(places@),
            strings(image_extensions@),
        ),
{
    let ghost leaves = leaves_of(page_leaves@);
    let ghost all = places_of(places@);
    let ghost images = strings(image_extensions@);
    let pages: usize = page_leaves.len();
    let mut p: usize = 0;
    while p < pages
        invariant
            p <= pages,
            pages == page_leaves@.len(),
            leaves == leaves_of(page_leaves@),
            leaves_checked(leaves, p as int) is Ok,
        decreases pages - p,
    {
        assert(leaves[p as int] == outcome(page_leaves@[p as int]));
        match &page_leaves[p] {
            Ok(()) => {},
            Err(error) => {
                proof {
                    lemma_leaves_failed(leaves, p + 1, pages as int);
                }
                return Err(error.clone());
            },
        }
        p += 1;
    }
    let total: usize = places.len();
    let mut i: usize = 0;
    while i < total
        invariant
            i <= total,
            total == places@.len(),
            all == places_of(places@),
            images == strings(image_extensions@),
            leaves == leaves_of(page_leaves@),
            leaves_checked(leaves, leaves.len() as int) is Ok,
            places_checked(all, images, i as int) is Ok,
        decreases total - i,
    {
        assert(all[i as int] == places@[i as int]@);
        match check_place(&places[i], image_extensions) {
            Ok(()) => {},
            Err(error) => {
                proof {
                    lemma_places_failed(all, images, i + 1, total as int);
                }
                return Err(error);
            },
        }
        i += 1;
    }
    let mut k: usize = 0;
    while k < total
        invariant
            k <= total,
            total == places@.len(),
            all == places_of(places@),
            images == strings(image_extensions@),
            leaves == leaves_of(page_leaves@),
            leaves_checked(leaves, leaves.len() as int) is Ok,
            places_checked(all, images, total as int) is Ok,
            places_clear(all, k as int) is Ok,
            forall|j: int|
                0 <= j < places@.len() ==> (#[trigger] places@[j]).same_as_earlier@.len() == j,
        decreases total - k,
    {
        match check_clear(places, k) {
            Ok(()) => {},
            Err(error) => {
                proof {
                    lemma_clear_failed(all, k + 1, total as int);
                }
                return Err(error);
            },
        }
        k += 1;
    }
    Ok(())
}

/// Every answer is that two files differ.
pub open spec fn all_differ(answers: Seq<Result<bool, Failure>>) -> bool {
    forall|j: int| 0 <= j < answers.len() ==> #[trigger] answers[j] == Ok::<bool, Failure>(false)
}

proof fn lemma_leaves(leaves: Seq<Result<(), Failure>>, n: int)
    requires
        n <= leaves.len(),
    ensures
        leaves_checked(leaves, n) is Ok <==> forall|i: int| 0 <= i < n ==> #[trigger] leaves[i] is Ok,
    decreases n,
{
    if n > 0 {
        lemma_leaves(leaves, n - 1);
        assert(leaves[n - 1] is Ok || leaves[n - 1] is Err);
    }
}

proof fn lemma_places(places: Seq<Place>, images: Seq<Seq<char>>, n: int)
    requires
        n <= places.len(),
    ensures
        places_checked(places, images, n) is Ok <==> forall|i: int|
            0 <= i < n ==> place_checked(#[trigger] places[i], images) is Ok,
    decreases n,
{
    if n > 0 {
        lemma_places(places, images, n - 1);
        let last = places[n - 1];
        assert(place_checked(last, images) is Ok || place_checked(last, images) is Err);
    }
}

proof fn lemma_earlier(places: Seq<Place>, i: int, n: int)
    requires
        n <= places[i].same_as_earlier.len(),
    ensures
        earlier_clear(places, i, n) is Ok <==> forall|j: int|
            0 <= j < n ==> #[trigger] places[i].same_as_earlier[j] == Ok::<bool, Failure>(false),
    decreases n,
{
    if n > 0 {
        lemma_earlier(places, i, n - 1);
        let answer = places[i].same_as_earlier[n - 1];
        assert(answer == Ok::<bool, Failure>(false) || answer != Ok::<bool, Failure>(false));
    }
}

proof fn lemma_same_pages(place: Place, n: int)
    requires
        n <= place.same_as_page.len(),
    ensures
        pages_clear(place, n) is Ok <==> forall|j: int|
            0 <= j < n ==> #[trigger] place.same_as_page[j] == Ok::<bool, Failure>(false),
    decreases n,
{
    if n > 0 {
        lemma_same_pages(place, n - 1);
        let answer = place.same_as_page[n - 1];
        assert(answer == Ok::<bool, Failure>(false) || answer != Ok::<bool, Failure>(false));
    }
}

proof fn lemma_clear(places: Seq<Place>, n: int)
    requires
        n <= places.len(),
    ensures
        places_clear(places, n) is Ok <==> forall|i: int|
            0 <= i < n ==> all_differ((#[trigger] places[i]).same_as_earlier) && all_differ(
                places[i].same_as_page,
            ),
    decreases n,
{
    if n > 0 {
        lemma_clear(places, n - 1);
        let last = places[n - 1];
        lemma_earlier(places, n - 1, last.same_as_earlier.len() as int);
        lemma_same_pages(last, last.same_as_page.len() as int);
        assert(place_clear(places, n - 1) is Ok <==> all_differ(last.same_as_earlier)
            && all_differ(last.same_as_page));
    }
}

/// A batch starts exactly where every page and every output can be written, no output is the file of
/// an earlier output or of a page, and every output has an extension of its kind.
#[verifier::spinoff_prover]
#[verifier::rlimit(60)]
pub proof fn batches_write_separate_files(
    leaves: Seq<Result<(), Failure>>,
    places: Seq<Place>,
    images: Seq<Seq<char>>,
)
    ensures
        destinations_checked(leaves, places, images) is Ok <==> {
            &&& forall|i: int| 0 <= i < leaves.len() ==> #[trigger] leaves[i] is Ok
            &&& forall|i: int| 0 <= i < places.len() ==> (#[trigger] places[i]).leaf is Ok
            &&& forall|i: int|
                0 <= i < places.len() && (#[trigger] places[i]).kind == OutputKind::Pdf
                    ==> places[i].extension.lower() == Some("pdf"@)
            &&& forall|i: int|
                0 <= i < places.len() && (#[trigger] places[i]).kind == OutputKind::Tiff
                    ==> places[i].extension.lower() == Some("tif"@) || places[i].extension.lower()
                    == Some("tiff"@)
            &&& forall|i: int|
                0 <= i < places.len() && (#[trigger] places[i]).kind == OutputKind::Multipage
                    && !(places[i].extension is Missing) ==> places[i].extension.lower() == Some(
                    "pdf"@,
                ) || places[i].extension.lower() == Some("tif"@) || places[i].extension.lower()
                    == Some("tiff"@)
            &&& forall|i: int|
                0 <= i < places.len() && (#[trigger] places[i]).kind == OutputKind::ContactSheet
                    && !(places[i].extension is Missing) ==> places[i].extension.lower() is Some
                    && images.contains(places[i].extension.lower()->0)
            &&& forall|i: int|
                0 <= i < places.len() && (#[trigger] places[i]).kind == OutputKind::ContactSheet
                    && places[i].extension is Missing ==> images.contains("bmp"@)
            &&& forall|i: int|
                0 <= i < places.len() ==> all_differ((#[trigger] places[i]).same_as_earlier)
                    && all_differ(places[i].same_as_page)
        },
{
    lemma_leaves(leaves, leaves.len() as int);
    lemma_places(places, images, places.len() as int);
    lemma_clear(places, places.len() as int);
    assert forall|place: Place| #[trigger] place_checked(place, images) is Ok <==> {
        &&& place.leaf is Ok
        &&& place.kind == OutputKind::Pdf ==> place.extension.lower() == Some("pdf"@)
        &&& place.kind == OutputKind::Tiff ==> place.extension.lower() == Some("tif"@)
            || place.extension.lower() == Some("tiff"@)
        &&& place.kind == OutputKind::Multipage && !(place.extension is Missing)
            ==> place.extension.lower() == Some("pdf"@) || place.extension.lower() == Some("tif"@)
            || place.extension.lower() == Some("tiff"@)
        &&& place.kind == OutputKind::ContactSheet && !(place.extension is Missing)
            ==> place.extension.lower() is Some && images.contains(place.extension.lower()->0)
        &&& place.kind == OutputKind::ContactSheet && place.extension is Missing
            ==> images.contains("bmp"@)
    } by {
        let three = seq!["pdf"@, "tif"@, "tiff"@];
        let two = seq!["tif"@, "tiff"@];
        let one = seq!["pdf"@];
        assert(three[0] == "pdf"@ && three[1] == "tif"@ && three[2] == "tiff"@);
        assert(two[0] == "tif"@ && two[1] == "tiff"@);
        assert(one[0] == "pdf"@);
    }
}

// ---------------------------------------------------------------------------
// Preparation
// ---------------------------------------------------------------------------

/// Whether a batch can start, up to its destinations: the file extension of its pages, or the
/// first refusal.
pub open spec fn batch_prepared(
    batch: Batch,
    export: Export,
    is_cancelled: bool,
    language: Result<(), Failure>,
    profile: Result<(), Failure>,
) -> Result<Seq<char>, Failure> {
    if is_cancelled {
        Err(batch_cancelled())
    } else if pdf_count(batch) > 1 && uses_pdf_features(export) {
        Err(
            Failure::Invalid(
                "PDF export options require exactly one multipage PDF destination"@,
            ),
        )
    } else {
        match prepared_export(pdf_count(batch) > 0, export, language) {
            Err(failure) => Err(failure),
            Ok(_) => match profile {
                Err(failure) => Err(failure),
                Ok(_) => match batch_args_checked(batch) {
                    Err(failure) => Err(failure),
                    Ok(_) => page_extension(batch.format),
                },
            },
        }
    }
}

/// Checks whether a batch can start, given whether its OCR language was accepted and its scanner
/// profile could be loaded; gives the file extension of its pages.
pub fn prepare_batch_scan(
    args: &BatchScanArgs,
    export: &ExportOptions,
    is_cancelled: bool,
    language: Result<(), ScanError>,
    profile: Result<(), ScanError>,
) -> (r: Result<String, ScanError>)
    ensures
        outcome_view(r) == batch_prepared(
            args@,
            export@,
            is_cancelled,
            outcome(language),
            outcome(profile),
        ),
{
    match check_output_cancellation(is_cancelled) {
        Ok(()) => {},
        Err(error) => {
            return Err(error);
        },
    }
    let pdfs: usize = pdf_destinations(args);
    if pdfs > 1 && export_uses_pdf_features(export) {
        return Err(invalid("PDF export options require exactly one multipage PDF destination"));
    }
    match prepare_export_options_for_pdf(pdfs > 0, export, language) {
        Ok(()) => {},
        Err(error) => {
            return Err(error);
        },
    }
    match profile {
        Ok(()) => {},
        Err(error) => {
            return Err(error);
        },
    }
    match validate_batch_args(args) {
        Ok(()) => {},
        Err(error) => {
            return Err(error);
        },
    }
    batch_file_extension(args.format.as_str())
}

/// The acquisition of a batch: the crop of its pipeline is left to the device.
pub open spec fn batch_acquisition(batch: Batch, device_id: Seq<char>) -> Request {
    Request {
        device_id,
        mode: batch.mode,
        duplex: batch.duplex,
        dpi_x: batch.dpi,
        dpi_y: batch.dpi,
        width: batch.width,
        height: batch.height,
        pixel_format: PixelFormat::Rgb8,
        region: batch.pipeline.crop,
        seed: batch.seed,
        pipeline: Prefs { crop: None, ..batch.pipeline },
    }
}

/// The acquisition of a batch.
pub fn batch_request(args: &BatchScanArgs, device_id: &str) -> (r: ScanRequest)
    ensures
        r@ == batch_acquisition(args@, device_id@),
        r.device_id@ == device_id@,
        r.width == args.width,
        r.height == args.height,
        r.dpi_x == args.dpi,
        r.dpi_y == args.dpi,
        r.mode == args.mode,
        r.duplex == args.duplex,
        r.seed == args.seed,
        r.region == args.pipeline.crop,
        r.pixel_format == PixelFormat::Rgb8,
        r.pipeline.crop is None,
        r.pipeline@ == (Prefs { crop: None, ..args.pipeline@ }),
{
    let mut pipeline = args.pipeline.clone();
    let region = pipeline.crop;
    pipeline.crop = None;
    ScanRequest {
        device_id: device_id.to_owned(),
        mode: args.mode,
        duplex: args.duplex,
        dpi_x: args.dpi,
        dpi_y: args.dpi,
        width: args.width,
        height: args.height,
        pixel_format: PixelFormat::Rgb8,
        region,
        seed: args.seed,
        pipeline,
    }
}

/// The acquisition of a batch has the width and the height of its arguments, each on its own axis, one
/// resolution for both axes, and their mode, sides and seed.
pub proof fn batches_acquire_what_they_ask_for(batch: Batch, device_id: Seq<char>)
    ensures
        ({
            let request = batch_acquisition(batch, device_id);
            &&& request.width == batch.width
            &&& request.height == batch.height
            &&& request.dpi_x == batch.dpi
            &&& request.dpi_y == batch.dpi
            &&& request.mode == batch.mode
            &&& request.duplex == batch.duplex
            &&& request.seed == batch.seed
            &&& request.device_id == device_id
            &&& request.pixel_format == PixelFormat::Rgb8
            &&& request.pipeline == (Prefs { crop: None, ..batch.pipeline })
        }),
{
}

/// A page is cropped once: what the device crops, the pipeline does not.
pub proof fn batch_crops_once(batch: Batch, device_id: Seq<char>)
    ensures
        batch_acquisition(batch, device_id).region == batch.pipeline.crop,
        batch_acquisition(batch, device_id).pipeline.crop is None,
{
}

// ---------------------------------------------------------------------------
// Runs
// ---------------------------------------------------------------------------

/// A batch while its pages come in.
#[derive(Debug)]
pub struct BatchRun {
    pub pages: u32,
    pub duplex: bool,
    pub paths: Vec<String>,
    pub searchable_pages: Vec<String>,
    pub searchable_text_bytes: usize,
}

/// A batch while its pages come in.
pub struct Run {
    pub pages: u32,
    pub duplex: bool,
    pub paths: Seq<Seq<char>>,
    pub searchable_pages: Seq<Seq<char>>,
    pub searchable_text_bytes: int,
}

impl View for BatchRun {
    type V = Run;

    open spec fn view(&self) -> Run {
        Run {
            pages: self.pages,
            duplex: self.duplex,
            paths: strings(self.paths@),
            searchable_pages: strings(self.searchable_pages@),
            searchable_text_bytes: self.searchable_text_bytes as int,
        }
    }
}

impl Run {
    /// The text that was kept adds up, within the limits of a searchable PDF.
    pub open spec fn wf(self) -> bool {
        searchable_aggregate(self.searchable_pages, self.searchable_pages.len() as int) == Ok::<
            int,
            Failure,
        >(self.searchable_text_bytes)
    }
}

/// Progress of a batch: `done` of `total` pages.
#[derive(Debug)]
pub struct BatchProgress {
    pub phase: String,
    pub done: u32,
    pub total: u32,
    pub message: String,
}

/// The pages of a finished batch, with the text that was recognized on them.
#[derive(Debug)]
pub struct BatchPages {
    pub paths: Vec<String>,
    pub searchable_text: Vec<String>,
}

/// The run with the text of one more page, where text is kept.
pub open spec fn with_text(run: Run, text: Option<Seq<char>>) -> Result<Run, Failure> {
    match text {
        None => Ok(run),
        Some(text) => match searchable_aggregate(
            run.searchable_pages.push(text),
            run.searchable_pages.len() as int + 1,
        ) {
            Err(failure) => Err(failure),
            Ok(bytes) => Ok(
                Run {
                    searchable_pages: run.searchable_pages.push(text),
                    searchable_text_bytes: bytes,
                    ..run
                },
            ),
        },
    }
}

/// Whether the pages that came in are what the scanner reports, and make a batch.
pub open spec fn batch_end_checked(run: Run, emitted: u32, end: ScanPagesEnd) -> Result<
    (),
    Failure,
> {
    if emitted != run.paths.len() {
        Err(
            Failure::Other(
                "scanner reported "@ + decimal(emitted as nat) + " pages but emitted "@ + decimal(
                    run.paths.len(),
                ),
            ),
        )
    } else {
        match end {
            ScanPagesEnd::LimitReached => if emitted != run.pages {
                Err(
                    Failure::Other(
                        "scanner stopped after "@ + decimal(emitted as nat) + " of "@ + decimal(
                            run.pages as nat,
                        ) + " requested pages"@,
                    ),
                )
            } else {
                Ok(())
            },
            ScanPagesEnd::FeederExhausted => if emitted == 0 {
                Err(Failure::Unsupported("document feeder is empty"@))
            } else if run.duplex && emitted % 2 != 0 {
                Err(
                    Failure::Other(
                        "document feeder ended after an incomplete duplex pair ("@ + decimal(
                            emitted as nat,
                        ) + " sides)"@,
                    ),
                )
            } else {
                Ok(())
            },
        }
    }
}

impl BatchRun {
    /// A batch of which no page has come in yet.
    pub fn new(args: &BatchScanArgs) -> (r: Self)
        ensures
            r@ == (Run {
                pages: args@.pages,
                duplex: args@.duplex,
                paths: Seq::empty(),
                searchable_pages: Seq::empty(),
                searchable_text_bytes: 0,
            }),
            r@.wf(),
    {
        let r = BatchRun {
            pages: args.pages,
            duplex: args.duplex,
            paths: Vec::new(),
            searchable_pages: Vec::new(),
            searchable_text_bytes: 0,
        };
        assert(strings(r.paths@) =~= Seq::<Seq<char>>::empty());
        assert(strings(r.searchable_pages@) =~= Seq::<Seq<char>>::empty());
        r
    }

    /// Takes up the next page, and says how far the batch has come.
    pub fn begin_page(&self, is_cancelled: bool) -> (r: Result<BatchProgress, ScanError>)
        requires
            self@.paths.len() < u32::MAX,
        ensures
            match r {
                Err(error) => is_cancelled && error@ == batch_cancelled(),
                Ok(progress) => {
                    &&& !is_cancelled
                    &&& progress.phase@ == "batch"@
                    &&& progress.done == self@.paths.len()
                    &&& progress.total == self@.pages
                    &&& progress.message@ == "page "@ + decimal(self@.paths.len() + 1) + "/"@
                        + decimal(self@.pages as nat)
                },
            },
    {
        match check_output_cancellation(is_cancelled) {
            Ok(()) => {},
            Err(error) => {
                return Err(error);
            },
        }
        let done: u32 = self.paths.len() as u32;
        let mut message = "page ".to_owned();
        push_decimal(&mut message, (done + 1) as u64);
        message.append("/");
        push_decimal(&mut message, self.pages as u64);
        Ok(BatchProgress { phase: "batch".to_owned(), done, total: self.pages, message })
    }

    /// The file name of the page that comes next.
    pub fn next_page_name(&self, extension: &str) -> (r: String)
        requires
            self@.paths.len() < u32::MAX,
        ensures
            r@ == page_name(self@.paths.len() + 1, extension@),
    {
        let done: u32 = self.paths.len() as u32;
        page_file_name(done + 1, extension)
    }

    /// Keeps the text that was recognized on a page, within the limits of a searchable PDF.
    pub fn keep_text(&mut self, text: Option<String>) -> (r: Result<(), ScanError>)
        requires
            old(self)@.wf(),
            old(self)@.searchable_pages.len() < usize::MAX,
        ensures
            match with_text(
                old(self)@,
                match text {
                    Some(text) => Some(text@),
                    None => None,
                },
            ) {
                Ok(run) => r is Ok && final(self)@ == run,
                Err(failure) => r is Err && r->Err_0@ == failure && final(self)@ == old(self)@,
            },
            final(self)@.wf(),
    {
        let ghost before = self@;
        match text {
            None => Ok(()),
            Some(text) => {
                let ghost pages = before.searchable_pages.push(text@);
                proof {
                    crate::export::lemma_same_aggregate(
                        before.searchable_pages,
                        pages,
                        before.searchable_pages.len() as int,
                    );
                }
                match checked_pdf_searchable_text_total(
                    self.searchable_text_bytes,
                    text.as_str(),
                    self.searchable_pages.len(),
                ) {
                    Ok(total) => {
                        self.searchable_text_bytes = total;
                        self.searchable_pages.push(text);
                        assert(self@.searchable_pages =~= pages);
                        Ok(())
                    },
                    Err(error) => Err(error),
                }
            },
        }
    }

    /// Keeps the path at which a page was saved.
    pub fn keep_path(&mut self, path: String)
        requires
            old(self)@.wf(),
        ensures
            final(self)@ == (Run { paths: old(self)@.paths.push(path@), ..old(self)@ }),
            final(self)@.wf(),
    {
        let ghost before = self@;
        let ghost added = path@;
        self.paths.push(path);
        assert(self@.paths =~= before.paths.push(added));
    }

    /// Closes the batch: what came in has to be what the scanner reports.
    pub fn finish(self, emitted: u32, end: ScanPagesEnd, is_cancelled: bool) -> (r: Result<
        BatchPages,
        ScanError,
    >)
        requires
            self@.paths.len() <= u32::MAX,
        ensures
            if is_cancelled {
                r is Err && r->Err_0@ == batch_cancelled()
            } else {
                match batch_end_checked(self@, emitted, end) {
                    Err(failure) => r is Err && r->Err_0@ == failure,
                    Ok(_) => r is Ok && strings(r->Ok_0.paths@) == self@.paths && strings(
                        r->Ok_0.searchable_text@,
                    ) == self@.searchable_pages,
                }
            },
    {
        match check_output_cancellation(is_cancelled) {
            Ok(()) => {},
            Err(error) => {
                return Err(error);
            },
        }
        let kept: u32 = self.paths.len() as u32;
        if emitted != kept {
            let mut message = "scanner reported ".to_owned();
            push_decimal(&mut message, emitted as u64);
            message.append(" pages but emitted ");
            push_decimal(&mut message, kept as u64);
            return Err(ScanError::Other(message));
        }
        match end {
            ScanPagesEnd::LimitReached => {
                if emitted != self.pages {
                    let mut message = "scanner stopped after ".to_owned();
                    push_decimal(&mut message, emitted as u64);
                    message.append(" of ");
                    push_decimal(&mut message, self.pages as u64);
                    message.append(" requested pages");
                    return Err(ScanError::Other(message));
                }
            },
            ScanPagesEnd::FeederExhausted => {
                if emitted == 0 {
                    return Err(unsupported("document feeder is empty"));
                }
                if self.duplex && emitted % 2 != 0 {
                    let mut message =
                        "document feeder ended after an incomplete duplex pair (".to_owned();
                    push_decimal(&mut message, emitted as u64);
                    message.append(" sides)");
                    return Err(ScanError::Other(message));
                }
            },
        }
        Ok(BatchPages { paths: self.paths, searchable_text: self.searchable_pages })
    }
}

/// A batch that is closed holds at least one page, all of those it was limited to where the
/// feeder did not run empty, and whole sheets where both sides are scanned.
pub proof fn closed_batches_are_whole(batch: Batch, run: Run, emitted: u32, end: ScanPagesEnd)
    requires
        batch_args_checked(batch) is Ok,
        run.pages == batch.pages,
        run.duplex == batch.duplex,
        batch_end_checked(run, emitted, end) is Ok,
    ensures
        run.paths.len() == emitted,
        1 <= emitted,
        end == ScanPagesEnd::LimitReached ==> emitted == batch.pages,
        batch.duplex ==> emitted % 2 == 0,
{
}

// ---------------------------------------------------------------------------
// Outputs
// ---------------------------------------------------------------------------

/// One output to be written from the pages of a batch.
#[derive(Debug)]
pub enum OutputStep {
    Pdf { kind: OutputKind, options: PdfOptions },
    Tiff { kind: OutputKind, dpi: u32 },
    /// A sheet with so many columns of thumbnails of so many pixels, and so many pixels between.
    ContactSheet { columns: u32, thumbnail: u32, gap: u32 },
}

/// What an output step is.
pub enum Step {
    Pdf { kind: OutputKind, options: PdfChoices },
    Tiff { kind: OutputKind, dpi: u32 },
    ContactSheet { columns: u32, thumbnail: u32, gap: u32 },
}

impl View for OutputStep {
    type V = Step;

    open spec fn view(&self) -> Step {
        match self {
            OutputStep::Pdf { kind, options } => Step::Pdf { kind: *kind, options: options@ },
            OutputStep::Tiff { kind, dpi } => Step::Tiff { kind: *kind, dpi: *dpi },
            OutputStep::ContactSheet { columns, thumbnail, gap } => Step::ContactSheet {
                columns: *columns,
                thumbnail: *thumbnail,
                gap: *gap,
            },
        }
    }
}

/// What output steps are.
pub open spec fn steps_of(v: Seq<OutputStep>) -> Seq<Step> {
    v.map_values(|x: OutputStep| x@)
}

/// How a multipage destination that is no PDF is written: as TIFF, which a path without an
/// extension, or with one that cannot be read, also means.
pub open spec fn multipage_step(extension: Suffix, dpi: u32) -> Result<Step, Failure> {
    match extension.lower() {
        None => Ok(Step::Tiff { kind: OutputKind::Multipage, dpi }),
        Some(text) => if text == "tif"@ || text == "tiff"@ {
            Ok(Step::Tiff { kind: OutputKind::Multipage, dpi })
        } else {
            Err(
                Failure::Invalid(
                    "multipage output must use .pdf, .tif, or .tiff, not '."@ + text + "'"@,
                ),
            )
        },
    }
}

/// How a multipage destination that is no PDF is written.
pub fn write_multipage(extension: &Extension, dpi: u32) -> (r: Result<OutputStep, ScanError>)
    ensures
        r is Ok <==> extension@.lower() is None || extension@.lower() == Some("tif"@) || extension@.lower()
            == Some("tiff"@),
        r is Ok ==> r->Ok_0 == (OutputStep::Tiff { kind: OutputKind::Multipage, dpi }),
        outcome_view(r) == multipage_step(extension@, dpi),
{
    match extension.lower() {
        None => Ok(OutputStep::Tiff { kind: OutputKind::Multipage, dpi }),
        Some(text) => {
            if same_text(text.as_str(), "tif") || same_text(text.as_str(), "tiff") {
                return Ok(OutputStep::Tiff { kind: OutputKind::Multipage, dpi });
            }
            let mut message =
                "multipage output must use .pdf, .tif, or .tiff, not '.".to_owned();
            message.append(text.as_str());
            message.append("'");
            Err(ScanError::Invalid(message))
        },
    }
}

/// What is written for the multipage destination.
pub open spec fn multipage_output(
    batch: Batch,
    export: Export,
    searchable: Seq<Seq<char>>,
) -> Result<Seq<Step>, Failure> {
    match batch.multipage_out {
        None => Ok(Seq::empty()),
        Some(target) => if target.extension.same_as("pdf"@) {
            Ok(
                seq![
                    Step::Pdf {
                        kind: OutputKind::Multipage,
                        options: multipage_pdf_choices(batch.dpi, export, searchable),
                    },
                ],
            )
        } else {
            match multipage_step(target.extension, batch.dpi) {
                Ok(step) => Ok(seq![step]),
                Err(failure) => Err(failure),
            }
        },
    }
}

/// The outputs that are written from the pages of a batch, in order.
pub open spec fn output_plan(batch: Batch, export: Export, searchable: Seq<Seq<char>>) -> Result<
    Seq<Step>,
    Failure,
> {
    let tiff = match batch.multipage_tiff {
        Some(_) => seq![Step::Tiff { kind: OutputKind::Tiff, dpi: batch.dpi }],
        None => Seq::empty(),
    };
    let pdf = match batch.multipage_pdf {
        Some(_) => seq![
            Step::Pdf {
                kind: OutputKind::Pdf,
                options: multipage_pdf_choices(batch.dpi, export, searchable),
            },
        ],
        None => Seq::empty(),
    };
    let sheet = match batch.contact_sheet {
        Some(_) => seq![Step::ContactSheet { columns: 4, thumbnail: 160, gap: 4 }],
        None => Seq::empty(),
    };
    match multipage_output(batch, export, searchable) {
        Err(failure) => Err(failure),
        Ok(out) => Ok(out + tiff + pdf + sheet),
    }
}

/// A plan writes each output that was asked for once and nothing else, in the order multipage output,
/// TIFF, PDF, contact sheet; documents have the resolution of the batch, and PDF documents the password
/// of the export and its text where text was asked for.
#[verifier::spinoff_prover]
#[verifier::rlimit(60)]
pub proof fn plans_write_what_was_asked_for(
    batch: Batch,
    export: Export,
    searchable: Seq<Seq<char>>,
)
    requires
        output_plan(batch, export, searchable) is Ok,
    ensures
        ({
            let plan = output_plan(batch, export, searchable)->Ok_0;
            let first: int = if batch.multipage_out is Some {
                1
            } else {
                0
            };
            let second: int = first + if batch.multipage_tiff is Some {
                1int
            } else {
                0
            };
            let third: int = second + if batch.multipage_pdf is Some {
                1int
            } else {
                0
            };
            let fourth: int = third + if batch.contact_sheet is Some {
                1int
            } else {
                0
            };
            &&& plan.len() == fourth
            &&& batch.multipage_out is Some && batch.multipage_out->0.extension.same_as("pdf"@)
                ==> plan[0] is Pdf && plan[0]->Pdf_kind == OutputKind::Multipage
            &&& batch.multipage_out is Some && !batch.multipage_out->0.extension.same_as("pdf"@)
                ==> plan[0] == (Step::Tiff { kind: OutputKind::Multipage, dpi: batch.dpi })
            &&& batch.multipage_tiff is Some ==> plan[first] == (Step::Tiff {
                kind: OutputKind::Tiff,
                dpi: batch.dpi,
            })
            &&& batch.multipage_pdf is Some ==> plan[second] is Pdf && plan[second]->Pdf_kind
                == OutputKind::Pdf
            &&& batch.contact_sheet is Some ==> plan[third] == (Step::ContactSheet {
                columns: 4,
                thumbnail: 160,
                gap: 4,
            })
            &&& forall|i: int|
                0 <= i < plan.len() && #[trigger] plan[i] is Pdf ==> plan[i]->options.dpi == batch.dpi
                    && plan[i]->options.password == export.pdf_password && (
                plan[i]->options.searchable_pages == if export.searchable_pdf {
                    Some(searchable)
                } else {
                    None
                })
        }),
{
}

/// Plans the outputs that are written from the pages of a batch; cancellation is looked at before
/// each of them.
pub fn write_requested_outputs(
    args: &BatchScanArgs,
    export: &ExportOptions,
    searchable_pages: Vec<String>,
) -> (r: Result<Vec<OutputStep>, ScanError>)
    ensures
        match output_plan(args@, export@, strings(searchable_pages@)) {
            Ok(steps) => r is Ok && steps_of(r->Ok_0@) == steps,
            Err(failure) => r is Err && r->Err_0@ == failure,
        },
{
    let ghost searchable = strings(searchable_pages@);
    let mut steps: Vec<OutputStep> = Vec::new();
    if let Some(output) = &args.multipage_out {
        if output.extension.same_as("pdf") {
            let options = multipage_pdf_options(args.dpi, export, copy_strings(&searchable_pages));
            steps.push(OutputStep::Pdf { kind: OutputKind::Multipage, options });
        } else {
            match write_multipage(&output.extension, args.dpi) {
                Ok(step) => {
                    steps.push(step);
                },
                Err(error) => {
                    return Err(error);
                },
            }
        }
    }
    let ghost out = multipage_output(args@, export@, searchable);
    assert(steps_of(steps@) =~= out->Ok_0);
    let ghost first = steps_of(steps@);
    if args.multipage_tiff.is_some() {
        steps.push(OutputStep::Tiff { kind: OutputKind::Tiff, dpi: args.dpi });
        assert(steps_of(steps@) =~= first + seq![
            Step::Tiff { kind: OutputKind::Tiff, dpi: args@.dpi },
        ]);
    }
    let ghost second = steps_of(steps@);
    if args.multipage_pdf.is_some() {
        let options = multipage_pdf_options(args.dpi, export, searchable_pages);
        steps.push(OutputStep::Pdf { kind: OutputKind::Pdf, options });
        assert(steps_of(steps@) =~= second + seq![
            Step::Pdf {
                kind: OutputKind::Pdf,
                options: multipage_pdf_choices(args@.dpi, export@, searchable),
            },
        ]);
    }
    let ghost third = steps_of(steps@);
    if args.contact_sheet.is_some() {
        steps.push(OutputStep::ContactSheet { columns: 4, thumbnail: 160, gap: 4 });
        assert(steps_of(steps@) =~= third + seq![
            Step::ContactSheet { columns: 4, thumbnail: 160, gap: 4 },
        ]);
    }
    assert(steps_of(steps@) =~= output_plan(args@, export@, searchable)->Ok_0);
    Ok(steps)
}

/// The report of a finished batch.
pub fn report_batch_completion(page_count: usize) -> (r: BatchProgress)
    ensures
        r.phase@ == "done"@,
        r.done == 1,
        r.total == 1,
        r.message@ == decimal(page_count as nat) + " pages"@,
{
    let mut message = String::new();
    push_decimal(&mut message, page_count as u64);
    message.append(" pages");
    assert(message@ =~= decimal(page_count as nat) + " pages"@);
    BatchProgress { phase: "done".to_owned(), done: 1, total: 1, message }
}

} // verus!
