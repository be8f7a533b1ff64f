//! Export controls shared by scan, process and batch entry points.

use crate::cancellation::{can_poll, polls_of, PollPoint};
use crate::error::{invalid, outcome, Failure, ScanError};
use crate::image::ImageBuffer;
use crate::paths::{Extension, Suffix};
use crate::pdf::document::{
    pictures_of, published, save_pdf_with_options_and_cancellation, PdfDocument,
};
use crate::pdf::limits::{
    checked_pdf_searchable_text_total, prepared_password_checked, saslprep_of, searchable_aggregate,
    validate_pdf_password, PdfChoices, PdfOptions,
};
use crate::processing::{copy_opt, opt_text};
use crate::text::{same_text, strings};
use vstd::prelude::*;
use vstd::string::StringExecFns;

verus! {

/// OCR implementation used when creating a searchable PDF.
#[derive(Debug, Clone, Copy, PartialEq, Eq, Structural)]
pub enum OcrEngine {
    /// Built-in OCR with no external executable dependency.
    Offline,
    /// The system `tesseract` executable.
    Tesseract,
}

/// Runtime-only controls for a scan, process, or batch export. The password is used only while
/// writing a PDF and is never persisted.
#[derive(Debug, PartialEq, Eq)]
pub struct ExportOptions {
    pub pdf_password: Option<String>,
    pub searchable_pdf: bool,
    pub ocr_language: String,
    pub ocr_engine: OcrEngine,
    pub scanner_profile: Option<String>,
}

/// What export controls hold.
pub struct Export {
    pub pdf_password: Option<Seq<char>>,
    pub searchable_pdf: bool,
    pub ocr_language: Seq<char>,
    pub ocr_engine: OcrEngine,
    pub scanner_profile: Option<Seq<char>>,
}

impl View for ExportOptions {
    type V = Export;

    open spec fn view(&self) -> Export {
        Export {
            pdf_password: opt_text(self.pdf_password),
            searchable_pdf: self.searchable_pdf,
            ocr_language: self.ocr_language@,
            ocr_engine: self.ocr_engine,
            scanner_profile: opt_text(self.scanner_profile),
        }
    }
}

/// The controls that stand where none were given.
pub open spec fn plain_export() -> Export {
    Export {
        pdf_password: None,
        searchable_pdf: false,
        ocr_language: "eng"@,
        ocr_engine: OcrEngine::Offline,
        scanner_profile: None,
    }
}

impl Default for ExportOptions {
    fn default() -> (r: Self)
        ensures
            r@ == plain_export(),
    {
        ExportOptions {
            pdf_password: None,
            searchable_pdf: false,
            ocr_language: "eng".to_owned(),
            ocr_engine: OcrEngine::Offline,
            scanner_profile: None,
        }
    }
}

impl Clone for ExportOptions {
    fn clone(&self) -> (r: Self)
        ensures
            r@ == self@,
    {
        ExportOptions {
            pdf_password: copy_opt(&self.pdf_password),
            searchable_pdf: self.searchable_pdf,
            ocr_language: self.ocr_language.clone(),
            ocr_engine: self.ocr_engine,
            scanner_profile: copy_opt(&self.scanner_profile),
        }
    }
}

// ---------------------------------------------------------------------------
// Preparation
// ---------------------------------------------------------------------------

/// Whether the controls ask for something that only a PDF can have.
pub open spec fn uses_pdf_features(export: Export) -> bool {
    export.searchable_pdf || export.pdf_password is Some
}

/// Whether the controls ask for something that only a PDF can have.
pub fn export_uses_pdf_features(export: &ExportOptions) -> (r: bool)
    ensures
        r == uses_pdf_features(export@),
{
    export.searchable_pdf || export.pdf_password.is_some()
}

/// Whether export controls can be used, given whether a PDF is written and whether the OCR
/// language was accepted; the language counts only where text is recognized.
pub open spec fn prepared_export(
    has_pdf_destination: bool,
    export: Export,
    language: Result<(), Failure>,
) -> Result<(), Failure> {
    if export.searchable_pdf && language is Err {
        Err(language->Err_0)
    } else if !has_pdf_destination && uses_pdf_features(export) {
        Err(
            Failure::Invalid(
                "searchable PDF and PDF password options require a .pdf destination"@,
            ),
        )
    } else {
        match export.pdf_password {
            None => Ok(()),
            Some(password) => if password.len() == 0 {
                Err(
                    Failure::Invalid(
                        "PDF password must not be empty when encryption is requested"@,
                    ),
                )
            } else {
                prepared_password_checked(saslprep_of(password))
            },
        }
    }
}

/// Validates export controls before anything is acquired or written.
pub fn prepare_export_options_for_pdf(
    has_pdf_destination: bool,
    options: &ExportOptions,
    language: Result<(), ScanError>,
) -> (r: Result<(), ScanError>)
    ensures
        r is Ok && options.searchable_pdf ==> language is Ok && has_pdf_destination,
        r is Ok && options.pdf_password is Some ==> has_pdf_destination && options.pdf_password->0@.len() > 0,
        !options.searchable_pdf && options.pdf_password is None ==> r is Ok,
        options.searchable_pdf && options.pdf_password is None && has_pdf_destination ==> (r is Ok
            <==> language is Ok),
        outcome(r) == prepared_export(has_pdf_destination, options@, outcome(language)),
{
    if options.searchable_pdf {
        match language {
            Ok(()) => {},
            Err(error) => {
                return Err(error);
            },
        }
    }
    if !has_pdf_destination && (options.searchable_pdf || options.pdf_password.is_some()) {
        return Err(
            invalid("searchable PDF and PDF password options require a .pdf destination"),
        );
    }
    match &options.pdf_password {
        None => Ok(()),
        Some(password) => {
            if password.as_str().chars().next().is_none() {
                return Err(
                    invalid("PDF password must not be empty when encryption is requested"),
                );
            }
            validate_pdf_password(password.as_str())
        },
    }
}

/// Validates export controls for one destination.
pub fn prepare_export_options(
    extension: &Extension,
    options: &ExportOptions,
    language: Result<(), ScanError>,
) -> (r: Result<(), ScanError>)
    ensures
        outcome(r) == prepared_export(extension@.same_as("pdf"@), options@, outcome(language)),
{
    prepare_export_options_for_pdf(extension.same_as("pdf"), options, language)
}

/// A PDF feature is never dropped silently: without a PDF destination it is refused.
pub proof fn pdf_features_need_a_pdf(export: Export, language: Result<(), Failure>)
    requires
        uses_pdf_features(export),
    ensures
        prepared_export(false, export, language) is Err,
{
}

// ---------------------------------------------------------------------------
// Recognized text
// ---------------------------------------------------------------------------

/// What recognition is asked for.
#[derive(Debug)]
pub struct OcrRequest {
    pub language: String,
    pub offline: bool,
}

/// What recognition has to be done for one page: none unless the text is to be searchable.
pub fn searchable_text_request(options: &ExportOptions) -> (r: Option<OcrRequest>)
    ensures
        r is Some <==> options.searchable_pdf,
        r is Some ==> r->0.language@ == options.ocr_language@,
        r is Some ==> (r->0.offline <==> options.ocr_engine == OcrEngine::Offline),
        match r {
            None => !options@.searchable_pdf,
            Some(request) => options@.searchable_pdf && request.language@ == options@.ocr_language
                && request.offline == (options@.ocr_engine == OcrEngine::Offline),
        },
{
    if !options.searchable_pdf {
        return None;
    }
    Some(
        OcrRequest {
            language: options.ocr_language.clone(),
            offline: options.ocr_engine == OcrEngine::Offline,
        },
    )
}

/// One of the texts that page `i` can be recognized as.
pub open spec fn recognizes<R: Fn(usize) -> Result<String, ScanError>>(
    recognize: R,
    i: int,
    text: Seq<char>,
) -> bool {
    exists|out: String| #[trigger]
        call_ensures(recognize, (i as usize,), Ok::<String, ScanError>(out)) && out@ == text
}

/// One of the errors with which page `i` can fail to be recognized.
pub open spec fn recognition_fails<R: Fn(usize) -> Result<String, ScanError>>(
    recognize: R,
    i: int,
    failure: Failure,
) -> bool {
    exists|error: ScanError| #[trigger]
        call_ensures(recognize, (i as usize,), Err::<String, ScanError>(error)) && error@ == failure
}

/// Whether recognition got as far as the given texts, and gave what follows from them: the texts
/// of all pages within the limits, or the error of the page at which it stopped.
pub open spec fn recognition_run<R: Fn(usize) -> Result<String, ScanError>>(
    pages: Seq<Seq<char>>,
    r: Result<Vec<String>, ScanError>,
    page_count: int,
    recognize: R,
) -> bool {
    let n = pages.len() as int;
    &&& n <= page_count
    &&& forall|i: int| 0 <= i < n ==> recognizes(recognize, i, #[trigger] pages[i])
    &&& match r {
        Ok(texts) => n == page_count && strings(texts@) == pages && searchable_aggregate(
            pages,
            n,
        ) is Ok,
        Err(error) => {
            ||| searchable_aggregate(pages, n) == Err::<int, Failure>(error@)
            ||| {
                &&& n < page_count
                &&& searchable_aggregate(pages, n) is Ok
                &&& recognition_fails(recognize, n, error@)
            }
        },
    }
}

/// Recognizes the text of every page, in order and within the limits of a searchable PDF.
pub fn collect_searchable_pages<R: Fn(usize) -> Result<String, ScanError>>(
    page_count: usize,
    recognize: R,
) -> (r: Result<Vec<String>, ScanError>)
    requires
        page_count < usize::MAX,
        forall|i: usize| i < page_count ==> #[trigger] call_requires(recognize, (i,)),
    ensures
        r is Ok ==> r->Ok_0@.len() == page_count,
        r is Ok ==> forall|i: int|
            0 <= i < page_count ==> recognizes(recognize, i, (#[trigger] r->Ok_0@[i])@),
        exists|pages: Seq<Seq<char>>| #[trigger]
            recognition_run(pages, r, page_count as int, recognize),
{
    let mut pages: Vec<String> = Vec::new();
    let mut aggregate: usize = 0;
    let mut i: usize = 0;
    let ghost mut seen: Seq<Seq<char>> = Seq::empty();
    assert(strings(pages@) =~= seen);
    while i < page_count
        invariant
            i <= page_count,
            page_count < usize::MAX,
            forall|k: usize| k < page_count ==> #[trigger] call_requires(recognize, (k,)),
            seen.len() == i,
            strings(pages@) == seen,
            forall|k: int| 0 <= k < i ==> recognizes(recognize, k, #[trigger] seen[k]),
            searchable_aggregate(seen, i as int) == Ok::<int, Failure>(aggregate as int),
        decreases page_count - i,
    {
        assert((i as int) as usize == i);
        let text = match recognize(i) {
            Ok(text) => text,
            Err(error) => {
                assert(recognition_fails(recognize, i as int, error@));
                assert(recognition_run(
                    seen,
                    Err::<Vec<String>, ScanError>(error),
                    page_count as int,
                    recognize,
                ));
                return Err(error);
            },
        };
        let ghost before = seen;
        proof {
            seen = seen.push(text@);
            assert(recognizes(recognize, i as int, seen[i as int]));
            lemma_same_aggregate(before, seen, i as int);
        }
        match checked_pdf_searchable_text_total(aggregate, text.as_str(), i) {
            Ok(total) => {
                aggregate = total;
            },
            Err(error) => {
                assert(searchable_aggregate(seen, i + 1) == Err::<int, Failure>(error@));
                assert(recognition_run(
                    seen,
                    Err::<Vec<String>, ScanError>(error),
                    page_count as int,
                    recognize,
                ));
                return Err(error);
            },
        }
        pages.push(text);
        assert(strings(pages@) =~= seen);
        i += 1;
    }
    assert(recognition_run(
        seen,
        Ok::<Vec<String>, ScanError>(pages),
        page_count as int,
        recognize,
    ));
    assert forall|k: int| 0 <= k < page_count implies recognizes(
        recognize,
        k,
        (#[trigger] pages@[k])@,
    ) by {
        assert(strings(pages@)[k] == pages@[k]@);
        assert(seen[k] == pages@[k]@);
    }
    Ok(pages)
}

/// The aggregate of the first pages depends on those pages alone.
pub proof fn lemma_same_aggregate(a: Seq<Seq<char>>, b: Seq<Seq<char>>, n: int)
    requires
        forall|i: int| 0 <= i < n ==> a[i] == b[i],
    ensures
        searchable_aggregate(a, n) == searchable_aggregate(b, n),
    decreases n,
{
    if n > 0 {
        lemma_same_aggregate(a, b, n - 1);
    }
}

// ---------------------------------------------------------------------------
// Final output
// ---------------------------------------------------------------------------

/// The PDF options of a single image.
pub open spec fn image_pdf_choices(
    dpi: Option<u32>,
    export: Export,
    text: Option<Seq<char>>,
) -> PdfChoices {
    PdfChoices {
        dpi: match dpi {
            Some(dpi) => dpi,
            None => 150,
        },
        title: "open-scanline scan"@,
        password: export.pdf_password,
        searchable_pages: match text {
            Some(text) => Some(seq![text]),
            None => None,
        },
    }
}

/// The document of a single image has the resolution that was given, or 150 where none was, the password
/// of the export, and the text where there is one.
pub proof fn image_documents_keep_their_controls(
    dpi: Option<u32>,
    export: Export,
    text: Option<Seq<char>>,
)
    ensures
        dpi matches Some(given) ==> image_pdf_choices(dpi, export, text).dpi == given,
        dpi is None ==> image_pdf_choices(dpi, export, text).dpi == 150,
        image_pdf_choices(dpi, export, text).password == export.pdf_password,
        text matches Some(given) ==> image_pdf_choices(dpi, export, text).searchable_pages == Some(
            seq![given],
        ),
        text is None ==> image_pdf_choices(dpi, export, text).searchable_pages is None,
{
}

/// The PDF options of a document with several pages; text that was not asked for is left out.
pub open spec fn multipage_pdf_choices(
    dpi: u32,
    export: Export,
    searchable_pages: Seq<Seq<char>>,
) -> PdfChoices {
    PdfChoices {
        dpi,
        title: "open-scanline multipage"@,
        password: export.pdf_password,
        searchable_pages: if export.searchable_pdf {
            Some(searchable_pages)
        } else {
            None
        },
    }
}

/// The PDF options of a document with several pages.
pub fn multipage_pdf_options(dpi: u32, options: &ExportOptions, searchable_pages: Vec<String>) -> (r:
    PdfOptions)
    ensures
        r.dpi == dpi,
        r.title@ == "open-scanline multipage"@,
        opt_text(r.password) == opt_text(options.pdf_password),
        r.searchable_pages is Some <==> options.searchable_pdf,
        options.searchable_pdf ==> strings(r.searchable_pages->0@) == strings(searchable_pages@),
        r@ == multipage_pdf_choices(dpi, options@, strings(searchable_pages@)),
{
    PdfOptions {
        dpi,
        title: "open-scanline multipage".to_owned(),
        password: copy_opt(&options.pdf_password),
        searchable_pages: if options.searchable_pdf {
            Some(searchable_pages)
        } else {
            None
        },
    }
}

/// A final image on its way to its destination.
#[derive(Debug)]
pub enum FinalImage {
    /// A document to be written.
    Document(PdfDocument),
    /// An image to be encoded in the format of the destination.
    Encode,
}

/// Saves a final image: a PDF destination gets a document, for which cancellation is polled, any
/// other an encoded image.
pub fn save_final_image_with_cancellation<C: Fn(PollPoint) -> bool>(
    extension: &Extension,
    image: &ImageBuffer,
    dpi: Option<u32>,
    options: &ExportOptions,
    text: Option<String>,
    poll: C,
) -> (r: Result<FinalImage, ScanError>)
    requires
        image@.wf(),
        can_poll(poll),
    ensures
        if extension@.same_as("pdf"@) {
            match r {
                Ok(FinalImage::Encode) => false,
                Ok(FinalImage::Document(document)) => published(
                    Ok(document),
                    seq![image@],
                    image_pdf_choices(dpi, options@, opt_text(text)),
                    polls_of(poll),
                ),
                Err(error) => published(
                    Err(error),
                    seq![image@],
                    image_pdf_choices(dpi, options@, opt_text(text)),
                    polls_of(poll),
                ),
            }
        } else {
            r matches Ok(FinalImage::Encode)
        },
{
    if !extension.same_as("pdf") {
        return Ok(FinalImage::Encode);
    }
    let mut images: Vec<ImageBuffer> = Vec::new();
    images.push(image.clone());
    assert(pictures_of(images@) =~= seq![image@]);
    let pages: Option<Vec<String>> = match text {
        None => None,
        Some(entry) => {
            let mut pages: Vec<String> = Vec::new();
            let ghost held = entry@;
            pages.push(entry);
            assert(strings(pages@) =~= seq![held]);
            Some(pages)
        },
    };
    let choices = PdfOptions {
        dpi: match dpi {
            Some(dpi) => dpi,
            None => 150,
        },
        title: "open-scanline scan".to_owned(),
        password: copy_opt(&options.pdf_password),
        searchable_pages: pages,
    };
    assert(choices@ == image_pdf_choices(dpi, options@, opt_text(text)));
    match save_pdf_with_options_and_cancellation(&images, &choices, poll) {
        Ok(document) => Ok(FinalImage::Document(document)),
        Err(error) => Err(error),
    }
}

/// The containers that hold several pages.
#[derive(Debug, Clone, Copy, PartialEq, Eq, Structural)]
pub enum Container {
    Pdf,
    Tiff,
}

/// The container of a multipage destination.
pub open spec fn container_of(extension: Suffix) -> Result<Container, Failure> {
    match extension.lower() {
        None => Err(Failure::Invalid("multipage destination has no extension"@)),
        Some(text) => if text == "pdf"@ {
            Ok(Container::Pdf)
        } else if text == "tif"@ || text == "tiff"@ {
            Ok(Container::Tiff)
        } else {
            Err(Failure::Invalid("multipage export supports PDF or TIFF, not '."@ + text + "'"@))
        },
    }
}

/// Validates a multipage export and finds its container, before anything is written.
pub fn prepare_multipage_export(
    extension: &Extension,
    options: &ExportOptions,
    language: Result<(), ScanError>,
) -> (r: Result<Container, ScanError>)
    ensures
        r is Ok ==> (r->Ok_0 == Container::Pdf <==> extension@.lower() == Some("pdf"@)),
        r is Ok ==> (r->Ok_0 == Container::Tiff <==> extension@.lower() == Some("tif"@) || extension@.lower()
            == Some("tiff"@)),
        r is Ok && r->Ok_0 == Container::Tiff ==> !options.searchable_pdf && options.pdf_password is None,
        outcome(r) == (match prepared_export(
            extension@.same_as("pdf"@),
            options@,
            outcome(language),
        ) {
            Err(failure) => Err(failure),
            Ok(_) => container_of(extension@),
        }),
{
    proof {
        reveal_strlit("pdf");
        reveal_strlit("tif");
        reveal_strlit("tiff");
        assert("pdf"@[0] == 'p' && "tif"@[0] == 't' && "tiff"@[0] == 't');
    }
    match prepare_export_options(extension, options, language) {
        Ok(()) => {},
        Err(error) => {
            return Err(error);
        },
    }
    match extension.lower() {
        None => Err(invalid("multipage destination has no extension")),
        Some(text) => {
            if same_text(text.as_str(), "pdf") {
                Ok(Container::Pdf)
            } else if same_text(text.as_str(), "tif") || same_text(text.as_str(), "tiff") {
                Ok(Container::Tiff)
            } else {
                let mut message = "multipage export supports PDF or TIFF, not '.".to_owned();
                message.append(text.as_str());
                message.append("'");
                Err(ScanError::Invalid(message))
            }
        },
    }
}

} // verus!
