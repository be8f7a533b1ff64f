//! PDF options and the limits that a document has to keep.

use crate::error::{cancelled, invalid, outcome, Failure, ScanError};
use crate::processing::opt_text;
use crate::text::{decimal, push_decimal, strings};
use vstd::prelude::*;
use vstd::string::StringExecFns;
use vstd::utf8::encode_utf8;

verus! {

/// Compressed page streams are retained until the document is published. Their aggregate is
/// limited to half the ceiling of one decoded image.
pub const MAX_PDF_RETAINED_IMAGE_STREAM_BYTES: usize = 268_435_456;

/// OCR text is copied into the font map, the character map and the page content.
pub const MAX_PDF_SEARCHABLE_PAGE_UTF8_BYTES: usize = 1_048_576;

/// The aggregate of the searchable layer over all pages.
pub const MAX_PDF_SEARCHABLE_TEXT_UTF8_BYTES: usize = 16_777_216;

/// Longest password, in UTF-8 bytes after preparation.
pub const MAX_PDF_PASSWORD_UTF8_BYTES: usize = 127;

/// Options for structured PDF output.
#[derive(Debug, Clone)]
pub struct PdfOptions {
    pub dpi: u32,
    pub title: String,
    pub password: Option<String>,
    pub searchable_pages: Option<Vec<String>>,
}

/// What PDF options hold.
pub struct PdfChoices {
    pub dpi: u32,
    pub title: Seq<char>,
    pub password: Option<Seq<char>>,
    pub searchable_pages: Option<Seq<Seq<char>>>,
}

impl View for PdfOptions {
    type V = PdfChoices;

    open spec fn view(&self) -> PdfChoices {
        PdfChoices {
            dpi: self.dpi,
            title: self.title@,
            password: opt_text(self.password),
            searchable_pages: match self.searchable_pages {
                Some(pages) => Some(strings(pages@)),
                None => None,
            },
        }
    }
}

impl Default for PdfOptions {
    fn default() -> (r: Self)
        ensures
            r@ == (PdfChoices {
                dpi: 150,
                title: "open-scanline scan"@,
                password: None,
                searchable_pages: None,
            }),
    {
        PdfOptions {
            dpi: 150,
            title: "open-scanline scan".to_owned(),
            password: None,
            searchable_pages: None,
        }
    }
}

// ---------------------------------------------------------------------------
// Cancellation
// ---------------------------------------------------------------------------

/// The error of cancelled publication.
pub open spec fn pdf_cancelled() -> Failure {
    Failure::Cancelled("PDF publication cancelled"@)
}

/// Refuses to go on with cancelled work.
pub fn check_pdf_cancellation(is_cancelled: bool) -> (r: Result<(), ScanError>)
    ensures
        outcome(r) == (if is_cancelled {
            Err::<(), Failure>(pdf_cancelled())
        } else {
            Ok(())
        }),
{
    if is_cancelled {
        Err(cancelled("PDF publication cancelled"))
    } else {
        Ok(())
    }
}

// ---------------------------------------------------------------------------
// Retained image streams
// ---------------------------------------------------------------------------

/// The aggregate of retained image streams with one more stream, where it keeps the limit.
pub open spec fn image_stream_aggregate(current: int, stream_bytes: int) -> Result<int, Failure> {
    if current + stream_bytes > usize::MAX {
        Err(Failure::Image("PDF image stream aggregate exceeds the safety limit"@))
    } else if current + stream_bytes > MAX_PDF_RETAINED_IMAGE_STREAM_BYTES {
        Err(
            Failure::Image(
                "PDF image stream aggregate exceeds the 268435456-byte safety limit"@,
            ),
        )
    } else {
        Ok(current + stream_bytes)
    }
}

/// Adds one stream to the aggregate of retained image streams.
pub fn checked_pdf_image_stream_aggregate(current: usize, stream_bytes: usize) -> (r: Result<
    usize,
    ScanError,
>)
    ensures
        r is Ok <==> current + stream_bytes <= 268_435_456,
        r is Ok ==> r->Ok_0 == current + stream_bytes,
        match image_stream_aggregate(current as int, stream_bytes as int) {
            Ok(aggregate) => r is Ok && r->Ok_0 == aggregate,
            Err(failure) => r is Err && r->Err_0@ == failure,
        },
{
    match current.checked_add(stream_bytes) {
        None => Err(
            ScanError::Image("PDF image stream aggregate exceeds the safety limit".to_owned()),
        ),
        Some(aggregate) => if aggregate > MAX_PDF_RETAINED_IMAGE_STREAM_BYTES {
            Err(
                ScanError::Image(
                    "PDF image stream aggregate exceeds the 268435456-byte safety limit".to_owned(),
                ),
            )
        } else {
            Ok(aggregate)
        },
    }
}

// ---------------------------------------------------------------------------
// Searchable text
// ---------------------------------------------------------------------------

/// The error of a page whose searchable text is too long.
pub open spec fn page_text_limit(page_index: int, page_limit: int) -> Failure {
    Failure::Invalid(
        "searchable PDF page "@ + decimal((page_index + 1) as nat) + " exceeds the "@ + decimal(
            page_limit as nat,
        ) + "-byte UTF-8 safety limit"@,
    )
}

/// The aggregate of searchable text with one more page, where it keeps the limits.
pub open spec fn searchable_total(
    aggregate: int,
    text: Seq<char>,
    page_index: int,
    page_limit: int,
    aggregate_limit: int,
) -> Result<int, Failure> {
    let bytes = encode_utf8(text).len();
    if bytes > page_limit {
        Err(page_text_limit(page_index, page_limit))
    } else if aggregate + bytes > usize::MAX {
        Err(Failure::Invalid("searchable PDF text aggregate exceeds the safety limit"@))
    } else if aggregate + bytes > aggregate_limit {
        Err(
            Failure::Invalid(
                "searchable PDF text aggregate exceeds the "@ + decimal(aggregate_limit as nat)
                    + "-byte UTF-8 safety limit"@,
            ),
        )
    } else {
        Ok(aggregate + bytes)
    }
}

/// Validates one OCR result before it is retained, and gives the new aggregate.
pub fn checked_pdf_searchable_text_total_with_limits(
    aggregate: usize,
    text: &str,
    page_index: usize,
    page_limit: usize,
    aggregate_limit: usize,
) -> (r: Result<usize, ScanError>)
    requires
        page_index < usize::MAX,
    ensures
        r is Ok <==> encode_utf8(text@).len() <= page_limit && aggregate + encode_utf8(text@).len()
            <= aggregate_limit,
        r is Ok ==> r->Ok_0 == aggregate + encode_utf8(text@).len(),
        match searchable_total(
            aggregate as int,
            text@,
            page_index as int,
            page_limit as int,
            aggregate_limit as int,
        ) {
            Ok(total) => r is Ok && r->Ok_0 == total,
            Err(failure) => r is Err && r->Err_0@ == failure,
        },
{
    let bytes: usize = text.as_bytes().len();
    if bytes > page_limit {
        let mut message = "searchable PDF page ".to_owned();
        push_decimal(&mut message, (page_index + 1) as u64);
        message.append(" exceeds the ");
        push_decimal(&mut message, page_limit as u64);
        message.append("-byte UTF-8 safety limit");
        return Err(ScanError::Invalid(message));
    }
    match aggregate.checked_add(bytes) {
        None => Err(invalid("searchable PDF text aggregate exceeds the safety limit")),
        Some(total) => if total > aggregate_limit {
            let mut message = "searchable PDF text aggregate exceeds the ".to_owned();
            push_decimal(&mut message, aggregate_limit as u64);
            message.append("-byte UTF-8 safety limit");
            Err(ScanError::Invalid(message))
        } else {
            Ok(total)
        },
    }
}

/// Validates one OCR result against the product limits, and gives the new aggregate.
pub fn checked_pdf_searchable_text_total(aggregate: usize, text: &str, page_index: usize) -> (r:
    Result<usize, ScanError>)
    requires
        page_index < usize::MAX,
    ensures
        match searchable_total(
            aggregate as int,
            text@,
            page_index as int,
            MAX_PDF_SEARCHABLE_PAGE_UTF8_BYTES as int,
            MAX_PDF_SEARCHABLE_TEXT_UTF8_BYTES as int,
        ) {
            Ok(total) => r is Ok && r->Ok_0 == total,
            Err(failure) => r is Err && r->Err_0@ == failure,
        },
{
    checked_pdf_searchable_text_total_with_limits(
        aggregate,
        text,
        page_index,
        MAX_PDF_SEARCHABLE_PAGE_UTF8_BYTES,
        MAX_PDF_SEARCHABLE_TEXT_UTF8_BYTES,
    )
}

/// The aggregate of the first `n` pages of searchable text, or the first limit that is passed.
pub open spec fn searchable_aggregate(pages: Seq<Seq<char>>, n: int) -> Result<int, Failure>
    decreases n,
{
    if n <= 0 {
        Ok(0)
    } else {
        match searchable_aggregate(pages, n - 1) {
            Err(failure) => Err(failure),
            Ok(aggregate) => searchable_total(
                aggregate,
                pages[n - 1],
                n - 1,
                MAX_PDF_SEARCHABLE_PAGE_UTF8_BYTES as int,
                MAX_PDF_SEARCHABLE_TEXT_UTF8_BYTES as int,
            ),
        }
    }
}

/// A limit that is passed by the first pages is passed by all.
pub proof fn lemma_aggregate_fails(pages: Seq<Seq<char>>, n: int, m: int)
    requires
        n <= m,
        searchable_aggregate(pages, n) is Err,
    ensures
        searchable_aggregate(pages, m) == searchable_aggregate(pages, n),
    decreases m - n,
{
    if n < m {
        lemma_aggregate_fails(pages, n, m - 1);
    }
}

/// Whether searchable text keeps the limits.
pub open spec fn searchable_pages_checked(pages: Seq<Seq<char>>) -> Result<(), Failure> {
    match searchable_aggregate(pages, pages.len() as int) {
        Ok(_) => Ok(()),
        Err(failure) => Err(failure),
    }
}

/// Validates searchable text before it is copied into document objects.
pub fn validate_pdf_searchable_pages(searchable_pages: &Vec<String>) -> (r: Result<(), ScanError>)
    ensures
        outcome(r) == searchable_pages_checked(strings(searchable_pages@)),
{
    let ghost pages = strings(searchable_pages@);
    let total: usize = searchable_pages.len();
    let mut aggregate: usize = 0;
    let mut index: usize = 0;
    while index < total
        invariant
            index <= total,
            total == searchable_pages@.len(),
            pages == strings(searchable_pages@),
            searchable_aggregate(pages, index as int) == Ok::<int, Failure>(aggregate as int),
        decreases total - index,
    {
        assert(pages[index as int] == searchable_pages@[index as int]@);
        match checked_pdf_searchable_text_total(
            aggregate,
            searchable_pages[index].as_str(),
            index,
        ) {
            Ok(sum) => {
                aggregate = sum;
            },
            Err(error) => {
                proof {
                    lemma_aggregate_fails(pages, index + 1, total as int);
                }
                return Err(error);
            },
        }
        index += 1;
    }
    Ok(())
}

/// Every page that is kept fits the page limit, and all pages together the aggregate limit.
pub proof fn searchable_text_is_bounded(pages: Seq<Seq<char>>, n: int)
    requires
        0 <= n <= pages.len(),
        searchable_aggregate(pages, n) is Ok,
    ensures
        0 <= searchable_aggregate(pages, n)->Ok_0 <= MAX_PDF_SEARCHABLE_TEXT_UTF8_BYTES,
        forall|i: int|
            0 <= i < n ==> encode_utf8(#[trigger] pages[i]).len()
                <= MAX_PDF_SEARCHABLE_PAGE_UTF8_BYTES,
    decreases n,
{
    if n > 0 {
        searchable_text_is_bounded(pages, n - 1);
    }
}

/// The aggregate of searchable text adds up: each page counts with the bytes of its text in UTF-8.
pub proof fn searchable_text_adds_up(pages: Seq<Seq<char>>, n: int)
    requires
        0 < n <= pages.len(),
        searchable_aggregate(pages, n) is Ok,
    ensures
        searchable_aggregate(pages, 0) == Ok::<int, Failure>(0),
        searchable_aggregate(pages, n - 1) is Ok,
        searchable_aggregate(pages, n)->Ok_0 == searchable_aggregate(pages, n - 1)->Ok_0 + encode_utf8(
            pages[n - 1],
        ).len(),
{
}

// ---------------------------------------------------------------------------
// Passwords
// ---------------------------------------------------------------------------

/// A character that the SASLprep profile passes unchanged: ASCII, but no control character.
pub open spec fn is_plain_ascii(c: char) -> bool {
    ' ' <= c <= '~'
}

/// Whether every character is ASCII and none is a control character.
pub open spec fn all_plain_ascii(s: Seq<char>) -> bool {
    forall|i: int| 0 <= i < s.len() ==> is_plain_ascii(#[trigger] s[i])
}

/// What `stringprep::saslprep` makes of a text: the prepared text, or the text of its error.
pub uninterp spec fn saslprep_of(s: Seq<char>) -> Result<Seq<char>, Seq<char>>;

/// `stringprep::saslprep`: prepares a text by the SASLprep profile. Its result is a function of
/// the text alone; a text of ASCII characters without control characters comes back as it is.
/// The error is given as the text that it displays.
#[verifier::external_body]
fn saslprep_text(s: &str) -> (r: Result<String, String>)
    ensures
        match r {
            Ok(text) => saslprep_of(s@) == Ok::<Seq<char>, Seq<char>>(text@),
            Err(text) => saslprep_of(s@) == Err::<Seq<char>, Seq<char>>(text@),
        },
        all_plain_ascii(s@) ==> r is Ok && r->Ok_0@ == s@,
{
    match stringprep::saslprep(s) {
        Ok(text) => Ok(text.into_owned()),
        Err(error) => Err(error.to_string()),
    }
}

/// Whether a password can be used, given its prepared form or why it has none.
pub open spec fn prepared_password_checked(prepared: Result<Seq<char>, Seq<char>>) -> Result<
    (),
    Failure,
> {
    match prepared {
        Err(error) => Err(
            Failure::Invalid("PDF password is not valid SASLprep Unicode: "@ + error),
        ),
        Ok(text) => if text.len() == 0 {
            Err(Failure::Invalid("PDF password must not be empty after SASLprep normalization"@))
        } else if encode_utf8(text).len() > MAX_PDF_PASSWORD_UTF8_BYTES {
            Err(
                Failure::Invalid(
                    "PDF passwords are limited to 127 UTF-8 bytes after SASLprep normalization"@,
                ),
            )
        } else {
            Ok(())
        },
    }
}

/// Validates a prepared password.
pub fn accept_prepared_password(prepared: Result<String, String>) -> (r: Result<(), ScanError>)
    ensures
        r is Ok <==> prepared is Ok && prepared->Ok_0@.len() > 0 && encode_utf8(prepared->Ok_0@).len() <= 127,
        outcome(r) == prepared_password_checked(
            match prepared {
                Ok(text) => Ok(text@),
                Err(text) => Err(text@),
            },
        ),
{
    match prepared {
        Err(error) => {
            let mut message = "PDF password is not valid SASLprep Unicode: ".to_owned();
            message.append(error.as_str());
            Err(ScanError::Invalid(message))
        },
        Ok(text) => {
            let first = text.as_str().chars().next();
            if first.is_none() {
                Err(invalid("PDF password must not be empty after SASLprep normalization"))
            } else if text.as_str().as_bytes().len() > MAX_PDF_PASSWORD_UTF8_BYTES {
                Err(
                    invalid(
                        "PDF passwords are limited to 127 UTF-8 bytes after SASLprep normalization",
                    ),
                )
            } else {
                Ok(())
            }
        },
    }
}

/// Validates a password: it is prepared by SASLprep, and the prepared text has to fit.
pub fn validate_pdf_password(password: &str) -> (r: Result<(), ScanError>)
    ensures
        outcome(r) == prepared_password_checked(saslprep_of(password@)),
        all_plain_ascii(password@) ==> outcome(r) == prepared_password_checked(Ok(password@)),
{
    accept_prepared_password(saslprep_text(password))
}

// ---------------------------------------------------------------------------
// Options
// ---------------------------------------------------------------------------

/// Whether options fit a document of `page_count` pages.
pub open spec fn options_checked(page_count: int, options: PdfChoices) -> Result<(), Failure> {
    let text = match options.searchable_pages {
        None => Ok(()),
        Some(pages) => if pages.len() != page_count {
            Err(Failure::Invalid("searchable_pages length must match number of pages"@))
        } else {
            searchable_pages_checked(pages)
        },
    };
    match text {
        Err(failure) => Err(failure),
        Ok(_) => match options.password {
            None => Ok(()),
            Some(password) => if password.len() == 0 {
                Err(
                    Failure::Invalid(
                        "PDF password must not be empty when encryption is requested"@,
                    ),
                )
            } else {
                prepared_password_checked(saslprep_of(password))
            },
        },
    }
}

/// Validates options for a document of `page_count` pages.
pub fn validate_pdf_options(page_count: usize, options: &PdfOptions) -> (r: Result<(), ScanError>)
    ensures
        r is Ok && options.searchable_pages is Some ==> options.searchable_pages->0@.len() == page_count,
        r is Ok && options.password is Some ==> options.password->0@.len() > 0,
        options.searchable_pages is None && options.password is None ==> r is Ok,
        outcome(r) == options_checked(page_count as int, options@),
{
    if let Some(pages) = &options.searchable_pages {
        if pages.len() != page_count {
            return Err(invalid("searchable_pages length must match number of pages"));
        }
        match validate_pdf_searchable_pages(pages) {
            Ok(()) => {},
            Err(error) => {
                return Err(error);
            },
        }
    }
    match &options.password {
        None => Ok(()),
        Some(password) => {
            if password.as_str().chars().next().is_none() {
                return Err(
                    invalid("PDF password must not be empty when encryption is requested"),
                );
            }
            validate_pdf_password(password.as_str())
        },
    }
}

} // verus!
