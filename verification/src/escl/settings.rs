//! Scan settings: what is asked of a scanner for a request, and the limits of its answer.

use crate::acquisition::{low_resolution, validate_scan_dpi, Request, ScanMode, ScanRequest};
use crate::error::{joined, outcome, outcome_view, unsupported, Failure, ScanError};
use crate::escl::capabilities::{
    entry_index, lemma_entry_index, source_with_shared, CapabilitySource, Caps,
    ScannerCapabilities, SourceCapabilities, SourceCaps,
};
use crate::image::{checked_image_len, image_len, PixelFormat, Rect};
use crate::processing::{larger, smaller};
use crate::text::{
    chars_of, contains_text, decimal, equal_letters, is_digit, lower, lower_all, push_decimal,
    same_letters, strings,
};
use vstd::prelude::*;
use vstd::string::{StrSliceExecFns, StringExecFns};
use vstd::utf8::{decode_utf8, encode_utf8};

verus! {

/// How a document's pixels are stored.
#[derive(Debug, Clone, Copy, PartialEq, Eq, Structural)]
pub enum DocumentRepresentation {
    BlackAndWhite1,
    Grayscale8,
    Rgb24,
    Rgb48,
}

impl DocumentRepresentation {
    /// Bytes per decoded pixel; bilevel images expand to one byte per pixel.
    pub open spec fn spec_bytes(self) -> int {
        match self {
            DocumentRepresentation::BlackAndWhite1 => 1,
            DocumentRepresentation::Grayscale8 => 1,
            DocumentRepresentation::Rgb24 => 3,
            DocumentRepresentation::Rgb48 => 6,
        }
    }

    /// Bytes per decoded pixel.
    pub fn decoded_bytes_per_pixel(self) -> (r: u64)
        ensures
            self is BlackAndWhite1 || self is Grayscale8 ==> r == 1,
            self is Rgb24 ==> r == 3,
            self is Rgb48 ==> r == 6,
            r == self.spec_bytes(),
    {
        match self {
            DocumentRepresentation::BlackAndWhite1 => 1,
            DocumentRepresentation::Grayscale8 => 1,
            DocumentRepresentation::Rgb24 => 3,
            DocumentRepresentation::Rgb48 => 6,
        }
    }

    /// The name of the representation.
    pub open spec fn spec_name(self) -> Seq<char> {
        match self {
            DocumentRepresentation::BlackAndWhite1 => "BlackAndWhite1"@,
            DocumentRepresentation::Grayscale8 => "Grayscale8"@,
            DocumentRepresentation::Rgb24 => "RGB24"@,
            DocumentRepresentation::Rgb48 => "RGB48"@,
        }
    }

    /// The name of the representation.
    pub fn name(self) -> (r: &'static str)
        ensures
            self is BlackAndWhite1 ==> r@ == "BlackAndWhite1"@,
            self is Grayscale8 ==> r@ == "Grayscale8"@,
            self is Rgb24 ==> r@ == "RGB24"@,
            self is Rgb48 ==> r@ == "RGB48"@,
            r@ == self.spec_name(),
    {
        match self {
            DocumentRepresentation::BlackAndWhite1 => "BlackAndWhite1",
            DocumentRepresentation::Grayscale8 => "Grayscale8",
            DocumentRepresentation::Rgb24 => "RGB24",
            DocumentRepresentation::Rgb48 => "RGB48",
        }
    }
}

// ---------------------------------------------------------------------------
// Limits of a document
// ---------------------------------------------------------------------------

/// The least number of bytes that a response may have.
pub const MIN_DOCUMENT_RESPONSE_LIMIT: u64 = 2_097_152;

/// What a file format may add to the pixels.
pub const DOCUMENT_CONTAINER_OVERHEAD: u64 = 16_777_216;

/// The most bytes that any response may have.
pub const MAX_DOCUMENT_RESPONSE_LIMIT: u64 = 553_648_128;

/// The most bytes that any document may decode to.
pub const MAX_DOCUMENT_DECODE_ALLOCATION: u64 = 536_870_912;

/// The least allowance for decoding.
pub const MIN_DOCUMENT_DECODE_ALLOCATION: u64 = 4_194_304;

/// The least width and height that decoding allows.
pub const MIN_DOCUMENT_DIMENSION_LIMIT: u32 = 1_024;

/// The greatest width and height that decoding allows.
pub const MAX_DOCUMENT_DIMENSION_LIMIT: u32 = 65_535;

/// The width and height that a request asks for.
pub open spec fn asked_size(request: Request) -> (u32, u32) {
    match request.region {
        Some(region) => (region.width, region.height),
        None => (request.width, request.height),
    }
}

/// The width and height that a request asks for.
pub fn requested_document_dimensions(request: &ScanRequest) -> (r: (u32, u32))
    ensures
        request.region is Some ==> r.0 == request.region->0.width && r.1 == request.region->0.height,
        request.region is None ==> r.0 == request.width && r.1 == request.height,
        r == asked_size(request@),
{
    match request.region {
        Some(region) => (region.width, region.height),
        None => (request.width, request.height),
    }
}

/// The bytes that a requested document decodes to, or why there can be no such document.
pub open spec fn decoded_bytes(
    request: Request,
    representation: DocumentRepresentation,
) -> Result<int, Failure> {
    let (width, height) = asked_size(request);
    match image_len(width as int, height as int, request.pixel_format.spec_bpp()) {
        Err(failure) => Err(failure),
        Ok(_len) => {
            let bytes = width * height * representation.spec_bytes();
            if bytes > MAX_DOCUMENT_DECODE_ALLOCATION {
                Err(
                    Failure::Invalid(
                        "eSCL "@ + representation.spec_name()
                            + " document exceeds the 536870912-byte decoded image safety limit"@,
                    ),
                )
            } else {
                Ok(bytes)
            }
        },
    }
}

/// The bytes that a requested document decodes to.
pub fn document_decoded_bytes(request: &ScanRequest, representation: DocumentRepresentation) -> (r:
    Result<u64, ScanError>)
    ensures
        r is Ok && request.region is Some && representation == DocumentRepresentation::Rgb24 ==> r->Ok_0 == 3 * (
        request.region->0.width * request.region->0.height),
        r is Ok && request.region is Some && representation == DocumentRepresentation::Rgb48 ==> r->Ok_0 == 6 * (
        request.region->0.width * request.region->0.height),
        r is Ok && request.region is None && representation == DocumentRepresentation::Rgb24 ==> r->Ok_0 == 3 * (
        request.width * request.height),
        r is Ok && request.region is None && representation == DocumentRepresentation::Rgb48 ==> r->Ok_0 == 6 * (
        request.width * request.height),
        r is Ok && request.region is None && (representation == DocumentRepresentation::Grayscale8
            || representation == DocumentRepresentation::BlackAndWhite1) ==> r->Ok_0 == request.width
            * request.height,
        r is Ok ==> r->Ok_0 <= 536_870_912,
        match decoded_bytes(request@, representation) {
            Ok(bytes) => r is Ok && r->Ok_0 == bytes,
            Err(failure) => r is Err && r->Err_0@ == failure,
        },
        r is Ok ==> r->Ok_0 <= MAX_DOCUMENT_DECODE_ALLOCATION,
{
    let (width, height) = requested_document_dimensions(request);
    match checked_image_len(width, height, request.pixel_format.bpp()) {
        Ok(_len) => {},
        Err(error) => {
            return Err(error);
        },
    }
    proof {
        assert(width * height <= 65535 * 65535) by (nonlinear_arith)
            requires
                width <= 65535,
                height <= 65535,
        ;
        let n = width * height;
        let b = representation.spec_bytes();
        assert(n * b <= 65535 * 65535 * 6) by (nonlinear_arith)
            requires
                0 <= n <= 65535 * 65535,
                0 <= b <= 6,
        ;
        assert(0 <= n) by (nonlinear_arith)
            requires
                n == width * height,
                width >= 0,
                height >= 0,
        ;
    }
    let bytes: u64 = (width as u64) * (height as u64) * representation.decoded_bytes_per_pixel();
    proof {
        let n = width * height;
        let b = representation.spec_bytes();
        assert(bytes == n * b);
        assert(b == 3 ==> n * b == 3 * n) by (nonlinear_arith);
        assert(b == 6 ==> n * b == 6 * n) by (nonlinear_arith);
        assert(b == 1 ==> n * b == n) by (nonlinear_arith);
    }
    if bytes > MAX_DOCUMENT_DECODE_ALLOCATION {
        let mut text = joined("eSCL ", representation.name());
        text.append(" document exceeds the 536870912-byte decoded image safety limit");
        return Err(ScanError::Invalid(text));
    }
    Ok(bytes)
}

/// What a scanner may send for a request, and what decoding it may use.
#[derive(Debug, Clone, Copy, PartialEq, Eq, Structural)]
pub struct DocumentLimits {
    pub response_limit: u64,
    pub max_width: u32,
    pub max_height: u32,
    pub max_allocation: u64,
}

/// A number kept between two bounds.
pub open spec fn clamped(v: int, low: int, high: int) -> int {
    if v < low {
        low
    } else if v > high {
        high
    } else {
        v
    }
}

/// The limits for a request: the pixels and a container's overhead for the response, four times the
/// size asked for, and at least 4 MiB for decoding.
pub open spec fn limits_of(request: Request, representation: DocumentRepresentation) -> Result<
    DocumentLimits,
    Failure,
> {
    match decoded_bytes(request, representation) {
        Err(failure) => Err(failure),
        Ok(bytes) => {
            let (width, height) = asked_size(request);
            Ok(
                DocumentLimits {
                    response_limit: (bytes + DOCUMENT_CONTAINER_OVERHEAD) as u64,
                    max_width: clamped(4 * width, 1024, 65535) as u32,
                    max_height: clamped(4 * height, 1024, 65535) as u32,
                    max_allocation: larger(bytes, 4194304) as u64,
                },
            )
        },
    }
}

/// The bytes that a response may have.
pub fn document_response_limit(request: &ScanRequest, representation: DocumentRepresentation) -> (r:
    Result<u64, ScanError>)
    ensures
        r is Ok ==> 16_777_216 <= r->Ok_0 <= 553_648_128,
        match decoded_bytes(request@, representation) {
            Ok(bytes) => r is Ok && r->Ok_0 == bytes + DOCUMENT_CONTAINER_OVERHEAD,
            Err(failure) => r is Err && r->Err_0@ == failure,
        },
        r is Ok ==> MIN_DOCUMENT_RESPONSE_LIMIT <= r->Ok_0 <= MAX_DOCUMENT_RESPONSE_LIMIT,
{
    match document_decoded_bytes(request, representation) {
        Ok(bytes) => {
            // The overhead alone passes the lower limit, and decoded bytes keep the upper one.
            Ok(bytes + DOCUMENT_CONTAINER_OVERHEAD)
        },
        Err(error) => Err(error),
    }
}

fn four_times(v: u32) -> (r: u32)
    ensures
        r == clamped(4 * v, 1024, 65535),
{
    if v < 256 {
        1024
    } else if v > 16383 {
        65535
    } else {
        v * 4
    }
}

/// The greatest width, height and allocation that decoding may use.
pub fn document_decode_limits(request: &ScanRequest, representation: DocumentRepresentation) -> (r:
    Result<(u32, u32, u64), ScanError>)
    ensures
        match limits_of(request@, representation) {
            Ok(limits) => r is Ok && r->Ok_0 == (
                limits.max_width,
                limits.max_height,
                limits.max_allocation,
            ),
            Err(failure) => r is Err && r->Err_0@ == failure,
        },
{
    let (width, height) = requested_document_dimensions(request);
    match document_decoded_bytes(request, representation) {
        Ok(bytes) => Ok(
            (
                four_times(width),
                four_times(height),
                if bytes > MIN_DOCUMENT_DECODE_ALLOCATION {
                    bytes
                } else {
                    MIN_DOCUMENT_DECODE_ALLOCATION
                },
            ),
        ),
        Err(error) => Err(error),
    }
}

impl DocumentLimits {
    /// The limits for a request.
    pub fn for_request(request: &ScanRequest, representation: DocumentRepresentation) -> (r: Result<
        Self,
        ScanError,
    >)
        ensures
            r is Ok && request.region is Some && 256 <= request.region->0.width <= 16_383 ==> r->Ok_0.max_width == 4
                * request.region->0.width,
            r is Ok && request.region is Some && 256 <= request.region->0.height <= 16_383 ==> r->Ok_0.max_height
                == 4 * request.region->0.height,
            r is Ok && request.region is None && 256 <= request.width <= 16_383 ==> r->Ok_0.max_width == 4
                * request.width,
            r is Ok && request.region is None && 256 <= request.height <= 16_383 ==> r->Ok_0.max_height == 4
                * request.height,
            r is Ok ==> 1_024 <= r->Ok_0.max_width <= 65_535 && 1_024 <= r->Ok_0.max_height <= 65_535,
            r is Ok ==> r->Ok_0.max_allocation >= 4_194_304,
            r is Ok && r->Ok_0.max_allocation > 4_194_304 ==> r->Ok_0.response_limit
                == r->Ok_0.max_allocation + 16_777_216,
            outcome(r) == limits_of(request@, representation),
    {
        let response_limit: u64 = match document_response_limit(request, representation) {
            Ok(limit) => limit,
            Err(error) => {
                return Err(error);
            },
        };
        match document_decode_limits(request, representation) {
            Ok((max_width, max_height, max_allocation)) => Ok(
                DocumentLimits { response_limit, max_width, max_height, max_allocation },
            ),
            Err(error) => Err(error),
        }
    }
}

// ---------------------------------------------------------------------------
// Choosing what the scanner offers
// ---------------------------------------------------------------------------

/// The source that a request asks for; duplex is for documents only.
pub open spec fn wanted_source(request: Request) -> Result<CapabilitySource, Failure> {
    match (request.mode, request.duplex) {
        (ScanMode::Reflective, false) => Ok(CapabilitySource::Platen),
        (ScanMode::Reflective, true) => Err(
            Failure::Unsupported("duplex scanning is only supported for document ADF sources"@),
        ),
        (ScanMode::Document, false) => Ok(CapabilitySource::AdfSimplex),
        (ScanMode::Document, true) => Ok(CapabilitySource::AdfDuplex),
        (ScanMode::Film, true) => Err(
            Failure::Unsupported("duplex scanning is not supported for film sources"@),
        ),
        (ScanMode::Film, false) => Ok(CapabilitySource::Film),
    }
}

/// How a source is called in messages.
pub open spec fn source_text(source: CapabilitySource) -> Seq<char> {
    match source {
        CapabilitySource::Platen => "platen"@,
        CapabilitySource::AdfSimplex => "ADF simplex"@,
        CapabilitySource::AdfDuplex => "ADF duplex"@,
        CapabilitySource::Film => "film/transparency"@,
    }
}

/// The source chosen for a request: the advertised one, or, for a platen, what holds for all
/// sources where the scanner advertises no source by name.
pub open spec fn source_choice(request: Request, caps: Caps) -> Result<SourceCaps, Failure> {
    match wanted_source(request) {
        Err(failure) => Err(failure),
        Ok(source) => {
            let i = entry_index(caps.sources, Some(source));
            if i < caps.sources.len() {
                Ok(caps.sources[i])
            } else if source == CapabilitySource::Platen && unnamed(caps.sources) {
                Ok(source_with_shared(caps.sources, source))
            } else {
                Err(
                    Failure::Unsupported(
                        "scanner does not advertise a "@ + source_text(source) + " source"@,
                    ),
                )
            }
        },
    }
}

/// Whether no entry names its source.
pub open spec fn unnamed(sources: Seq<SourceCaps>) -> bool {
    forall|i: int| 0 <= i < sources.len() ==> (#[trigger] sources[i]).source is None
}

/// The source chosen for a request.
pub fn select_source(request: &ScanRequest, capabilities: &ScannerCapabilities) -> (r: Result<
    SourceCapabilities,
    ScanError,
>)
    ensures
        outcome_view(r) == source_choice(request@, capabilities@),
        r is Ok ==> r->Ok_0@.source is Some,
{
    let source = match (request.mode, request.duplex) {
        (ScanMode::Reflective, false) => CapabilitySource::Platen,
        (ScanMode::Reflective, true) => {
            return Err(
                unsupported("duplex scanning is only supported for document ADF sources"),
            );
        },
        (ScanMode::Document, false) => CapabilitySource::AdfSimplex,
        (ScanMode::Document, true) => CapabilitySource::AdfDuplex,
        (ScanMode::Film, true) => {
            return Err(unsupported("duplex scanning is not supported for film sources"));
        },
        (ScanMode::Film, false) => CapabilitySource::Film,
    };
    proof {
        lemma_entry_index(capabilities@.sources, Some(source));
    }
    match capabilities.source(source) {
        Some(found) => {
            return Ok(found.clone());
        },
        None => {},
    }
    if source == CapabilitySource::Platen {
        let mut none_named = true;
        let mut i: usize = 0;
        while i < capabilities.sources.len()
            invariant
                i <= capabilities.sources@.len(),
                none_named ==> forall|j: int|
                    0 <= j < i ==> (#[trigger] capabilities@.sources[j]).source is None,
                !none_named ==> !unnamed(capabilities@.sources),
            decreases capabilities.sources@.len() - i,
        {
            assert(capabilities@.sources[i as int] == capabilities.sources@[i as int]@);
            if capabilities.sources[i].source.is_some() {
                none_named = false;
            }
            i += 1;
        }
        if none_named {
            return Ok(capabilities.source_or_default(source));
        }
    }
    let description = match source {
        CapabilitySource::Platen => "platen",
        CapabilitySource::AdfSimplex => "ADF simplex",
        CapabilitySource::AdfDuplex => "ADF duplex",
        CapabilitySource::Film => "film/transparency",
    };
    let mut text = joined("scanner does not advertise a ", description);
    text.append(" source");
    Err(ScanError::Unsupported(text))
}

/// The first text that equals another but for the case of its letters.
pub open spec fn first_like(values: Seq<Seq<char>>, wanted: Seq<char>) -> Option<Seq<char>>
    decreases values.len(),
{
    if values.len() == 0 {
        None
    } else if same_letters(values[0], wanted) {
        Some(values[0])
    } else {
        first_like(values.skip(1), wanted)
    }
}

fn find_like(values: &Vec<String>, wanted: &str) -> (r: Option<String>)
    ensures
        match r {
            Some(found) => first_like(strings(values@), wanted@) == Some(found@),
            None => first_like(strings(values@), wanted@) is None,
        },
{
    let wanted_chars = chars_of(wanted);
    let mut i: usize = 0;
    assert(strings(values@).skip(0) =~= strings(values@));
    while i < values.len()
        invariant
            i <= values@.len(),
            wanted_chars@ == wanted@,
            first_like(strings(values@).skip(i as int), wanted@) == first_like(
                strings(values@),
                wanted@,
            ),
        decreases values@.len() - i,
    {
        let candidate = chars_of(values[i].as_str());
        assert(strings(values@).skip(i as int)[0] == candidate@);
        if equal_letters(&candidate, &wanted_chars) {
            return Some(values[i].clone());
        }
        assert(strings(values@).skip(i as int).skip(1) =~= strings(values@).skip(i + 1));
        i += 1;
    }
    None
}

/// The colour mode asked for, and how its pixels are stored.
#[derive(Debug)]
pub struct NegotiatedColorMode {
    pub name: String,
    pub representation: DocumentRepresentation,
}

/// The colour modes that serve a pixel layout, best first.
pub open spec fn preferred_modes(format: PixelFormat) -> (
    DocumentRepresentation,
    DocumentRepresentation,
) {
    if format == PixelFormat::Gray8 {
        (DocumentRepresentation::Grayscale8, DocumentRepresentation::BlackAndWhite1)
    } else {
        (DocumentRepresentation::Rgb24, DocumentRepresentation::Rgb48)
    }
}

/// The colour mode for a request, as the scanner spells it, and its representation.
pub open spec fn color_choice(request: Request, source: SourceCaps) -> Result<
    (Seq<char>, DocumentRepresentation),
    Failure,
> {
    let (best, second) = preferred_modes(request.pixel_format);
    if source.color_modes.len() == 0 {
        Ok((best.spec_name(), best))
    } else {
        match first_like(source.color_modes, best.spec_name()) {
            Some(name) => Ok((name, best)),
            None => match first_like(source.color_modes, second.spec_name()) {
                Some(name) => Ok((name, second)),
                None => Err(
                    Failure::Unsupported(
                        "scanner does not advertise a compatible color mode for "@
                            + request.pixel_format.spec_name(),
                    ),
                ),
            },
        }
    }
}

/// The colour mode for a request.
pub fn select_color_mode(request: &ScanRequest, source: &SourceCapabilities) -> (r: Result<
    NegotiatedColorMode,
    ScanError,
>)
    ensures
        match r {
            Ok(mode) => color_choice(request@, source@) == Ok::<
                (Seq<char>, DocumentRepresentation),
                Failure,
            >((mode.name@, mode.representation)),
            Err(error) => color_choice(request@, source@) == Err::<
                (Seq<char>, DocumentRepresentation),
                Failure,
            >(error@),
        },
{
    let (best, second) = if request.pixel_format == PixelFormat::Gray8 {
        (DocumentRepresentation::Grayscale8, DocumentRepresentation::BlackAndWhite1)
    } else {
        (DocumentRepresentation::Rgb24, DocumentRepresentation::Rgb48)
    };
    assert(source@.color_modes.len() == source.color_modes@.len());
    if source.color_modes.len() == 0 {
        return Ok(NegotiatedColorMode { name: best.name().to_owned(), representation: best });
    }
    match find_like(&source.color_modes, best.name()) {
        Some(name) => {
            return Ok(NegotiatedColorMode { name, representation: best });
        },
        None => {},
    }
    match find_like(&source.color_modes, second.name()) {
        Some(name) => Ok(NegotiatedColorMode { name, representation: second }),
        None => Err(
            ScanError::Unsupported(
                joined(
                    "scanner does not advertise a compatible color mode for ",
                    request.pixel_format.as_str(),
                ),
            ),
        ),
    }
}

/// The format for a document: the first of PNG, JPEG and TIFF that the scanner advertises.
pub open spec fn format_choice(source: SourceCaps) -> Result<Seq<char>, Failure> {
    if source.document_formats.len() == 0 {
        Ok("application/octet-stream"@)
    } else if first_like(source.document_formats, "image/png"@) is Some {
        Ok(first_like(source.document_formats, "image/png"@)->0)
    } else if first_like(source.document_formats, "image/jpeg"@) is Some {
        Ok(first_like(source.document_formats, "image/jpeg"@)->0)
    } else if first_like(source.document_formats, "image/tiff"@) is Some {
        Ok(first_like(source.document_formats, "image/tiff"@)->0)
    } else {
        Err(
            Failure::Unsupported(
                "scanner advertises no decodable raster format (PDF is not a raster image)"@,
            ),
        )
    }
}

/// The format for a document.
pub fn select_document_format(source: &SourceCapabilities) -> (r: Result<String, ScanError>)
    ensures
        outcome_view(r) == format_choice(source@),
{
    assert(source@.document_formats.len() == source.document_formats@.len());
    if source.document_formats.len() == 0 {
        return Ok("application/octet-stream".to_owned());
    }
    match find_like(&source.document_formats, "image/png") {
        Some(name) => {
            return Ok(name);
        },
        None => {},
    }
    match find_like(&source.document_formats, "image/jpeg") {
        Some(name) => {
            return Ok(name);
        },
        None => {},
    }
    match find_like(&source.document_formats, "image/tiff") {
        Some(name) => Ok(name),
        None => Err(
            unsupported(
                "scanner advertises no decodable raster format (PDF is not a raster image)",
            ),
        ),
    }
}

/// The distance of two numbers.
pub open spec fn distance(a: int, b: int) -> int {
    if a > b {
        a - b
    } else {
        b - a
    }
}

/// How far a resolution is from the one that a request asks for.
pub open spec fn resolution_distance(request: Request, pair: (u32, u32)) -> int {
    distance(pair.0 as int, request.dpi_x as int) + distance(pair.1 as int, request.dpi_y as int)
}

/// Whether index `k` is that of the first resolution nearest to the one asked for.
pub open spec fn is_nearest(request: Request, resolutions: Seq<(u32, u32)>, k: int) -> bool {
    &&& 0 <= k < resolutions.len()
    &&& forall|j: int|
        0 <= j < resolutions.len() ==> resolution_distance(request, resolutions[k])
            <= resolution_distance(request, #[trigger] resolutions[j])
    &&& forall|j: int|
        0 <= j < k ==> resolution_distance(request, resolutions[k]) < resolution_distance(
            request,
            #[trigger] resolutions[j],
        )
}

fn gap(a: u32, b: u32) -> (r: u64)
    ensures
        r == distance(a as int, b as int),
{
    if a > b {
        (a - b) as u64
    } else {
        (b - a) as u64
    }
}

/// The resolution for a request: the first nearest one that the scanner advertises, or the one
/// asked for where it advertises none.
pub fn select_resolution(request: &ScanRequest, source: &SourceCapabilities) -> (r: (u32, u32))
    ensures
        source.resolutions@.len() == 0 ==> r == (request.dpi_x, request.dpi_y),
        source.resolutions@.len() > 0 ==> exists|k: int| #[trigger]
            is_nearest(request@, source.resolutions@, k) && r == source.resolutions@[k],
{
    if source.resolutions.len() == 0 {
        return (request.dpi_x, request.dpi_y);
    }
    let mut best: usize = 0;
    let mut best_gap: u64 = gap(source.resolutions[0].0, request.dpi_x) + gap(
        source.resolutions[0].1,
        request.dpi_y,
    );
    let mut i: usize = 1;
    while i < source.resolutions.len()
        invariant
            1 <= i <= source.resolutions@.len(),
            best < i,
            best_gap == resolution_distance(request@, source.resolutions@[best as int]),
            forall|j: int|
                0 <= j < i ==> best_gap <= resolution_distance(
                    request@,
                    #[trigger] source.resolutions@[j],
                ),
            forall|j: int|
                0 <= j < best ==> best_gap < resolution_distance(
                    request@,
                    #[trigger] source.resolutions@[j],
                ),
        decreases source.resolutions@.len() - i,
    {
        let here: u64 = gap(source.resolutions[i].0, request.dpi_x) + gap(
            source.resolutions[i].1,
            request.dpi_y,
        );
        if here < best_gap {
            best = i;
            best_gap = here;
        }
        i += 1;
    }
    assert(is_nearest(request@, source.resolutions@, best as int));
    source.resolutions[best]
}

/// A length of pixels at a resolution in three-hundredths of an inch, rounded, from 1 on.
pub open spec fn three_hundredths(pixels: int, dpi: int) -> int {
    let d = larger(dpi, 1);
    clamped((pixels * 300 + d / 2) / d, 1, u32::MAX as int)
}

/// A length of pixels at a resolution in three-hundredths of an inch.
pub fn pixels_to_three_hundredths(pixels: u32, dpi: u32) -> (r: u32)
    ensures
        r == three_hundredths(pixels as int, dpi as int),
{
    let d: u64 = if dpi > 1 {
        dpi as u64
    } else {
        1
    };
    let units: u64 = (pixels as u64 * 300 + d / 2) / d;
    if units < 1 {
        1
    } else if units > u32::MAX as u64 {
        u32::MAX
    } else {
        units as u32
    }
}

/// A distance from the edge in three-hundredths of an inch.
pub open spec fn offset_units(pixels: int, dpi: int) -> int {
    if pixels == 0 {
        0
    } else {
        three_hundredths(pixels, dpi)
    }
}

/// A distance from the edge in three-hundredths of an inch.
pub fn offset_to_three_hundredths(pixels: u32, dpi: u32) -> (r: u32)
    ensures
        r == offset_units(pixels as int, dpi as int),
{
    if pixels == 0 {
        0
    } else {
        pixels_to_three_hundredths(pixels, dpi)
    }
}

/// The region of a request along one axis, in three-hundredths of an inch: the offset, at most the
/// last unit of the source, and the length, at most what remains.
pub open spec fn axis_units(offset: int, length: int, dpi: int, max: Option<u32>) -> (u32, u32) {
    let end = larger(
        match max {
            Some(limit) => limit as int,
            None => u32::MAX as int,
        },
        1,
    );
    let start = smaller(offset_units(larger(offset, 0), dpi), end - 1);
    let size = smaller(three_hundredths(larger(length, 1), dpi), end - start);
    (start as u32, size as u32)
}

/// The region of a request in three-hundredths of an inch: columns first.
pub open spec fn region_units(request: Request, source: SourceCaps) -> ((u32, u32), (u32, u32)) {
    let region = match request.region {
        Some(region) => region,
        None => Rect {
            x: 0,
            y: 0,
            width: larger(request.width as int, 1) as u32,
            height: larger(request.height as int, 1) as u32,
        },
    };
    (
        axis_units(
            region.x as int,
            region.width as int,
            request.dpi_x as int,
            source.max_width,
        ),
        axis_units(
            region.y as int,
            region.height as int,
            request.dpi_y as int,
            source.max_height,
        ),
    )
}

fn axis(offset: i32, length: u32, dpi: u32, max: Option<u32>) -> (r: (u32, u32))
    ensures
        r == axis_units(offset as int, length as int, dpi as int, max),
{
    let limit: u32 = match max {
        Some(limit) => limit,
        None => u32::MAX,
    };
    let end: u32 = if limit > 1 {
        limit
    } else {
        1
    };
    let from: u32 = if offset > 0 {
        offset as u32
    } else {
        0
    };
    let wanted_start: u32 = offset_to_three_hundredths(from, dpi);
    let start: u32 = if wanted_start < end - 1 {
        wanted_start
    } else {
        end - 1
    };
    let wanted: u32 = pixels_to_three_hundredths(
        if length > 1 {
            length
        } else {
            1
        },
        dpi,
    );
    let size: u32 = if wanted < end - start {
        wanted
    } else {
        end - start
    };
    (start, size)
}

/// The region of a request in three-hundredths of an inch: left, top, width and height.
pub fn region_in_three_hundredths(request: &ScanRequest, source: &SourceCapabilities) -> (r: (
    u32,
    u32,
    u32,
    u32,
))
    ensures
        ({
            let (columns, rows) = region_units(request@, source@);
            r == (columns.0, rows.0, columns.1, rows.1)
        }),
{
    let region = match request.region {
        Some(region) => region,
        None => Rect::new(
            0,
            0,
            if request.width > 1 {
                request.width
            } else {
                1
            },
            if request.height > 1 {
                request.height
            } else {
                1
            },
        ),
    };
    let columns = axis(region.x, region.width, request.dpi_x, source.max_width);
    let rows = axis(region.y, region.height, request.dpi_y, source.max_height);
    (columns.0, rows.0, columns.1, rows.1)
}

/// The region asked for is never empty and stays within what the source can scan.
pub proof fn region_stays_within_source(request: Request, source: SourceCaps)
    ensures
        ({
            let (columns, rows) = region_units(request, source);
            &&& columns.1 >= 1
            &&& rows.1 >= 1
            &&& source.max_width matches Some(limit) ==> limit >= 1 ==> columns.0 + columns.1
                <= limit
            &&& source.max_height matches Some(limit) ==> limit >= 1 ==> rows.0 + rows.1 <= limit
        }),
{
}

// ---------------------------------------------------------------------------
// The settings document
// ---------------------------------------------------------------------------

/// The duplex line of a source.
pub open spec fn duplex_line(source: CapabilitySource) -> Seq<char> {
    match source {
        CapabilitySource::AdfSimplex => "  <scan:Duplex>false</scan:Duplex>\n"@,
        CapabilitySource::AdfDuplex => "  <scan:Duplex>true</scan:Duplex>\n"@,
        CapabilitySource::Platen => ""@,
        CapabilitySource::Film => ""@,
    }
}

/// The settings document.
pub open spec fn settings_text(
    columns: (u32, u32),
    rows: (u32, u32),
    source: CapabilitySource,
    dpi: (u32, u32),
    color: Seq<char>,
    format: Seq<char>,
) -> Seq<char> {
    "<?xml version=\"1.0\" encoding=\"UTF-8\"?>\n<scan:ScanSettings xmlns:scan=\"http://schemas.hp.com/imaging/escl/2011/05/03\" xmlns:pwg=\"http://www.pwg.org/schemas/2010/12/sm\" xmlns:escl=\"http://schemas.hp.com/imaging/escl/2011/05/03\">\n  <pwg:Version>2.0</pwg:Version>\n  <scan:Intent>Document</scan:Intent>\n  <pwg:ScanRegions>\n    <pwg:ScanRegion>\n      <pwg:ContentRegionUnits>escl:ThreeHundredthsOfInches</pwg:ContentRegionUnits>\n      <pwg:XOffset>"@
        + decimal(columns.0 as nat) + "</pwg:XOffset>\n      <pwg:YOffset>"@ + decimal(
        rows.0 as nat,
    ) + "</pwg:YOffset>\n      <pwg:Width>"@ + decimal(columns.1 as nat)
        + "</pwg:Width>\n      <pwg:Height>"@ + decimal(rows.1 as nat)
        + "</pwg:Height>\n    </pwg:ScanRegion>\n  </pwg:ScanRegions>\n  <pwg:InputSource>"@
        + source.spec_input() + "</pwg:InputSource>\n"@ + duplex_line(source)
        + "  <scan:XResolution>"@ + decimal(dpi.0 as nat)
        + "</scan:XResolution>\n  <scan:YResolution>"@ + decimal(dpi.1 as nat)
        + "</scan:YResolution>\n  <scan:ColorMode>"@ + color
        + "</scan:ColorMode>\n  <pwg:DocumentFormat>"@ + format
        + "</pwg:DocumentFormat>\n</scan:ScanSettings>\n"@
}

/// Whether a resolution is the one chosen for a request.
pub open spec fn is_resolution_choice(
    request: Request,
    source: SourceCaps,
    dpi: (u32, u32),
) -> bool {
    if source.resolutions.len() == 0 {
        dpi == (request.dpi_x, request.dpi_y)
    } else {
        exists|k: int| #[trigger]
            is_nearest(request, source.resolutions, k) && dpi == source.resolutions[k]
    }
}

/// What is chosen for a request before its settings are written: the source, the colour mode with
/// its representation, and the format; or the first refusal, with that of the resolution before all.
pub open spec fn negotiated(request: Request, caps: Caps) -> Result<
    (SourceCaps, Seq<char>, DocumentRepresentation, Seq<char>),
    Failure,
> {
    if request.dpi_x < 50 || request.dpi_y < 50 {
        Err(low_resolution())
    } else {
        match source_choice(request, caps) {
            Err(failure) => Err(failure),
            Ok(source) => match color_choice(request, source) {
                Err(failure) => Err(failure),
                Ok((color, representation)) => match format_choice(source) {
                    Err(failure) => Err(failure),
                    Ok(format) => Ok((source, color, representation, format)),
                },
            },
        }
    }
}

/// Whether bytes are the settings document for what was chosen.
pub open spec fn is_settings(
    request: Request,
    source: SourceCaps,
    color: Seq<char>,
    format: Seq<char>,
    bytes: Seq<u8>,
) -> bool {
    exists|dpi: (u32, u32)| #[trigger]
        is_resolution_choice(request, source, dpi) && bytes == encode_utf8(
            settings_text(
                region_units(request, source).0,
                region_units(request, source).1,
                source.source->0,
                dpi,
                color,
                format,
            ),
        )
}

/// Writes the settings document for a request, and tells how the pixels will be stored.
pub fn build_settings(request: &ScanRequest, capabilities: &ScannerCapabilities) -> (r: Result<
    (Vec<u8>, DocumentRepresentation),
    ScanError,
>)
    ensures
        match r {
            Ok((bytes, representation)) => negotiated(request@, capabilities@) matches Ok(chosen)
                && representation == chosen.2 && is_settings(
                request@,
                chosen.0,
                chosen.1,
                chosen.3,
                bytes@,
            ),
            Err(error) => negotiated(request@, capabilities@) == Err::<
                (SourceCaps, Seq<char>, DocumentRepresentation, Seq<char>),
                Failure,
            >(error@),
        },
{
    match validate_scan_dpi(request.dpi_x, request.dpi_y) {
        Ok(()) => {},
        Err(error) => {
            return Err(error);
        },
    }
    let source = match select_source(request, capabilities) {
        Ok(source) => source,
        Err(error) => {
            return Err(error);
        },
    };
    let color = match select_color_mode(request, &source) {
        Ok(color) => color,
        Err(error) => {
            return Err(error);
        },
    };
    let format = match select_document_format(&source) {
        Ok(format) => format,
        Err(error) => {
            return Err(error);
        },
    };
    let selected = match source.source {
        Some(selected) => selected,
        None => CapabilitySource::Platen,
    };
    let duplex = match selected {
        CapabilitySource::AdfSimplex => "  <scan:Duplex>false</scan:Duplex>\n",
        CapabilitySource::AdfDuplex => "  <scan:Duplex>true</scan:Duplex>\n",
        CapabilitySource::Platen => "",
        CapabilitySource::Film => "",
    };
    let dpi = select_resolution(request, &source);
    // The region is in pixels at the requested resolution, whatever the scanner acquires at.
    let (x, y, width, height) = region_in_three_hundredths(request, &source);
    let mut text =
        "<?xml version=\"1.0\" encoding=\"UTF-8\"?>\n<scan:ScanSettings xmlns:scan=\"http://schemas.hp.com/imaging/escl/2011/05/03\" xmlns:pwg=\"http://www.pwg.org/schemas/2010/12/sm\" xmlns:escl=\"http://schemas.hp.com/imaging/escl/2011/05/03\">\n  <pwg:Version>2.0</pwg:Version>\n  <scan:Intent>Document</scan:Intent>\n  <pwg:ScanRegions>\n    <pwg:ScanRegion>\n      <pwg:ContentRegionUnits>escl:ThreeHundredthsOfInches</pwg:ContentRegionUnits>\n      <pwg:XOffset>".to_owned();
    push_decimal(&mut text, x as u64);
    text.append("</pwg:XOffset>\n      <pwg:YOffset>");
    push_decimal(&mut text, y as u64);
    text.append("</pwg:YOffset>\n      <pwg:Width>");
    push_decimal(&mut text, width as u64);
    text.append("</pwg:Width>\n      <pwg:Height>");
    push_decimal(&mut text, height as u64);
    text.append("</pwg:Height>\n    </pwg:ScanRegion>\n  </pwg:ScanRegions>\n  <pwg:InputSource>");
    text.append(selected.input_source());
    text.append("</pwg:InputSource>\n");
    text.append(duplex);
    text.append("  <scan:XResolution>");
    push_decimal(&mut text, dpi.0 as u64);
    text.append("</scan:XResolution>\n  <scan:YResolution>");
    push_decimal(&mut text, dpi.1 as u64);
    text.append("</scan:YResolution>\n  <scan:ColorMode>");
    text.append(color.name.as_str());
    text.append("</scan:ColorMode>\n  <pwg:DocumentFormat>");
    text.append(format.as_str());
    text.append("</pwg:DocumentFormat>\n</scan:ScanSettings>\n");
    proof {
        assert(is_resolution_choice(request@, source@, dpi));
        assert(text@ == settings_text(
            region_units(request@, source@).0,
            region_units(request@, source@).1,
            selected,
            dpi,
            color.name@,
            format@,
        ));
    }
    Ok((text.as_str().as_bytes_vec(), color.representation))
}

/// A refused duplex request is answered as such, whatever the scanner offers: duplex is for document
/// feeders.
pub proof fn duplex_needs_a_document_source(request: Request, caps: Caps)
    requires
        request.duplex,
        request.mode != ScanMode::Document,
    ensures
        negotiated(request, caps) is Err,
        request.dpi_x >= 50 && request.dpi_y >= 50 ==> negotiated(request, caps)->Err_0
            is Unsupported,
{
}

// ---------------------------------------------------------------------------
// What the settings document says
// ---------------------------------------------------------------------------

/// Whether a document says a value in an element.
pub open spec fn says(text: Seq<char>, tag: Seq<char>, value: Seq<char>) -> bool {
    contains_text(text, "<"@ + tag + ">"@ + value + "</"@ + tag + ">"@)
}

proof fn lemma_contains_longer(s: Seq<char>, t: Seq<char>, p: Seq<char>)
    requires
        contains_text(s, p),
    ensures
        contains_text(s + t, p),
{
    let i = choose|i: int|
        0 <= i <= s.len() - p.len() && #[trigger] s.subrange(i, i + p.len()) == p;
    assert((s + t).subrange(i, i + p.len()) =~= p);
}

/// A value between the opening tag at the end of a text and the closing tag at the start of another
/// is said.
proof fn lemma_says(
    head: Seq<char>,
    before: Seq<char>,
    value: Seq<char>,
    after: Seq<char>,
    tag: Seq<char>,
)
    requires
        before.len() >= tag.len() + 2,
        before.skip(before.len() - tag.len() - 2) == "<"@ + tag + ">"@,
        after.len() >= tag.len() + 3,
        after.take(tag.len() + 3int) == "</"@ + tag + ">"@,
        "<"@.len() == 1,
        ">"@.len() == 1,
        "</"@.len() == 2,
    ensures
        says(head + before + value + after, tag, value),
{
    let text = head + before + value + after;
    let opening = "<"@ + tag + ">"@;
    let closing = "</"@ + tag + ">"@;
    let element = "<"@ + tag + ">"@ + value + "</"@ + tag + ">"@;
    let i = head.len() + before.len() - opening.len();
    assert(element =~= opening + value + closing);
    assert(text.subrange(i, i + element.len()) =~= element) by {
        assert forall|k: int| 0 <= k < element.len() implies text[i + k] == element[k] by {
            if k < opening.len() {
                assert(before.skip(before.len() - tag.len() - 2)[k] == opening[k]);
            } else if k >= opening.len() + value.len() {
                let j = k - opening.len() - value.len();
                assert(after.take(tag.len() + 3int)[j] == closing[j]);
            }
        }
    }
}

/// Whether every `x` of a text is followed by two characters, and not by `>` and a given one: of the
/// letters of the settings document, only the tags of the duplex element end in `x`.
spec fn never_after_duplex(s: Seq<char>, c: char) -> bool {
    forall|i: int|
        0 <= i < s.len() && #[trigger] s[i] == 'x' ==> i + 2 < s.len() && !(s[i + 1] == '>' && s[i
            + 2] == c)
}

proof fn lemma_never_joined(a: Seq<char>, b: Seq<char>, c: char)
    requires
        never_after_duplex(a, c),
        never_after_duplex(b, c),
    ensures
        never_after_duplex(a + b, c),
{
    let s = a + b;
    assert forall|i: int| 0 <= i < s.len() && #[trigger] s[i] == 'x' implies i + 2 < s.len() && !(
    s[i + 1] == '>' && s[i + 2] == c) by {
        if i < a.len() {
            assert(a[i] == 'x');
            assert(s[i + 1] == a[i + 1] && s[i + 2] == a[i + 2]);
        } else {
            let j = i - a.len();
            assert(b[j] == 'x');
            assert(s[i + 1] == b[j + 1] && s[i + 2] == b[j + 2]);
        }
    }
}

proof fn lemma_digits_have_no_x(n: nat, c: char)
    ensures
        never_after_duplex(decimal(n), c),
{
    crate::text::lemma_decimal(n);
    assert forall|i: int| 0 <= i < decimal(n).len() implies #[trigger] decimal(n)[i] != 'x' by {
        assert(is_digit(decimal(n)[i]));
    }
}

/// A text that equals one without the letter x but for case has none either.
proof fn lemma_like_has_no_x(name: Seq<char>, like: Seq<char>, c: char)
    requires
        same_letters(name, like),
        forall|i: int| 0 <= i < like.len() ==> #[trigger] like[i] != 'x' && like[i] != 'X',
    ensures
        never_after_duplex(name, c),
{
    assert(lower_all(name).len() == name.len() && lower_all(like).len() == like.len());
    assert forall|i: int| 0 <= i < name.len() implies #[trigger] name[i] != 'x' by {
        assert(lower_all(name)[i] == lower(name[i]));
        assert(lower_all(like)[i] == lower(like[i]));
    }
}

/// Every value of the settings document stands in its element.
#[verifier::spinoff_prover]
#[verifier::rlimit(80)]
proof fn lemma_settings_say(
    columns: (u32, u32),
    rows: (u32, u32),
    source: CapabilitySource,
    dpi: (u32, u32),
    color: Seq<char>,
    format: Seq<char>,
)
    ensures
        ({
            let text = settings_text(columns, rows, source, dpi, color, format);
            &&& says(text, "pwg:XOffset"@, decimal(columns.0 as nat))
            &&& says(text, "pwg:YOffset"@, decimal(rows.0 as nat))
            &&& says(text, "pwg:Width"@, decimal(columns.1 as nat))
            &&& says(text, "pwg:Height"@, decimal(rows.1 as nat))
            &&& says(text, "pwg:InputSource"@, source.spec_input())
            &&& says(text, "scan:XResolution"@, decimal(dpi.0 as nat))
            &&& says(text, "scan:YResolution"@, decimal(dpi.1 as nat))
            &&& says(text, "scan:ColorMode"@, color)
            &&& says(text, "pwg:DocumentFormat"@, format)
        }),
{
    reveal_strlit("<");
    reveal_strlit(">");
    reveal_strlit("</");
    reveal_strlit("<?xml version=\"1.0\" encoding=\"UTF-8\"?>\n<scan:ScanSettings xmlns:scan=\"http://schemas.hp.com/imaging/escl/2011/05/03\" xmlns:pwg=\"http://www.pwg.org/schemas/2010/12/sm\" xmlns:escl=\"http://schemas.hp.com/imaging/escl/2011/05/03\">\n  <pwg:Version>2.0</pwg:Version>\n  <scan:Intent>Document</scan:Intent>\n  <pwg:ScanRegions>\n    <pwg:ScanRegion>\n      <pwg:ContentRegionUnits>escl:ThreeHundredthsOfInches</pwg:ContentRegionUnits>\n      <pwg:XOffset>");
    reveal_strlit("</pwg:XOffset>\n      <pwg:YOffset>");
    reveal_strlit("</pwg:YOffset>\n      <pwg:Width>");
    reveal_strlit("</pwg:Width>\n      <pwg:Height>");
    reveal_strlit("</pwg:Height>\n    </pwg:ScanRegion>\n  </pwg:ScanRegions>\n  <pwg:InputSource>");
    reveal_strlit("</pwg:InputSource>\n");
    reveal_strlit("  <scan:XResolution>");
    reveal_strlit("</scan:XResolution>\n  <scan:YResolution>");
    reveal_strlit("</scan:YResolution>\n  <scan:ColorMode>");
    reveal_strlit("</scan:ColorMode>\n  <pwg:DocumentFormat>");
    reveal_strlit("</pwg:DocumentFormat>\n</scan:ScanSettings>\n");
    reveal_strlit("pwg:XOffset");
    reveal_strlit("pwg:YOffset");
    reveal_strlit("pwg:Width");
    reveal_strlit("pwg:Height");
    reveal_strlit("pwg:InputSource");
    reveal_strlit("scan:XResolution");
    reveal_strlit("scan:YResolution");
    reveal_strlit("scan:ColorMode");
    reveal_strlit("pwg:DocumentFormat");
    let l0 = "<?xml version=\"1.0\" encoding=\"UTF-8\"?>\n<scan:ScanSettings xmlns:scan=\"http://schemas.hp.com/imaging/escl/2011/05/03\" xmlns:pwg=\"http://www.pwg.org/schemas/2010/12/sm\" xmlns:escl=\"http://schemas.hp.com/imaging/escl/2011/05/03\">\n  <pwg:Version>2.0</pwg:Version>\n  <scan:Intent>Document</scan:Intent>\n  <pwg:ScanRegions>\n    <pwg:ScanRegion>\n      <pwg:ContentRegionUnits>escl:ThreeHundredthsOfInches</pwg:ContentRegionUnits>\n      <pwg:XOffset>"@;
    let l2 = "</pwg:XOffset>\n      <pwg:YOffset>"@;
    let l4 = "</pwg:YOffset>\n      <pwg:Width>"@;
    let l6 = "</pwg:Width>\n      <pwg:Height>"@;
    let l8 = "</pwg:Height>\n    </pwg:ScanRegion>\n  </pwg:ScanRegions>\n  <pwg:InputSource>"@;
    let l10 = "</pwg:InputSource>\n"@;
    let l12 = "  <scan:XResolution>"@;
    let l14 = "</scan:XResolution>\n  <scan:YResolution>"@;
    let l16 = "</scan:YResolution>\n  <scan:ColorMode>"@;
    let l18 = "</scan:ColorMode>\n  <pwg:DocumentFormat>"@;
    let l20 = "</pwg:DocumentFormat>\n</scan:ScanSettings>\n"@;
    let t0 = Seq::<char>::empty();
    let t1 = l0;
    assert(t0 + t1 =~= t1);
    let t2 = t1 + decimal(columns.0 as nat);
    let t3 = t2 + l2;
    let t4 = t3 + decimal(rows.0 as nat);
    let t5 = t4 + l4;
    let t6 = t5 + decimal(columns.1 as nat);
    let t7 = t6 + l6;
    let t8 = t7 + decimal(rows.1 as nat);
    let t9 = t8 + l8;
    let t10 = t9 + source.spec_input();
    let t11 = t10 + l10;
    let t12 = t11 + duplex_line(source);
    let t13 = t12 + l12;
    let t14 = t13 + decimal(dpi.0 as nat);
    let t15 = t14 + l14;
    let t16 = t15 + decimal(dpi.1 as nat);
    let t17 = t16 + l16;
    let t18 = t17 + color;
    let t19 = t18 + l18;
    let t20 = t19 + format;
    let t21 = t20 + l20;
    assert(t21 == settings_text(columns, rows, source, dpi, color, format));
    assert(l0.skip(l0.len() - "pwg:XOffset"@.len() - 2) =~= "<"@ + "pwg:XOffset"@ + ">"@);
    assert(l2.take("pwg:XOffset"@.len() + 3int) =~= "</"@ + "pwg:XOffset"@ + ">"@);
    lemma_says(t0, l0, decimal(columns.0 as nat), l2, "pwg:XOffset"@);
    let e0 = "<"@ + "pwg:XOffset"@ + ">"@ + decimal(columns.0 as nat) + "</"@ + "pwg:XOffset"@ + ">"@;
    assert(contains_text(t3, e0));
    lemma_contains_longer(t3, decimal(rows.0 as nat), e0);
    lemma_contains_longer(t4, l4, e0);
    lemma_contains_longer(t5, decimal(columns.1 as nat), e0);
    lemma_contains_longer(t6, l6, e0);
    lemma_contains_longer(t7, decimal(rows.1 as nat), e0);
    lemma_contains_longer(t8, l8, e0);
    lemma_contains_longer(t9, source.spec_input(), e0);
    lemma_contains_longer(t10, l10, e0);
    lemma_contains_longer(t11, duplex_line(source), e0);
    lemma_contains_longer(t12, l12, e0);
    lemma_contains_longer(t13, decimal(dpi.0 as nat), e0);
    lemma_contains_longer(t14, l14, e0);
    lemma_contains_longer(t15, decimal(dpi.1 as nat), e0);
    lemma_contains_longer(t16, l16, e0);
    lemma_contains_longer(t17, color, e0);
    lemma_contains_longer(t18, l18, e0);
    lemma_contains_longer(t19, format, e0);
    lemma_contains_longer(t20, l20, e0);
    assert(l2.skip(l2.len() - "pwg:YOffset"@.len() - 2) =~= "<"@ + "pwg:YOffset"@ + ">"@);
    assert(l4.take("pwg:YOffset"@.len() + 3int) =~= "</"@ + "pwg:YOffset"@ + ">"@);
    lemma_says(t2, l2, decimal(rows.0 as nat), l4, "pwg:YOffset"@);
    let e2 = "<"@ + "pwg:YOffset"@ + ">"@ + decimal(rows.0 as nat) + "</"@ + "pwg:YOffset"@ + ">"@;
    assert(contains_text(t5, e2));
    lemma_contains_longer(t5, decimal(columns.1 as nat), e2);
    lemma_contains_longer(t6, l6, e2);
    lemma_contains_longer(t7, decimal(rows.1 as nat), e2);
    lemma_contains_longer(t8, l8, e2);
    lemma_contains_longer(t9, source.spec_input(), e2);
    lemma_contains_longer(t10, l10, e2);
    lemma_contains_longer(t11, duplex_line(source), e2);
    lemma_contains_longer(t12, l12, e2);
    lemma_contains_longer(t13, decimal(dpi.0 as nat), e2);
    lemma_contains_longer(t14, l14, e2);
    lemma_contains_longer(t15, decimal(dpi.1 as nat), e2);
    lemma_contains_longer(t16, l16, e2);
    lemma_contains_longer(t17, color, e2);
    lemma_contains_longer(t18, l18, e2);
    lemma_contains_longer(t19, format, e2);
    lemma_contains_longer(t20, l20, e2);
    assert(l4.skip(l4.len() - "pwg:Width"@.len() - 2) =~= "<"@ + "pwg:Width"@ + ">"@);
    assert(l6.take("pwg:Width"@.len() + 3int) =~= "</"@ + "pwg:Width"@ + ">"@);
    lemma_says(t4, l4, decimal(columns.1 as nat), l6, "pwg:Width"@);
    let e4 = "<"@ + "pwg:Width"@ + ">"@ + decimal(columns.1 as nat) + "</"@ + "pwg:Width"@ + ">"@;
    assert(contains_text(t7, e4));
    lemma_contains_longer(t7, decimal(rows.1 as nat), e4);
    lemma_contains_longer(t8, l8, e4);
    lemma_contains_longer(t9, source.spec_input(), e4);
    lemma_contains_longer(t10, l10, e4);
    lemma_contains_longer(t11, duplex_line(source), e4);
    lemma_contains_longer(t12, l12, e4);
    lemma_contains_longer(t13, decimal(dpi.0 as nat), e4);
    lemma_contains_longer(t14, l14, e4);
    lemma_contains_longer(t15, decimal(dpi.1 as nat), e4);
    lemma_contains_longer(t16, l16, e4);
    lemma_contains_longer(t17, color, e4);
    lemma_contains_longer(t18, l18, e4);
    lemma_contains_longer(t19, format, e4);
    lemma_contains_longer(t20, l20, e4);
    assert(l6.skip(l6.len() - "pwg:Height"@.len() - 2) =~= "<"@ + "pwg:Height"@ + ">"@);
    assert(l8.take("pwg:Height"@.len() + 3int) =~= "</"@ + "pwg:Height"@ + ">"@);
    lemma_says(t6, l6, decimal(rows.1 as nat), l8, "pwg:Height"@);
    let e6 = "<"@ + "pwg:Height"@ + ">"@ + decimal(rows.1 as nat) + "</"@ + "pwg:Height"@ + ">"@;
    assert(contains_text(t9, e6));
    lemma_contains_longer(t9, source.spec_input(), e6);
    lemma_contains_longer(t10, l10, e6);
    lemma_contains_longer(t11, duplex_line(source), e6);
    lemma_contains_longer(t12, l12, e6);
    lemma_contains_longer(t13, decimal(dpi.0 as nat), e6);
    lemma_contains_longer(t14, l14, e6);
    lemma_contains_longer(t15, decimal(dpi.1 as nat), e6);
    lemma_contains_longer(t16, l16, e6);
    lemma_contains_longer(t17, color, e6);
    lemma_contains_longer(t18, l18, e6);
    lemma_contains_longer(t19, format, e6);
    lemma_contains_longer(t20, l20, e6);
    assert(l8.skip(l8.len() - "pwg:InputSource"@.len() - 2) =~= "<"@ + "pwg:InputSource"@ + ">"@);
    assert(l10.take("pwg:InputSource"@.len() + 3int) =~= "</"@ + "pwg:InputSource"@ + ">"@);
    lemma_says(t8, l8, source.spec_input(), l10, "pwg:InputSource"@);
    let e8 = "<"@ + "pwg:InputSource"@ + ">"@ + source.spec_input() + "</"@ + "pwg:InputSource"@ + ">"@;
    assert(contains_text(t11, e8));
    lemma_contains_longer(t11, duplex_line(source), e8);
    lemma_contains_longer(t12, l12, e8);
    lemma_contains_longer(t13, decimal(dpi.0 as nat), e8);
    lemma_contains_longer(t14, l14, e8);
    lemma_contains_longer(t15, decimal(dpi.1 as nat), e8);
    lemma_contains_longer(t16, l16, e8);
    lemma_contains_longer(t17, color, e8);
    lemma_contains_longer(t18, l18, e8);
    lemma_contains_longer(t19, format, e8);
    lemma_contains_longer(t20, l20, e8);
    assert(l12.skip(l12.len() - "scan:XResolution"@.len() - 2) =~= "<"@ + "scan:XResolution"@ + ">"@);
    assert(l14.take("scan:XResolution"@.len() + 3int) =~= "</"@ + "scan:XResolution"@ + ">"@);
    lemma_says(t12, l12, decimal(dpi.0 as nat), l14, "scan:XResolution"@);
    let e12 = "<"@ + "scan:XResolution"@ + ">"@ + decimal(dpi.0 as nat) + "</"@ + "scan:XResolution"@ + ">"@;
    assert(contains_text(t15, e12));
    lemma_contains_longer(t15, decimal(dpi.1 as nat), e12);
    lemma_contains_longer(t16, l16, e12);
    lemma_contains_longer(t17, color, e12);
    lemma_contains_longer(t18, l18, e12);
    lemma_contains_longer(t19, format, e12);
    lemma_contains_longer(t20, l20, e12);
    assert(l14.skip(l14.len() - "scan:YResolution"@.len() - 2) =~= "<"@ + "scan:YResolution"@ + ">"@);
    assert(l16.take("scan:YResolution"@.len() + 3int) =~= "</"@ + "scan:YResolution"@ + ">"@);
    lemma_says(t14, l14, decimal(dpi.1 as nat), l16, "scan:YResolution"@);
    let e14 = "<"@ + "scan:YResolution"@ + ">"@ + decimal(dpi.1 as nat) + "</"@ + "scan:YResolution"@ + ">"@;
    assert(contains_text(t17, e14));
    lemma_contains_longer(t17, color, e14);
    lemma_contains_longer(t18, l18, e14);
    lemma_contains_longer(t19, format, e14);
    lemma_contains_longer(t20, l20, e14);
    assert(l16.skip(l16.len() - "scan:ColorMode"@.len() - 2) =~= "<"@ + "scan:ColorMode"@ + ">"@);
    assert(l18.take("scan:ColorMode"@.len() + 3int) =~= "</"@ + "scan:ColorMode"@ + ">"@);
    lemma_says(t16, l16, color, l18, "scan:ColorMode"@);
    let e16 = "<"@ + "scan:ColorMode"@ + ">"@ + color + "</"@ + "scan:ColorMode"@ + ">"@;
    assert(contains_text(t19, e16));
    lemma_contains_longer(t19, format, e16);
    lemma_contains_longer(t20, l20, e16);
    assert(l18.skip(l18.len() - "pwg:DocumentFormat"@.len() - 2) =~= "<"@ + "pwg:DocumentFormat"@ + ">"@);
    assert(l20.take("pwg:DocumentFormat"@.len() + 3int) =~= "</"@ + "pwg:DocumentFormat"@ + ">"@);
    lemma_says(t18, l18, format, l20, "pwg:DocumentFormat"@);
    let e18 = "<"@ + "pwg:DocumentFormat"@ + ">"@ + format + "</"@ + "pwg:DocumentFormat"@ + ">"@;
    assert(contains_text(t21, e18));
}

/// Behind the tags of the duplex element a character stands only where the duplex line has it.
#[verifier::spinoff_prover]
#[verifier::rlimit(80)]
proof fn lemma_settings_duplex(
    columns: (u32, u32),
    rows: (u32, u32),
    source: CapabilitySource,
    dpi: (u32, u32),
    color: Seq<char>,
    format: Seq<char>,
    c: char,
)
    requires
        never_after_duplex(duplex_line(source), c),
        never_after_duplex(color, c),
        never_after_duplex(format, c),
    ensures
        never_after_duplex(settings_text(columns, rows, source, dpi, color, format), c),
{
    reveal_strlit("Platen");
    reveal_strlit("Feeder");
    reveal_strlit("Transparency");
    assert(never_after_duplex(source.spec_input(), c));
    let l0 = "<?xml version=\"1.0\" encoding=\"UTF-8\"?>\n<scan:ScanSettings xmlns:scan=\"http://schemas.hp.com/imaging/escl/2011/05/03\" xmlns:pwg=\"http://www.pwg.org/schemas/2010/12/sm\" xmlns:escl=\"http://schemas.hp.com/imaging/escl/2011/05/03\">\n  <pwg:Version>2.0</pwg:Version>\n  <scan:Intent>Document</scan:Intent>\n  <pwg:ScanRegions>\n    <pwg:ScanRegion>\n      <pwg:ContentRegionUnits>escl:ThreeHundredthsOfInches</pwg:ContentRegionUnits>\n      <pwg:XOffset>"@;
    assert(never_after_duplex(l0, c)) by {
        reveal_strlit("<?xml version=\"1.0\" encoding=\"UTF-8\"?>\n<scan:ScanSettings xmlns:scan=\"http://schemas.hp.com/imaging/escl/2011/05/03\" xmlns:pwg=\"http://www.pwg.org/schemas/2010/12/sm\" xmlns:escl=\"http://schemas.hp.com/imaging/escl/2011/05/03\">\n  <pwg:Version>2.0</pwg:Version>\n  <scan:Intent>Document</scan:Intent>\n  <pwg:ScanRegions>\n    <pwg:ScanRegion>\n      <pwg:ContentRegionUnits>escl:ThreeHundredthsOfInches</pwg:ContentRegionUnits>\n      <pwg:XOffset>");
    }
    let l2 = "</pwg:XOffset>\n      <pwg:YOffset>"@;
    assert(never_after_duplex(l2, c)) by {
        reveal_strlit("</pwg:XOffset>\n      <pwg:YOffset>");
    }
    let l4 = "</pwg:YOffset>\n      <pwg:Width>"@;
    assert(never_after_duplex(l4, c)) by {
        reveal_strlit("</pwg:YOffset>\n      <pwg:Width>");
    }
    let l6 = "</pwg:Width>\n      <pwg:Height>"@;
    assert(never_after_duplex(l6, c)) by {
        reveal_strlit("</pwg:Width>\n      <pwg:Height>");
    }
    let l8 = "</pwg:Height>\n    </pwg:ScanRegion>\n  </pwg:ScanRegions>\n  <pwg:InputSource>"@;
    assert(never_after_duplex(l8, c)) by {
        reveal_strlit("</pwg:Height>\n    </pwg:ScanRegion>\n  </pwg:ScanRegions>\n  <pwg:InputSource>");
    }
    let l10 = "</pwg:InputSource>\n"@;
    assert(never_after_duplex(l10, c)) by {
        reveal_strlit("</pwg:InputSource>\n");
    }
    let l12 = "  <scan:XResolution>"@;
    assert(never_after_duplex(l12, c)) by {
        reveal_strlit("  <scan:XResolution>");
    }
    let l14 = "</scan:XResolution>\n  <scan:YResolution>"@;
    assert(never_after_duplex(l14, c)) by {
        reveal_strlit("</scan:XResolution>\n  <scan:YResolution>");
    }
    let l16 = "</scan:YResolution>\n  <scan:ColorMode>"@;
    assert(never_after_duplex(l16, c)) by {
        reveal_strlit("</scan:YResolution>\n  <scan:ColorMode>");
    }
    let l18 = "</scan:ColorMode>\n  <pwg:DocumentFormat>"@;
    assert(never_after_duplex(l18, c)) by {
        reveal_strlit("</scan:ColorMode>\n  <pwg:DocumentFormat>");
    }
    let l20 = "</pwg:DocumentFormat>\n</scan:ScanSettings>\n"@;
    assert(never_after_duplex(l20, c)) by {
        reveal_strlit("</pwg:DocumentFormat>\n</scan:ScanSettings>\n");
    }
    lemma_digits_have_no_x(columns.0 as nat, c);
    lemma_digits_have_no_x(rows.0 as nat, c);
    lemma_digits_have_no_x(columns.1 as nat, c);
    lemma_digits_have_no_x(rows.1 as nat, c);
    lemma_digits_have_no_x(dpi.0 as nat, c);
    lemma_digits_have_no_x(dpi.1 as nat, c);
    let t1 = l0;
    let t2 = t1 + decimal(columns.0 as nat);
    lemma_never_joined(t1, decimal(columns.0 as nat), c);
    let t3 = t2 + l2;
    lemma_never_joined(t2, l2, c);
    let t4 = t3 + decimal(rows.0 as nat);
    lemma_never_joined(t3, decimal(rows.0 as nat), c);
    let t5 = t4 + l4;
    lemma_never_joined(t4, l4, c);
    let t6 = t5 + decimal(columns.1 as nat);
    lemma_never_joined(t5, decimal(columns.1 as nat), c);
    let t7 = t6 + l6;
    lemma_never_joined(t6, l6, c);
    let t8 = t7 + decimal(rows.1 as nat);
    lemma_never_joined(t7, decimal(rows.1 as nat), c);
    let t9 = t8 + l8;
    lemma_never_joined(t8, l8, c);
    let t10 = t9 + source.spec_input();
    lemma_never_joined(t9, source.spec_input(), c);
    let t11 = t10 + l10;
    lemma_never_joined(t10, l10, c);
    let t12 = t11 + duplex_line(source);
    lemma_never_joined(t11, duplex_line(source), c);
    let t13 = t12 + l12;
    lemma_never_joined(t12, l12, c);
    let t14 = t13 + decimal(dpi.0 as nat);
    lemma_never_joined(t13, decimal(dpi.0 as nat), c);
    let t15 = t14 + l14;
    lemma_never_joined(t14, l14, c);
    let t16 = t15 + decimal(dpi.1 as nat);
    lemma_never_joined(t15, decimal(dpi.1 as nat), c);
    let t17 = t16 + l16;
    lemma_never_joined(t16, l16, c);
    let t18 = t17 + color;
    lemma_never_joined(t17, color, c);
    let t19 = t18 + l18;
    lemma_never_joined(t18, l18, c);
    let t20 = t19 + format;
    lemma_never_joined(t19, format, c);
    let t21 = t20 + l20;
    lemma_never_joined(t20, l20, c);
    assert(t21 == settings_text(columns, rows, source, dpi, color, format));
}

/// Text in which nothing of the kind follows the tags of a duplex element holds no such element.
proof fn lemma_no_duplex(text: Seq<char>, value: Seq<char>)
    requires
        value.len() > 0,
        never_after_duplex(text, value[0]),
    ensures
        !contains_text(text, "<scan:Duplex>"@ + value),
{
    reveal_strlit("<scan:Duplex>");
    let p = "<scan:Duplex>"@ + value;
    if contains_text(text, p) {
        let i = choose|i: int|
            0 <= i <= text.len() - p.len() && #[trigger] text.subrange(i, i + p.len()) == p;
        let s = text.subrange(i, i + p.len());
        assert(s[11] == 'x' && s[12] == '>' && s[13] == value[0]);
        assert(text[i + 11] == 'x');
    }
}

/// Whether a number of three-hundredths of an inch is the nearest to so many pixels at a resolution.
pub open spec fn is_nearest_length(units: int, pixels: int, dpi: int) -> bool {
    distance(600 * pixels, 2 * (units * dpi)) <= dpi
}

/// Whether an offset and a length are those of so many pixels along one axis: the nearest numbers of
/// three-hundredths of an inch, at least one for what is not nothing, and cut where the scanner's axis
/// ends.
pub open spec fn is_axis(
    start: int,
    size: int,
    offset: int,
    length: int,
    dpi: int,
    max: Option<u32>,
) -> bool {
    let end = match max {
        Some(limit) => larger(limit as int, 1),
        None => u32::MAX as int,
    };
    &&& 0 <= start
    &&& 1 <= size
    &&& start + size <= end
    &&& offset <= 0 ==> start == 0
    &&& offset > 0 && 1 < start < end - 1 ==> is_nearest_length(start, offset, dpi)
    &&& length >= 1 && 1 < size < end - start ==> is_nearest_length(size, length, dpi)
    &&& offset > 0 && start <= 1 && end > 2 ==> 600 * offset <= 3 * dpi
    &&& length > 1 && size == 1 && end - start > 1 ==> 600 * length <= 3 * dpi
    &&& offset > 0 && end > 2 && start == end - 1 ==> 600 * offset + dpi >= 2 * ((end - 1) * dpi)
    &&& size == end - start ==> 600 * larger(length, 1) + dpi >= 2 * (size * dpi) || size == 1
}

proof fn lemma_nearest_length(pixels: int, dpi: int)
    requires
        0 <= pixels,
        1 <= dpi,
    ensures
        ({
            let units = (pixels * 300 + dpi / 2) / dpi;
            &&& 0 <= units
            &&& is_nearest_length(units, pixels, dpi)
        }),
{
    let n = pixels * 300 + dpi / 2;
    let units = n / dpi;
    assert(units * dpi <= n < units * dpi + dpi && 0 <= units) by (nonlinear_arith)
        requires
            units == n / dpi,
            dpi >= 1,
            n >= 0,
    ;
}

/// Along one axis the region asked for is the nearest one that the scanner can measure.
#[verifier::spinoff_prover]
pub proof fn axes_are_measured(offset: int, length: int, dpi: int, max: Option<u32>)
    requires
        50 <= dpi <= u32::MAX,
        i32::MIN <= offset <= i32::MAX,
        0 <= length <= u32::MAX,
    ensures
        ({
            let (start, size) = axis_units(offset, length, dpi, max);
            is_axis(start as int, size as int, offset, length, dpi, max)
        }),
{
    let (start, size) = axis_units(offset, length, dpi, max);
    let from = larger(offset, 0);
    let long = larger(length, 1);
    lemma_nearest_length(from, dpi);
    lemma_nearest_length(long, dpi);
    let a = (from * 300 + dpi / 2) / dpi;
    let b = (long * 300 + dpi / 2) / dpi;
    let end = match max {
        Some(limit) => larger(limit as int, 1),
        None => u32::MAX as int,
    };
    assert(start == smaller(
        if from == 0 {
            0
        } else {
            clamped(a, 1, u32::MAX as int)
        },
        end - 1,
    ));
    assert(size == smaller(clamped(b, 1, u32::MAX as int), end - start));
    assert(a <= 1 ==> a * dpi <= dpi) by (nonlinear_arith)
        requires
            0 <= a,
            dpi >= 1,
    ;
    assert(b <= 1 ==> b * dpi <= dpi) by (nonlinear_arith)
        requires
            0 <= b,
            dpi >= 1,
    ;
    assert(a >= end - 1 ==> (end - 1) * dpi <= a * dpi) by (nonlinear_arith)
        requires
            dpi >= 1,
    ;
    assert(b >= size ==> size * dpi <= b * dpi) by (nonlinear_arith)
        requires
            dpi >= 1,
    ;
}

/// Whether a scanner that offers some resolutions is asked for one of them that is as near as any to
/// the one that a request asks for, or for just that one where it offers none.
pub open spec fn is_offered(request: Request, resolutions: Seq<(u32, u32)>, x: u32, y: u32) -> bool {
    if resolutions.len() == 0 {
        x == request.dpi_x && y == request.dpi_y
    } else {
        &&& resolutions.contains((x, y))
        &&& forall|k: int|
            0 <= k < resolutions.len() ==> distance(x as int, request.dpi_x as int) + distance(
                y as int,
                request.dpi_y as int,
            ) <= distance((#[trigger] resolutions[k]).0 as int, request.dpi_x as int) + distance(
                resolutions[k].1 as int,
                request.dpi_y as int,
            )
    }
}

/// Whether a color mode serves a pixel layout with a representation, and the scanner offers it where
/// it offers any.
pub open spec fn is_color_offered(
    format: PixelFormat,
    modes: Seq<Seq<char>>,
    color: Seq<char>,
    representation: DocumentRepresentation,
) -> bool {
    &&& modes.len() > 0 ==> modes.contains(color)
    &&& match representation {
        DocumentRepresentation::Grayscale8 => format == PixelFormat::Gray8 && same_letters(
            color,
            "Grayscale8"@,
        ),
        DocumentRepresentation::BlackAndWhite1 => format == PixelFormat::Gray8 && same_letters(
            color,
            "BlackAndWhite1"@,
        ),
        DocumentRepresentation::Rgb24 => format != PixelFormat::Gray8 && same_letters(
            color,
            "RGB24"@,
        ),
        DocumentRepresentation::Rgb48 => format != PixelFormat::Gray8 && same_letters(
            color,
            "RGB48"@,
        ),
    }
}

/// Whether a document format is one that can be decoded, and the scanner offers it where it offers
/// any.
pub open spec fn is_format_offered(formats: Seq<Seq<char>>, format: Seq<char>) -> bool {
    if formats.len() == 0 {
        format == "application/octet-stream"@
    } else {
        formats.contains(format) && (same_letters(format, "image/png"@) || same_letters(
            format,
            "image/jpeg"@,
        ) || same_letters(format, "image/tiff"@))
    }
}

proof fn lemma_first_like(values: Seq<Seq<char>>, wanted: Seq<char>)
    ensures
        first_like(values, wanted) matches Some(found) ==> values.contains(found) && same_letters(
            found,
            wanted,
        ),
    decreases values.len(),
{
    if values.len() > 0 {
        if same_letters(values[0], wanted) {
            assert(values.contains(values[0]));
        } else {
            lemma_first_like(values.skip(1), wanted);
            if let Some(found) = first_like(values.skip(1), wanted) {
                let k = choose|k: int| 0 <= k < values.skip(1).len() && values.skip(1)[k] == found;
                assert(values[k + 1] == found);
            }
        }
    }
}

/// What was negotiated is what the request asks for and the scanner offers: a source of the mode, for
/// both sides exactly where both are asked for, a color mode of the pixel layout, and a format that
/// can be decoded.
pub proof fn negotiation_serves_the_request(request: Request, caps: Caps)
    requires
        negotiated(request, caps) is Ok,
    ensures
        ({
            let (source, color, representation, format) = negotiated(request, caps)->Ok_0;
            &&& request.dpi_x >= 50 && request.dpi_y >= 50
            &&& source.source == Some(
                match request.mode {
                    ScanMode::Reflective => CapabilitySource::Platen,
                    ScanMode::Film => CapabilitySource::Film,
                    ScanMode::Document => if request.duplex {
                        CapabilitySource::AdfDuplex
                    } else {
                        CapabilitySource::AdfSimplex
                    },
                },
            )
            &&& request.duplex ==> request.mode == ScanMode::Document
            &&& caps.sources.contains(source) || request.mode == ScanMode::Reflective && unnamed(
                caps.sources,
            )
            &&& is_color_offered(request.pixel_format, source.color_modes, color, representation)
            &&& is_format_offered(source.document_formats, format)
        }),
{
    let (source, color, representation, format) = negotiated(request, caps)->Ok_0;
    let wanted = wanted_source(request)->Ok_0;
    lemma_entry_index(caps.sources, Some(wanted));
    lemma_entry_index(caps.sources, None);
    let i = entry_index(caps.sources, Some(wanted));
    if i < caps.sources.len() {
        assert(caps.sources[i] == source);
    }
    lemma_first_like(source.color_modes, "Grayscale8"@);
    lemma_first_like(source.color_modes, "BlackAndWhite1"@);
    lemma_first_like(source.color_modes, "RGB24"@);
    lemma_first_like(source.color_modes, "RGB48"@);
    lemma_first_like(source.document_formats, "image/png"@);
    lemma_first_like(source.document_formats, "image/jpeg"@);
    lemma_first_like(source.document_formats, "image/tiff"@);
}

/// Whether a document asks for so many pixels along the horizontal axis.
pub open spec fn asks_for_columns(
    text: Seq<char>,
    offset: int,
    length: int,
    dpi: int,
    max: Option<u32>,
) -> bool {
    exists|left: nat, wide: nat| #[trigger]
        is_axis(left as int, wide as int, offset, length, dpi, max) && says(
            text,
            "pwg:XOffset"@,
            decimal(left),
        ) && says(text, "pwg:Width"@, decimal(wide))
}

/// Whether a document asks for so many pixels along the vertical axis.
pub open spec fn asks_for_rows(
    text: Seq<char>,
    offset: int,
    length: int,
    dpi: int,
    max: Option<u32>,
) -> bool {
    exists|top: nat, high: nat| #[trigger]
        is_axis(top as int, high as int, offset, length, dpi, max) && says(
            text,
            "pwg:YOffset"@,
            decimal(top),
        ) && says(text, "pwg:Height"@, decimal(high))
}

/// Whether a document asks for a resolution that serves a request.
pub open spec fn asks_for_resolution(
    text: Seq<char>,
    request: Request,
    resolutions: Seq<(u32, u32)>,
) -> bool {
    exists|dx: u32, dy: u32| #[trigger]
        is_offered(request, resolutions, dx, dy) && says(
            text,
            "scan:XResolution"@,
            decimal(dx as nat),
        ) && says(text, "scan:YResolution"@, decimal(dy as nat))
}

/// The settings document that is written for a request says what the request asks for: the feeder for
/// documents, with both sides exactly where both are asked for, the platen or the transparency unit for
/// other media and no word of sides, the region in its own measures on each axis, and an offered
/// resolution, color mode and format.
pub proof fn settings_say_what_was_asked(request: Request, caps: Caps, bytes: Seq<u8>)
    requires
        negotiated(request, caps) is Ok,
        ({
            let chosen = negotiated(request, caps)->Ok_0;
            is_settings(request, chosen.0, chosen.1, chosen.3, bytes)
        }),
    ensures
        bytes == encode_utf8(decode_utf8(bytes)),
        request.mode == ScanMode::Document ==> says(
            decode_utf8(bytes),
            "pwg:InputSource"@,
            "Feeder"@,
        ),
        request.mode == ScanMode::Reflective ==> says(
            decode_utf8(bytes),
            "pwg:InputSource"@,
            "Platen"@,
        ),
        request.mode == ScanMode::Film ==> says(
            decode_utf8(bytes),
            "pwg:InputSource"@,
            "Transparency"@,
        ),
        contains_text(decode_utf8(bytes), "<scan:Duplex>true</scan:Duplex>"@) <==> request.mode
            == ScanMode::Document && request.duplex,
        contains_text(decode_utf8(bytes), "<scan:Duplex>false</scan:Duplex>"@) <==> request.mode
            == ScanMode::Document && !request.duplex,
        request.region matches Some(region) ==> asks_for_columns(
            decode_utf8(bytes),
            region.x as int,
            region.width as int,
            request.dpi_x as int,
            negotiated(request, caps)->Ok_0.0.max_width,
        ) && asks_for_rows(
            decode_utf8(bytes),
            region.y as int,
            region.height as int,
            request.dpi_y as int,
            negotiated(request, caps)->Ok_0.0.max_height,
        ),
        request.region is None ==> asks_for_columns(
            decode_utf8(bytes),
            0,
            request.width as int,
            request.dpi_x as int,
            negotiated(request, caps)->Ok_0.0.max_width,
        ) && asks_for_rows(
            decode_utf8(bytes),
            0,
            request.height as int,
            request.dpi_y as int,
            negotiated(request, caps)->Ok_0.0.max_height,
        ),
        asks_for_resolution(
            decode_utf8(bytes),
            request,
            negotiated(request, caps)->Ok_0.0.resolutions,
        ),
        says(decode_utf8(bytes), "scan:ColorMode"@, negotiated(request, caps)->Ok_0.1),
        says(decode_utf8(bytes), "pwg:DocumentFormat"@, negotiated(request, caps)->Ok_0.3),
{
    let (source, color, representation, format) = negotiated(request, caps)->Ok_0;
    let (columns, rows) = region_units(request, source);
    let kind = source.source->0;
    negotiation_serves_the_request(request, caps);
    let dpi = choose|dpi: (u32, u32)| #[trigger]
        is_resolution_choice(request, source, dpi) && bytes == encode_utf8(
            settings_text(columns, rows, kind, dpi, color, format),
        );
    let text = settings_text(columns, rows, kind, dpi, color, format);
    vstd::utf8::encode_utf8_decode_utf8(text);
    assert(decode_utf8(bytes) == text);
    lemma_settings_say(columns, rows, kind, dpi, color, format);
    lemma_duplex_lines(columns, rows, kind, dpi, color, format, request, source, representation);
    let (x, y, width, height) = match request.region {
        Some(r) => (r.x as int, r.y as int, r.width as int, r.height as int),
        None => (0int, 0int, request.width as int, request.height as int),
    };
    axes_are_measured(x, width, request.dpi_x as int, source.max_width);
    axes_are_measured(y, height, request.dpi_y as int, source.max_height);
    assert(columns == axis_units(x, width, request.dpi_x as int, source.max_width));
    assert(rows == axis_units(y, height, request.dpi_y as int, source.max_height));
    let left = columns.0 as nat;
    let wide = columns.1 as nat;
    let top = rows.0 as nat;
    let high = rows.1 as nat;
    assert(is_axis(left as int, wide as int, x, width, request.dpi_x as int, source.max_width));
    assert(is_axis(top as int, high as int, y, height, request.dpi_y as int, source.max_height));
    assert(is_offered(request, source.resolutions, dpi.0, dpi.1)) by {
        if source.resolutions.len() > 0 {
            let k = choose|k: int| #[trigger]
                is_nearest(request, source.resolutions, k) && dpi == source.resolutions[k];
            assert(source.resolutions[k] == (dpi.0, dpi.1));
        }
    }
}

/// The duplex element stands in the document exactly where a feeder was chosen.
#[verifier::spinoff_prover]
proof fn lemma_duplex_lines(
    columns: (u32, u32),
    rows: (u32, u32),
    source: CapabilitySource,
    dpi: (u32, u32),
    color: Seq<char>,
    format: Seq<char>,
    request: Request,
    offered: SourceCaps,
    representation: DocumentRepresentation,
)
    requires
        is_color_offered(request.pixel_format, offered.color_modes, color, representation),
        is_format_offered(offered.document_formats, format),
    ensures
        ({
            let text = settings_text(columns, rows, source, dpi, color, format);
            &&& contains_text(text, "<scan:Duplex>true</scan:Duplex>"@) <==> source
                == CapabilitySource::AdfDuplex
            &&& contains_text(text, "<scan:Duplex>false</scan:Duplex>"@) <==> source
                == CapabilitySource::AdfSimplex
        }),
{
    let text = settings_text(columns, rows, source, dpi, color, format);
    let yes = "<scan:Duplex>true</scan:Duplex>"@;
    let no = "<scan:Duplex>false</scan:Duplex>"@;
    lemma_names_have_no_x(request, offered, color, format, representation, 't');
    lemma_names_have_no_x(request, offered, color, format, representation, 'f');
    reveal_strlit("<scan:Duplex>true</scan:Duplex>");
    reveal_strlit("<scan:Duplex>false</scan:Duplex>");
    reveal_strlit("<scan:Duplex>");
    reveal_strlit("  <scan:Duplex>true</scan:Duplex>\n");
    reveal_strlit("  <scan:Duplex>false</scan:Duplex>\n");
    reveal_strlit("");
    assert(yes =~= "<scan:Duplex>"@ + yes.skip(13));
    assert(no =~= "<scan:Duplex>"@ + no.skip(13));
    if source != CapabilitySource::AdfDuplex {
        assert(never_after_duplex(duplex_line(source), 't'));
        lemma_settings_duplex(columns, rows, source, dpi, color, format, 't');
        lemma_no_duplex(text, yes.skip(13));
    }
    if source != CapabilitySource::AdfSimplex {
        assert(never_after_duplex(duplex_line(source), 'f'));
        lemma_settings_duplex(columns, rows, source, dpi, color, format, 'f');
        lemma_no_duplex(text, no.skip(13));
    }
    if source == CapabilitySource::AdfDuplex {
        assert(duplex_line(source).subrange(2, 2 + yes.len() as int) =~= yes);
        assert(contains_text(duplex_line(source), yes));
        lemma_duplex_in_text(columns, rows, source, dpi, color, format, yes);
    }
    if source == CapabilitySource::AdfSimplex {
        assert(duplex_line(source).subrange(2, 2 + no.len() as int) =~= no);
        assert(contains_text(duplex_line(source), no));
        lemma_duplex_in_text(columns, rows, source, dpi, color, format, no);
    }
}

proof fn lemma_names_have_no_x(
    request: Request,
    offered: SourceCaps,
    color: Seq<char>,
    format: Seq<char>,
    representation: DocumentRepresentation,
    c: char,
)
    requires
        is_color_offered(request.pixel_format, offered.color_modes, color, representation),
        is_format_offered(offered.document_formats, format),
    ensures
        never_after_duplex(color, c),
        never_after_duplex(format, c),
{
    reveal_strlit("Grayscale8");
    reveal_strlit("BlackAndWhite1");
    reveal_strlit("RGB24");
    reveal_strlit("RGB48");
    reveal_strlit("image/png");
    reveal_strlit("image/jpeg");
    reveal_strlit("image/tiff");
    reveal_strlit("application/octet-stream");
    match representation {
        DocumentRepresentation::Grayscale8 => {
            lemma_like_has_no_x(color, "Grayscale8"@, c);
        },
        DocumentRepresentation::BlackAndWhite1 => {
            lemma_like_has_no_x(color, "BlackAndWhite1"@, c);
        },
        DocumentRepresentation::Rgb24 => {
            lemma_like_has_no_x(color, "RGB24"@, c);
        },
        DocumentRepresentation::Rgb48 => {
            lemma_like_has_no_x(color, "RGB48"@, c);
        },
    }
    if offered.document_formats.len() > 0 {
        if same_letters(format, "image/png"@) {
            lemma_like_has_no_x(format, "image/png"@, c);
        } else if same_letters(format, "image/jpeg"@) {
            lemma_like_has_no_x(format, "image/jpeg"@, c);
        } else {
            lemma_like_has_no_x(format, "image/tiff"@, c);
        }
    }
}

/// What the duplex line holds the document holds.
proof fn lemma_duplex_in_text(
    columns: (u32, u32),
    rows: (u32, u32),
    source: CapabilitySource,
    dpi: (u32, u32),
    color: Seq<char>,
    format: Seq<char>,
    part: Seq<char>,
)
    requires
        contains_text(duplex_line(source), part),
    ensures
        contains_text(settings_text(columns, rows, source, dpi, color, format), part),
{
    let l0 = "<?xml version=\"1.0\" encoding=\"UTF-8\"?>\n<scan:ScanSettings xmlns:scan=\"http://schemas.hp.com/imaging/escl/2011/05/03\" xmlns:pwg=\"http://www.pwg.org/schemas/2010/12/sm\" xmlns:escl=\"http://schemas.hp.com/imaging/escl/2011/05/03\">\n  <pwg:Version>2.0</pwg:Version>\n  <scan:Intent>Document</scan:Intent>\n  <pwg:ScanRegions>\n    <pwg:ScanRegion>\n      <pwg:ContentRegionUnits>escl:ThreeHundredthsOfInches</pwg:ContentRegionUnits>\n      <pwg:XOffset>"@;
    let l2 = "</pwg:XOffset>\n      <pwg:YOffset>"@;
    let l4 = "</pwg:YOffset>\n      <pwg:Width>"@;
    let l6 = "</pwg:Width>\n      <pwg:Height>"@;
    let l8 = "</pwg:Height>\n    </pwg:ScanRegion>\n  </pwg:ScanRegions>\n  <pwg:InputSource>"@;
    let l10 = "</pwg:InputSource>\n"@;
    let l12 = "  <scan:XResolution>"@;
    let l14 = "</scan:XResolution>\n  <scan:YResolution>"@;
    let l16 = "</scan:YResolution>\n  <scan:ColorMode>"@;
    let l18 = "</scan:ColorMode>\n  <pwg:DocumentFormat>"@;
    let l20 = "</pwg:DocumentFormat>\n</scan:ScanSettings>\n"@;
    let t1 = l0;
    let t2 = t1 + decimal(columns.0 as nat);
    let t3 = t2 + l2;
    let t4 = t3 + decimal(rows.0 as nat);
    let t5 = t4 + l4;
    let t6 = t5 + decimal(columns.1 as nat);
    let t7 = t6 + l6;
    let t8 = t7 + decimal(rows.1 as nat);
    let t9 = t8 + l8;
    let t10 = t9 + source.spec_input();
    let t11 = t10 + l10;
    let t12 = t11 + duplex_line(source);
    let i = choose|i: int|
        0 <= i <= duplex_line(source).len() - part.len() && #[trigger] duplex_line(source).subrange(
            i,
            i + part.len(),
        ) == part;
    let j = t11.len() + i;
    assert(t12.subrange(j, j + part.len()) =~= duplex_line(source).subrange(i, i + part.len()));
    assert(contains_text(t12, part));
    let t13 = t12 + l12;
    lemma_contains_longer(t12, l12, part);
    let t14 = t13 + decimal(dpi.0 as nat);
    lemma_contains_longer(t13, decimal(dpi.0 as nat), part);
    let t15 = t14 + l14;
    lemma_contains_longer(t14, l14, part);
    let t16 = t15 + decimal(dpi.1 as nat);
    lemma_contains_longer(t15, decimal(dpi.1 as nat), part);
    let t17 = t16 + l16;
    lemma_contains_longer(t16, l16, part);
    let t18 = t17 + color;
    lemma_contains_longer(t17, color, part);
    let t19 = t18 + l18;
    lemma_contains_longer(t18, l18, part);
    let t20 = t19 + format;
    lemma_contains_longer(t19, format, part);
    let t21 = t20 + l20;
    lemma_contains_longer(t20, l20, part);
    assert(t21 == settings_text(columns, rows, source, dpi, color, format));
}

/// A length of pixels in three-hundredths of an inch lies as near as a whole number can to its exact
/// measure, wherever that is neither below one nor beyond what is sent.
pub proof fn lengths_are_rounded(pixels: int, dpi: int)
    requires
        pixels >= 0,
        dpi >= 1,
    ensures
        1 <= three_hundredths(pixels, dpi) <= u32::MAX,
        1 < three_hundredths(pixels, dpi) < u32::MAX ==> -dpi <= 2 * (three_hundredths(pixels, dpi) * dpi
            - 300 * pixels) <= dpi,
        dpi == 300 && 1 <= pixels <= u32::MAX ==> three_hundredths(pixels, dpi) == pixels,
{
    let exact = pixels * 300;
    let q = (exact + dpi / 2) / dpi;
    assert(q * dpi <= exact + dpi / 2 < q * dpi + dpi) by (nonlinear_arith)
        requires
            q == (exact + dpi / 2) / dpi,
            dpi >= 1,
    ;
}

proof fn lemma_nothing_like(values: Seq<Seq<char>>, wanted: Seq<char>, i: int)
    requires
        0 <= i < values.len(),
        same_letters(values[i], wanted),
    ensures
        first_like(values, wanted) is Some,
    decreases values.len(),
{
    if !same_letters(values[0], wanted) {
        assert(values.skip(1)[i - 1] == values[i]);
        lemma_nothing_like(values.skip(1), wanted, i - 1);
    }
}

/// A scanner that offers PNG sends PNG, one that offers JPEG but no PNG sends JPEG, and one that offers
/// TIFF sends at least something that can be decoded.
pub proof fn formats_are_preferred_in_order(source: SourceCaps, i: int)
    requires
        0 <= i < source.document_formats.len(),
    ensures
        same_letters(source.document_formats[i], "image/png"@) ==> format_choice(source) is Ok
            && same_letters(format_choice(source)->Ok_0, "image/png"@),
        same_letters(source.document_formats[i], "image/jpeg"@) ==> format_choice(source) is Ok && (
        same_letters(format_choice(source)->Ok_0, "image/png"@) || same_letters(
            format_choice(source)->Ok_0,
            "image/jpeg"@,
        )),
        same_letters(source.document_formats[i], "image/tiff"@) ==> format_choice(source) is Ok,
        format_choice(source) matches Ok(format) ==> is_format_offered(source.document_formats, format),
{
    let formats = source.document_formats;
    lemma_first_like(formats, "image/png"@);
    lemma_first_like(formats, "image/jpeg"@);
    lemma_first_like(formats, "image/tiff"@);
    if same_letters(formats[i], "image/png"@) {
        lemma_nothing_like(formats, "image/png"@, i);
    }
    if same_letters(formats[i], "image/jpeg"@) {
        lemma_nothing_like(formats, "image/jpeg"@, i);
    }
    if same_letters(formats[i], "image/tiff"@) {
        lemma_nothing_like(formats, "image/tiff"@, i);
    }
}

/// A gray request takes eight bits of gray where they are offered and black and white otherwise; any other
/// request takes eight bits of each colour where they are offered and sixteen otherwise.
pub proof fn color_modes_are_preferred_in_order(request: Request, source: SourceCaps, i: int)
    requires
        0 <= i < source.color_modes.len(),
    ensures
        request.pixel_format == PixelFormat::Gray8 && same_letters(source.color_modes[i], "Grayscale8"@)
            ==> (color_choice(request, source) matches Ok(choice) && choice.1 is Grayscale8),
        request.pixel_format == PixelFormat::Gray8 && same_letters(source.color_modes[i], "BlackAndWhite1"@)
            ==> color_choice(request, source) is Ok,
        request.pixel_format != PixelFormat::Gray8 && same_letters(source.color_modes[i], "RGB24"@)
            ==> (color_choice(request, source) matches Ok(choice) && choice.1 is Rgb24),
        request.pixel_format != PixelFormat::Gray8 && same_letters(source.color_modes[i], "RGB48"@)
            ==> color_choice(request, source) is Ok,
        color_choice(request, source) matches Ok(choice) ==> is_color_offered(
            request.pixel_format,
            source.color_modes,
            choice.0,
            choice.1,
        ),
{
    let modes = source.color_modes;
    lemma_first_like(modes, "Grayscale8"@);
    lemma_first_like(modes, "BlackAndWhite1"@);
    lemma_first_like(modes, "RGB24"@);
    lemma_first_like(modes, "RGB48"@);
    if same_letters(modes[i], "Grayscale8"@) {
        lemma_nothing_like(modes, "Grayscale8"@, i);
    }
    if same_letters(modes[i], "BlackAndWhite1"@) {
        lemma_nothing_like(modes, "BlackAndWhite1"@, i);
    }
    if same_letters(modes[i], "RGB24"@) {
        lemma_nothing_like(modes, "RGB24"@, i);
    }
    if same_letters(modes[i], "RGB48"@) {
        lemma_nothing_like(modes, "RGB48"@, i);
    }
}

/// The resolution that is taken is one that is offered, the one that was asked for wherever it is offered,
/// and otherwise one than which none is nearer along both axes.
pub proof fn nearest_resolutions_are_near(request: Request, resolutions: Seq<(u32, u32)>, k: int, j: int)
    requires
        is_nearest(request, resolutions, k),
        0 <= j < resolutions.len(),
    ensures
        resolutions.contains(resolutions[k]),
        resolutions[j] == (request.dpi_x, request.dpi_y) ==> resolutions[k] == (
            request.dpi_x,
            request.dpi_y,
        ),
        resolutions[j].0 == request.dpi_x && resolutions[k].0 == request.dpi_x && resolutions[j].1
            >= request.dpi_y && resolutions[k].1 >= request.dpi_y ==> resolutions[k].1 <= resolutions[j].1,
        resolutions[j].1 == request.dpi_y && resolutions[k].1 == request.dpi_y && resolutions[j].0
            <= request.dpi_x && resolutions[k].0 <= request.dpi_x ==> resolutions[k].0 >= resolutions[j].0,
{
    assert(resolution_distance(request, resolutions[k]) <= resolution_distance(request, resolutions[j]));
}

} // verus!
