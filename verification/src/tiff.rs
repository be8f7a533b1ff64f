//! Multipage TIFF documents: page layout, writing, reading back and appending.

use crate::cancellation::{
    can_poll, finished_passed_every_point, lemma_never_stopped, polls_of, uncancelled, Course,
    PollPoint, Polls,
};
use crate::error::{invalid, joined, outcome, Failure, ScanError};
use crate::image::{
    checked_image_len, image_len, ImageBuffer, Picture, PixelFormat, MAX_IMAGE_BYTES,
    MAX_IMAGE_DIMENSION,
};
use crate::tiff::directory::{
    directory_at, entries_from, form_of, known_type, number16, number32, page_directory, page_fits,
    DirectoryView, Entries, PageWalk, TiffForm,
};
use crate::text::{chars_of, lower_all, lower_chars, same_text, text_of, trim, trimmed};
use vstd::prelude::*;
use vstd::slice::slice_subrange;
use vstd::string::StringExecFns;

pub mod directory;

verus! {

/// The entries of a page's directory.
pub const TIFF_IFD_ENTRY_COUNT: u16 = 12;

/// The bytes of a page's directory.
pub const TIFF_IFD_SIZE: u32 = 150;

/// The bytes of the document's header.
pub const TIFF_HEADER_SIZE: u32 = 8;

/// Offsets are multiples of this.
pub const TIFF_WORD_ALIGNMENT: u32 = 2;

/// The failure of a document that is too long for its 32-bit offsets.
pub open spec fn offset_limit() -> Failure {
    Failure::Image("TIFF layout exceeds classic TIFF offset limit"@)
}

/// An offset rounded up to a word.
pub open spec fn aligned(offset: int) -> int {
    offset + offset % 2
}

/// An offset behind a length, refused where it does not fit 32 bits.
pub fn checked_tiff_offset(offset: u32, length: u32) -> (r: Result<u32, ScanError>)
    ensures
        outcome(r) == if offset + length > u32::MAX {
            Err::<u32, Failure>(offset_limit())
        } else {
            Ok::<u32, Failure>((offset + length) as u32)
        },
{
    match offset.checked_add(length) {
        Some(end) => Ok(end),
        None => Err(ScanError::Image("TIFF layout exceeds classic TIFF offset limit".to_owned())),
    }
}

/// An offset rounded up to a word.
pub fn align_tiff_offset(offset: u32) -> (r: Result<u32, ScanError>)
    ensures
        outcome(r) == if aligned(offset as int) > u32::MAX {
            Err::<u32, Failure>(offset_limit())
        } else {
            Ok::<u32, Failure>(aligned(offset as int) as u32)
        },
{
    checked_tiff_offset(offset, offset % TIFF_WORD_ALIGNMENT)
}

/// Where the parts of a page stand.
#[derive(Debug, Clone, Copy, PartialEq, Eq, Structural)]
pub struct TiffPageLayout {
    pub ifd_at: u32,
    pub bps_at: u32,
    pub xres_at: u32,
    pub yres_at: u32,
    pub strip_at: u32,
    pub strip_len: u32,
    pub next_ifd_at: u32,
    pub next_ifd_field_at: u32,
}

/// Where the parts of a page stand that begins at an aligned offset.
pub open spec fn layout_at(ifd_at: int, strip_len: int, has_next_page: bool) -> TiffPageLayout {
    TiffPageLayout {
        ifd_at: ifd_at as u32,
        bps_at: (ifd_at + 150) as u32,
        xres_at: (ifd_at + 156) as u32,
        yres_at: (ifd_at + 164) as u32,
        strip_at: (ifd_at + 172) as u32,
        strip_len: strip_len as u32,
        next_ifd_at: if has_next_page {
            aligned(ifd_at + 172 + strip_len) as u32
        } else {
            0
        },
        next_ifd_field_at: (ifd_at + 146) as u32,
    }
}

/// The last offset that a page needs: that of the page behind it, where there is one.
pub open spec fn page_end(ifd_at: int, strip_len: int, has_next_page: bool) -> int {
    let end = ifd_at + 172 + strip_len;
    if has_next_page {
        aligned(end)
    } else {
        end
    }
}

/// The layout of a page from an offset on, which fails where an offset does not fit 32 bits.
pub open spec fn page_layout(ifd_at: int, strip_len: int, has_next_page: bool) -> Result<
    TiffPageLayout,
    Failure,
> {
    let start = aligned(ifd_at);
    if page_end(start, strip_len, has_next_page) > u32::MAX {
        Err(offset_limit())
    } else {
        Ok(layout_at(start, strip_len, has_next_page))
    }
}

impl TiffPageLayout {
    /// The layout of a page from an offset on.
    pub fn new(ifd_at: u32, strip_len: u32, has_next_page: bool) -> (r: Result<Self, ScanError>)
        ensures
            outcome(r) == page_layout(ifd_at as int, strip_len as int, has_next_page),
    {
        let start: u32 = match align_tiff_offset(ifd_at) {
            Ok(at) => at,
            Err(error) => {
                return Err(error);
            },
        };
        let bps_at: u32 = match checked_tiff_offset(start, TIFF_IFD_SIZE) {
            Ok(at) => at,
            Err(error) => {
                return Err(error);
            },
        };
        let xres_at: u32 = match checked_tiff_offset(bps_at, 6) {
            Ok(at) => at,
            Err(error) => {
                return Err(error);
            },
        };
        let yres_at: u32 = match checked_tiff_offset(xres_at, 8) {
            Ok(at) => at,
            Err(error) => {
                return Err(error);
            },
        };
        let strip_at: u32 = match checked_tiff_offset(yres_at, 8) {
            Ok(at) => at,
            Err(error) => {
                return Err(error);
            },
        };
        let strip_end: u32 = match checked_tiff_offset(strip_at, strip_len) {
            Ok(at) => at,
            Err(error) => {
                return Err(error);
            },
        };
        let next_ifd_at: u32 = if has_next_page {
            match align_tiff_offset(strip_end) {
                Ok(at) => at,
                Err(error) => {
                    return Err(error);
                },
            }
        } else {
            0
        };
        Ok(
            TiffPageLayout {
                ifd_at: start,
                bps_at,
                xres_at,
                yres_at,
                strip_at,
                strip_len,
                next_ifd_at,
                next_ifd_field_at: start + (TIFF_IFD_SIZE - 4),
            },
        )
    }
}

/// Every part of a page stands at a word.
pub proof fn layouts_are_word_aligned(ifd_at: int, strip_len: int, has_next_page: bool)
    requires
        0 <= ifd_at,
        0 <= strip_len,
        page_layout(ifd_at, strip_len, has_next_page) is Ok,
    ensures
        ({
            let layout = page_layout(ifd_at, strip_len, has_next_page)->Ok_0;
            layout.ifd_at % 2 == 0 && layout.bps_at % 2 == 0 && layout.xres_at % 2 == 0
                && layout.yres_at % 2 == 0 && layout.strip_at % 2 == 0 && layout.next_ifd_at % 2
                == 0 && layout.next_ifd_field_at % 2 == 0
        }),
{
}

/// The failure of pages whose pixels pass the image limit together.
pub open spec fn aggregate_limit() -> Failure {
    Failure::Image("TIFF decoded frame aggregate exceeds the image safety limit"@)
}

/// The RGB bytes of the pages so far and of one more.
pub open spec fn frame_aggregate(current: int, width: int, height: int) -> Result<int, Failure> {
    match image_len(width, height, 3) {
        Err(failure) => Err(failure),
        Ok(len) => if current + len > MAX_IMAGE_BYTES {
            Err(aggregate_limit())
        } else {
            Ok(current + len)
        },
    }
}

/// The RGB bytes of the pages so far and of one more, refused where they pass the image limit.
pub fn checked_tiff_frame_aggregate(current_rgb_bytes: usize, width: u32, height: u32) -> (r: Result<
    usize,
    ScanError,
>)
    ensures
        r is Ok ==> r->Ok_0 == current_rgb_bytes + width * height * 3 && r->Ok_0 <= 536_870_912,
        match frame_aggregate(current_rgb_bytes as int, width as int, height as int) {
            Ok(total) => r is Ok && r->Ok_0 == total,
            Err(failure) => r is Err && r->Err_0@ == failure,
        },
{
    let frame: usize = match checked_image_len(width, height, 3) {
        Ok(len) => len,
        Err(error) => {
            return Err(error);
        },
    };
    match current_rgb_bytes.checked_add(frame) {
        Some(total) => if total > MAX_IMAGE_BYTES {
            Err(
                ScanError::Image(
                    "TIFF decoded frame aggregate exceeds the image safety limit".to_owned(),
                ),
            )
        } else {
            Ok(total)
        },
        None => Err(
            ScanError::Image(
                "TIFF decoded frame aggregate exceeds the image safety limit".to_owned(),
            ),
        ),
    }
}

// ---------------------------------------------------------------------------
// Bytes
// ---------------------------------------------------------------------------

/// The bytes of a 16-bit number, the least significant first.
pub open spec fn le16(v: int) -> Seq<u8> {
    seq![(v % 256) as u8, (v / 256 % 256) as u8]
}

/// The bytes of a 32-bit number, the least significant first.
pub open spec fn le32(v: int) -> Seq<u8> {
    seq![
        (v % 256) as u8,
        (v / 256 % 256) as u8,
        (v / 65536 % 256) as u8,
        (v / 16777216 % 256) as u8,
    ]
}

/// The 32-bit number at a place of bytes.
pub open spec fn read32(bytes: Seq<u8>, at: int) -> int {
    bytes[at] + 256 * bytes[at + 1] + 65536 * bytes[at + 2] + 16777216 * bytes[at + 3]
}

/// A number is read back from its bytes.
pub proof fn lemma_le32(v: int)
    requires
        0 <= v <= u32::MAX,
    ensures
        le32(v).len() == 4,
        (v % 256) + 256 * (v / 256 % 256) + 65536 * (v / 65536 % 256) + 16777216 * (v / 16777216
            % 256) == v,
{
    let a = v / 256;
    let b = a / 256;
    let c = b / 256;
    assert(v / 65536 == b);
    assert(v / 16777216 == c);
    assert(v == 256 * a + v % 256);
    assert(a == 256 * b + a % 256);
    assert(b == 256 * c + b % 256);
    assert(c < 256);
}

fn push_le16(out: &mut Vec<u8>, v: u16)
    ensures
        final(out)@ == old(out)@ + le16(v as int),
{
    out.push((v % 256) as u8);
    out.push((v / 256) as u8);
    assert(out@ =~= old(out)@ + le16(v as int));
}

fn push_le32(out: &mut Vec<u8>, v: u32)
    ensures
        final(out)@ == old(out)@ + le32(v as int),
{
    out.push((v % 256) as u8);
    out.push((v / 256 % 256) as u8);
    out.push((v / 65536 % 256) as u8);
    out.push((v / 16777216) as u8);
    assert(out@ =~= old(out)@ + le32(v as int));
}

/// An entry of a directory.
#[verifier::opaque]
pub open spec fn entry_bytes(tag: int, typ: int, count: int, value: int) -> Seq<u8> {
    le16(tag) + le16(typ) + le32(count) + le32(value)
}

/// An entry of a directory.
pub fn tiff_entry(out: &mut Vec<u8>, tag: u16, typ: u16, count: u32, value: u32)
    ensures
        final(out)@ == old(out)@ + entry_bytes(
            tag as int,
            typ as int,
            count as int,
            value as int,
        ),
{
    push_le16(out, tag);
    push_le16(out, typ);
    push_le32(out, count);
    push_le32(out, value);
    proof {
        reveal(entry_bytes);
    }
    assert(out@ =~= old(out)@ + entry_bytes(tag as int, typ as int, count as int, value as int));
}

/// The directory of a page, which ends with the offset of the next.
#[verifier::opaque]
pub open spec fn ifd_bytes(width: int, height: int, layout: TiffPageLayout, link: int) -> Seq<u8> {
    le16(12) + entry_bytes(256, 4, 1, width) + entry_bytes(257, 4, 1, height) + entry_bytes(
        258,
        3,
        3,
        layout.bps_at as int,
    ) + entry_bytes(259, 3, 1, 1) + entry_bytes(262, 3, 1, 2) + entry_bytes(
        273,
        4,
        1,
        layout.strip_at as int,
    ) + entry_bytes(277, 3, 1, 3) + entry_bytes(278, 4, 1, height) + entry_bytes(
        279,
        4,
        1,
        layout.strip_len as int,
    ) + entry_bytes(282, 5, 1, layout.xres_at as int) + entry_bytes(
        283,
        5,
        1,
        layout.yres_at as int,
    ) + entry_bytes(296, 3, 1, 2) + le32(link)
}

/// Writes the directory of a page, without a next page yet.
pub fn write_tiff_ifd(out: &mut Vec<u8>, width: u32, height: u32, layout: &TiffPageLayout)
    ensures
        final(out)@ == old(out)@ + ifd_bytes(width as int, height as int, *layout, 0),
{
    let ghost start = out@;
    push_le16(out, TIFF_IFD_ENTRY_COUNT);
    tiff_entry(out, 256, 4, 1, width);
    tiff_entry(out, 257, 4, 1, height);
    tiff_entry(out, 258, 3, 3, layout.bps_at);
    tiff_entry(out, 259, 3, 1, 1);
    tiff_entry(out, 262, 3, 1, 2);
    tiff_entry(out, 273, 4, 1, layout.strip_at);
    tiff_entry(out, 277, 3, 1, 3);
    tiff_entry(out, 278, 4, 1, height);
    tiff_entry(out, 279, 4, 1, layout.strip_len);
    tiff_entry(out, 282, 5, 1, layout.xres_at);
    tiff_entry(out, 283, 5, 1, layout.yres_at);
    tiff_entry(out, 296, 3, 1, 2);
    push_le32(out, 0);
    proof {
        reveal(ifd_bytes);
    }
    assert(out@ =~= start + ifd_bytes(width as int, height as int, *layout, 0));
}

/// Eight bits for each of three samples.
pub open spec fn bits_per_sample() -> Seq<u8> {
    le16(8) + le16(8) + le16(8)
}

/// Writes eight bits for each of three samples.
pub fn write_rgb_bits_per_sample(out: &mut Vec<u8>)
    ensures
        final(out)@ == old(out)@ + bits_per_sample(),
{
    push_le16(out, 8);
    push_le16(out, 8);
    push_le16(out, 8);
    assert(out@ =~= old(out)@ + bits_per_sample());
}

/// A fraction.
pub open spec fn rational(numerator: int, denominator: int) -> Seq<u8> {
    le32(numerator) + le32(denominator)
}

/// Writes a fraction.
pub fn write_tiff_rational(out: &mut Vec<u8>, numerator: u32, denominator: u32)
    ensures
        final(out)@ == old(out)@ + rational(numerator as int, denominator as int),
{
    push_le32(out, numerator);
    push_le32(out, denominator);
    assert(out@ =~= old(out)@ + rational(numerator as int, denominator as int));
}

/// A page of RGB pixels.
#[derive(Debug, PartialEq, Eq)]
pub struct RgbFrame {
    pub width: u32,
    pub height: u32,
    pub data: Vec<u8>,
}

/// A page of RGB pixels, as a sequence.
pub struct Frame {
    pub width: u32,
    pub height: u32,
    pub data: Seq<u8>,
}

impl View for RgbFrame {
    type V = Frame;

    open spec fn view(&self) -> Frame {
        Frame { width: self.width, height: self.height, data: self.data@ }
    }
}

impl Frame {
    /// The page keeps the limits and has exactly its pixels.
    pub open spec fn wf(self) -> bool {
        image_len(self.width as int, self.height as int, 3) == Ok::<int, Failure>(
            self.data.len() as int,
        )
    }
}

/// The frames that a vector holds.
pub open spec fn frames_of(v: Seq<RgbFrame>) -> Seq<Frame> {
    v.map_values(|f: RgbFrame| f@)
}

/// A page from its directory to its last pixel.
#[verifier::opaque]
pub open spec fn page_bytes(
    frame: Frame,
    layout: TiffPageLayout,
    resolution: int,
    link: int,
) -> Seq<u8> {
    ifd_bytes(frame.width as int, frame.height as int, layout, link) + bits_per_sample() + rational(
        resolution,
        1,
    ) + rational(resolution, 1) + frame.data
}

/// Writes a page; a padding byte follows where another page will.
pub fn write_tiff_page(out: &mut Vec<u8>, frame: &RgbFrame, layout: &TiffPageLayout, resolution: u32)
    ensures
        final(out)@ == old(out)@ + page_bytes(frame@, *layout, resolution as int, 0) + (
        if layout.next_ifd_at != 0 {
            seq![0u8]
        } else {
            Seq::empty()
        }),
{
    let ghost start = out@;
    write_tiff_ifd(out, frame.width, frame.height, layout);
    write_rgb_bits_per_sample(out);
    write_tiff_rational(out, resolution, 1);
    write_tiff_rational(out, resolution, 1);
    let mut pixels = crate::image::copy_bytes(&frame.data);
    out.append(&mut pixels);
    proof {
        reveal(page_bytes);
    }
    assert(out@ =~= start + page_bytes(frame@, *layout, resolution as int, 0));
    if layout.next_ifd_at != 0 {
        out.push(0);
    }
    assert(out@ =~= start + page_bytes(frame@, *layout, resolution as int, 0) + (
    if layout.next_ifd_at != 0 {
        seq![0u8]
    } else {
        Seq::empty()
    }));
}

/// The RGB byte at a place: gray is repeated, alpha is dropped.
pub open spec fn rgb_byte(p: Picture, k: int) -> u8 {
    match p.pixel_format {
        PixelFormat::Gray8 => p.data[k / 3],
        PixelFormat::Rgb8 => p.data[k],
        PixelFormat::Rgba8 => p.data[(k / 3) * 4 + k % 3],
    }
}

/// The RGB pixels of an image.
pub open spec fn rgb_frame(p: Picture) -> Frame {
    Frame {
        width: p.width,
        height: p.height,
        data: Seq::new((p.pixels() * 3) as nat, |k: int| rgb_byte(p, k)),
    }
}

/// The RGB pixels of an image.
pub fn image_buffer_to_rgb(image: &ImageBuffer) -> (r: RgbFrame)
    requires
        image@.wf(),
        image@.pixels() * 3 <= MAX_IMAGE_BYTES,
    ensures
        r@ == rgb_frame(image@),
        r@.wf(),
{
    proof {
        crate::geometry::lemma_wf(image@);
    }
    let ghost p = image@;
    let n: usize = (image.width as usize) * (image.height as usize);
    let total: usize = image.data.len();
    let mut data: Vec<u8> = Vec::new();
    let mut i: usize = 0;
    while i < n
        invariant
            p == image@,
            n == p.pixels(),
            n * 3 <= MAX_IMAGE_BYTES,
            total == p.data.len(),
            total == n * p.pixel_format.spec_bpp(),
            total <= 536870912,
            i <= n,
            data@ == rgb_frame(p).data.take(i * 3),
        decreases n - i,
    {
        match image.pixel_format {
            PixelFormat::Gray8 => {
                let v: u8 = image.data[i];
                data.push(v);
                data.push(v);
                data.push(v);
            },
            PixelFormat::Rgb8 => {
                data.push(image.data[i * 3]);
                data.push(image.data[i * 3 + 1]);
                data.push(image.data[i * 3 + 2]);
            },
            PixelFormat::Rgba8 => {
                data.push(image.data[i * 4]);
                data.push(image.data[i * 4 + 1]);
                data.push(image.data[i * 4 + 2]);
            },
        }
        i += 1;
        assert(data@ =~= rgb_frame(p).data.take(i * 3));
    }
    assert(data@ =~= rgb_frame(p).data);
    RgbFrame { width: image.width, height: image.height, data }
}

// ---------------------------------------------------------------------------
// Documents
// ---------------------------------------------------------------------------

/// Bytes to be written at an offset of a document.
#[derive(Debug)]
pub struct TiffWrite {
    pub at: u32,
    pub bytes: Vec<u8>,
}

/// A document with bytes written at an offset, over what stands there and on behind the end.
pub open spec fn written(file: Seq<u8>, at: int, bytes: Seq<u8>) -> Seq<u8> {
    let len = if at + bytes.len() > file.len() {
        at + bytes.len()
    } else {
        file.len() as int
    };
    Seq::new(
        len as nat,
        |k: int|
            if at <= k < at + bytes.len() {
                bytes[k - at]
            } else if k < file.len() {
                file[k]
            } else {
                0
            },
    )
}

/// The header of a document whose first page follows it.
pub open spec fn tiff_header() -> Seq<u8> {
    seq![0x49u8, 0x49u8] + le16(42) + le32(8)
}

/// A document and where its next page goes.
#[verifier::ext_equal]
pub struct Sheet {
    pub file: Seq<u8>,
    pub next_ifd_at: u32,
    pub previous_field_at: Option<u32>,
}

/// A document without pages.
pub open spec fn empty_sheet() -> Sheet {
    Sheet { file: tiff_header(), next_ifd_at: 8, previous_field_at: None }
}

/// The bytes of a page as they are first written.
pub open spec fn fresh_page(frame: Frame, layout: TiffPageLayout, resolution: int) -> Seq<u8> {
    page_bytes(frame, layout, resolution, 0) + (if layout.next_ifd_at != 0 {
        seq![0u8]
    } else {
        Seq::empty()
    })
}

/// A document with one more page: the page before it gets its offset, then the page is written.
#[verifier::opaque]
pub open spec fn with_page(
    sheet: Sheet,
    frame: Frame,
    has_next_page: bool,
    resolution: int,
) -> Result<Sheet, Failure> {
    match planned_page(sheet.next_ifd_at as int, frame, has_next_page) {
        Err(failure) => Err(failure),
        Ok(layout) => {
            let linked = match sheet.previous_field_at {
                Some(at) => written(sheet.file, at as int, le32(layout.ifd_at as int)),
                None => sheet.file,
            };
            Ok(
                Sheet {
                    file: written(
                        linked,
                        layout.ifd_at as int,
                        fresh_page(frame, layout, resolution),
                    ),
                    next_ifd_at: layout.next_ifd_at,
                    previous_field_at: Some(layout.next_ifd_field_at),
                },
            )
        },
    }
}

/// The layout of a page of RGB pixels, or why there is none.
pub open spec fn planned_page(next_ifd_at: int, frame: Frame, has_next_page: bool) -> Result<
    TiffPageLayout,
    Failure,
> {
    match image_len(frame.width as int, frame.height as int, 3) {
        Err(failure) => Err(failure),
        Ok(len) => match page_layout(next_ifd_at, len, has_next_page) {
            Err(failure) => Err(failure),
            Ok(layout) => if frame.data.len() != len {
                Err(Failure::Image("invalid TIFF RGB frame buffer"@))
            } else {
                Ok(layout)
            },
        },
    }
}

/// Whether writes put a page at its place, and its offset into the page before it.
pub open spec fn are_page_writes(
    writes: (Option<TiffWrite>, TiffWrite),
    previous_field_at: Option<u32>,
    frame: Frame,
    layout: TiffPageLayout,
    resolution: int,
) -> bool {
    &&& writes.1.at == layout.ifd_at
    &&& writes.1.bytes@ == fresh_page(frame, layout, resolution)
    &&& match (previous_field_at, writes.0) {
        (Some(at), Some(link)) => link.at == at && link.bytes@ == le32(layout.ifd_at as int),
        (None, None) => true,
        _ => false,
    }
}

/// The RGB pixels of an acceptable image are as many as its size says.
proof fn lemma_rgb_len(p: Picture)
    requires
        p.wf(),
        image_len(p.width as int, p.height as int, 3) is Ok,
    ensures
        p.pixels() * 3 <= MAX_IMAGE_BYTES,
        rgb_frame(p).data.len() == p.pixels() * 3,
        rgb_frame(p).wf(),
{
    crate::geometry::lemma_wf(p);
}

/// The resolution of a document: 72 where none is given, and never 0.
pub open spec fn page_resolution(dpi: Option<u32>) -> int {
    match dpi {
        Some(dpi) => if dpi > 1 {
            dpi as int
        } else {
            1
        },
        None => 72,
    }
}

/// A classic-TIFF writer that retains only its current page. `next_ifd_at` tracks the aggregate
/// document layout, so every page is checked against the 32-bit offset limit before it is converted
/// or written.
#[derive(Debug)]
pub struct TiffStreamWriter {
    pub next_ifd_at: u32,
    pub previous_next_ifd_field_at: Option<u32>,
}

impl TiffStreamWriter {
    /// A writer of a document without pages, and the bytes that the document begins with.
    pub fn new() -> (r: (Self, Vec<u8>))
        ensures
            r.0.next_ifd_at == 8,
            r.0.previous_next_ifd_field_at is None,
            r.1@ == tiff_header(),
    {
        let mut header: Vec<u8> = Vec::new();
        header.push(0x49);
        header.push(0x49);
        push_le16(&mut header, 42);
        push_le32(&mut header, TIFF_HEADER_SIZE);
        assert(header@ =~= tiff_header());
        (TiffStreamWriter { next_ifd_at: TIFF_HEADER_SIZE, previous_next_ifd_field_at: None }, header)
    }

    /// The layout of the next page, from its size alone.
    pub fn preflight_page(&self, width: u32, height: u32, has_next_page: bool) -> (r: Result<
        TiffPageLayout,
        ScanError,
    >)
        ensures
            outcome(r) == match image_len(width as int, height as int, 3) {
                Err(failure) => Err::<TiffPageLayout, Failure>(failure),
                Ok(len) => page_layout(self.next_ifd_at as int, len, has_next_page),
            },
    {
        match checked_image_len(width, height, 3) {
            Ok(len) => TiffPageLayout::new(self.next_ifd_at, len as u32, has_next_page),
            Err(error) => Err(error),
        }
    }

    /// The writes that add a page of RGB pixels to the document: the offset of the page, where a
    /// page stands before it, and the page itself.
    pub fn write_rgb_frame(&mut self, frame: &RgbFrame, has_next_page: bool, dpi: Option<u32>) -> (r:
        Result<(Option<TiffWrite>, TiffWrite), ScanError>)
        ensures
            match planned_page(old(self).next_ifd_at as int, frame@, has_next_page) {
                Err(failure) => r is Err && r->Err_0@ == failure && *final(self) == *old(self),
                Ok(layout) => r is Ok && final(self).next_ifd_at == layout.next_ifd_at
                    && final(self).previous_next_ifd_field_at == Some(layout.next_ifd_field_at)
                    && are_page_writes(
                    r->Ok_0,
                    old(self).previous_next_ifd_field_at,
                    frame@,
                    layout,
                    page_resolution(dpi),
                ),
            },
    {
        let layout = match self.preflight_page(frame.width, frame.height, has_next_page) {
            Ok(layout) => layout,
            Err(error) => {
                return Err(error);
            },
        };
        if frame.data.len() != layout.strip_len as usize {
            return Err(ScanError::Image("invalid TIFF RGB frame buffer".to_owned()));
        }
        let link: Option<TiffWrite> = match self.previous_next_ifd_field_at {
            Some(at) => {
                let mut bytes: Vec<u8> = Vec::new();
                push_le32(&mut bytes, layout.ifd_at);
                assert(bytes@ =~= le32(layout.ifd_at as int));
                Some(TiffWrite { at, bytes })
            },
            None => None,
        };
        let resolution: u32 = match dpi {
            Some(dpi) => if dpi > 1 {
                dpi
            } else {
                1
            },
            None => 72,
        };
        let mut bytes: Vec<u8> = Vec::new();
        write_tiff_page(&mut bytes, frame, &layout, resolution);
        assert(bytes@ =~= fresh_page(frame@, layout, resolution as int));
        self.next_ifd_at = layout.next_ifd_at;
        self.previous_next_ifd_field_at = Some(layout.next_ifd_field_at);
        Ok((link, TiffWrite { at: layout.ifd_at, bytes }))
    }

    /// The writes that add an image to the document. Its layout is checked before its pixels are
    /// converted.
    pub fn write_image(&mut self, image: &ImageBuffer, has_next_page: bool, dpi: Option<u32>) -> (r:
        Result<(Option<TiffWrite>, TiffWrite), ScanError>)
        requires
            image@.wf(),
        ensures
            match planned_page(old(self).next_ifd_at as int, rgb_frame(image@), has_next_page) {
                Err(failure) => r is Err && r->Err_0@ == failure && *final(self) == *old(self),
                Ok(layout) => r is Ok && final(self).next_ifd_at == layout.next_ifd_at
                    && final(self).previous_next_ifd_field_at == Some(layout.next_ifd_field_at)
                    && are_page_writes(
                    r->Ok_0,
                    old(self).previous_next_ifd_field_at,
                    rgb_frame(image@),
                    layout,
                    page_resolution(dpi),
                ),
            },
    {
        match self.preflight_page(image.width, image.height, has_next_page) {
            Ok(_layout) => {},
            Err(error) => {
                return Err(error);
            },
        }
        proof {
            lemma_rgb_len(image@);
        }
        let frame = image_buffer_to_rgb(image);
        self.write_rgb_frame(&frame, has_next_page, dpi)
    }
}

fn write_at(file: &mut Vec<u8>, at: usize, bytes: &Vec<u8>)
    requires
        at + bytes@.len() <= usize::MAX,
    ensures
        final(file)@ == written(old(file)@, at as int, bytes@),
{
    let ghost start = file@;
    let ghost goal = written(start, at as int, bytes@);
    let total: usize = bytes.len();
    while file.len() < at
        invariant
            start.len() <= file@.len(),
            file@.len() <= at || file@ == start,
            forall|k: int| 0 <= k < start.len() ==> file@[k] == start[k],
            forall|k: int| start.len() <= k < file@.len() ==> file@[k] == 0,
        decreases at - file@.len(),
    {
        file.push(0);
    }
    let ghost padded = file@;
    let mut i: usize = 0;
    while i < total
        invariant
            total == bytes@.len(),
            at + total <= usize::MAX,
            i <= total,
            at <= padded.len(),
            start.len() <= padded.len(),
            padded.len() == start.len() || padded.len() == at,
            forall|k: int| 0 <= k < start.len() ==> padded[k] == start[k],
            forall|k: int| start.len() <= k < padded.len() ==> padded[k] == 0,
            file@.len() == if at + i > padded.len() {
                at + i
            } else {
                padded.len() as int
            },
            forall|k: int| 0 <= k < padded.len() && !(at <= k < at + i) ==> file@[k] == padded[k],
            forall|k: int| at <= k < at + i ==> file@[k] == bytes@[k - at],
        decreases total - i,
    {
        let here: usize = at + i;
        if here < file.len() {
            file.set(here, bytes[i]);
        } else {
            file.push(bytes[i]);
        }
        i += 1;
    }
    assert(file@.len() == goal.len());
    assert forall|k: int| 0 <= k < goal.len() implies file@[k] == goal[k] by {
        if at <= k < at + total {
        } else if k < start.len() {
            assert(padded[k] == start[k]);
        } else {
            assert(k < padded.len());
            assert(padded[k] == 0);
        }
    }
    assert(file@ =~= goal);
}

/// The document of `total` pages, of which the first `n` are written.
pub open spec fn sheet_of(frames: Seq<Frame>, total: int, resolution: int, n: int) -> Result<
    Sheet,
    Failure,
>
    decreases n,
{
    if n <= 0 {
        Ok(empty_sheet())
    } else {
        match sheet_of(frames, total, resolution, n - 1) {
            Err(failure) => Err(failure),
            Ok(sheet) => with_page(sheet, frames[n - 1], n < total, resolution),
        }
    }
}

/// The bytes of the document of some pages.
pub open spec fn tiff_document(frames: Seq<Frame>, resolution: int) -> Result<Seq<u8>, Failure> {
    if frames.len() == 0 {
        Err(Failure::Invalid("save_multipage_tiff requires at least one page"@))
    } else {
        match sheet_of(frames, frames.len() as int, resolution, frames.len() as int) {
            Ok(sheet) => Ok(sheet.file),
            Err(failure) => Err(failure),
        }
    }
}

/// The pages of some images.
pub open spec fn pages_of(images: Seq<ImageBuffer>) -> Seq<Frame> {
    images.map_values(|i: ImageBuffer| rgb_frame(i@))
}

/// The failure of cancelled publication.
pub open spec fn tiff_cancelled() -> Failure {
    Failure::Cancelled("TIFF publication cancelled"@)
}

/// Ends publication once it was cancelled.
pub fn check_tiff_cancellation(cancelled: bool) -> (r: Result<(), ScanError>)
    ensures
        outcome(r) == if cancelled {
            Err::<(), Failure>(tiff_cancelled())
        } else {
            Ok::<(), Failure>(())
        },
{
    if cancelled {
        Err(crate::error::cancelled("TIFF publication cancelled"))
    } else {
        Ok(())
    }
}

/// An entry has 12 bytes, the last four of which are its value.
proof fn lemma_entry(tag: int, typ: int, count: int, value: int)
    ensures
        entry_bytes(tag, typ, count, value).len() == 12,
        entry_bytes(tag, typ, count, value).subrange(8, 12) == le32(value),
{
    reveal(entry_bytes);
    assert(entry_bytes(tag, typ, count, value).subrange(8, 12) =~= le32(value));
}

/// A directory with an entry behind what stands before it.
proof fn lemma_add_entry(before: Seq<u8>, tag: int, typ: int, count: int, value: int)
    ensures
        (before + entry_bytes(tag, typ, count, value)).len() == before.len() as int + 12,
        (before + entry_bytes(tag, typ, count, value)).subrange(
            before.len() as int + 8,
            before.len() as int + 12,
        ) == le32(value),
{
    lemma_entry(tag, typ, count, value);
    let e = entry_bytes(tag, typ, count, value);
    assert((before + e).subrange(before.len() as int + 8, before.len() as int + 12) =~= e.subrange(8, 12));
}

/// The parts of a directory: 150 bytes, with its numbers at their places.
proof fn lemma_ifd(width: int, height: int, layout: TiffPageLayout, link: int)
    ensures
        ifd_bytes(width, height, layout, link).len() == 150,
        ifd_bytes(width, height, layout, link).subrange(10, 14) == le32(width),
        ifd_bytes(width, height, layout, link).subrange(22, 26) == le32(height),
        ifd_bytes(width, height, layout, link).subrange(70, 74) == le32(layout.strip_at as int),
        ifd_bytes(width, height, layout, link).subrange(106, 110) == le32(layout.strip_len as int),
        ifd_bytes(width, height, layout, link).subrange(146, 150) == le32(link),
        ifd_bytes(width, height, layout, link).take(146) == ifd_bytes(width, height, layout, 0).take(
            146,
        ),
{
    let s0 = le16(12);
    lemma_add_entry(s0, 256, 4, 1, width);
    let s1 = s0 + entry_bytes(256, 4, 1, width);
    lemma_add_entry(s1, 257, 4, 1, height);
    let s2 = s1 + entry_bytes(257, 4, 1, height);
    lemma_add_entry(s2, 258, 3, 3, layout.bps_at as int);
    let s3 = s2 + entry_bytes(258, 3, 3, layout.bps_at as int);
    lemma_add_entry(s3, 259, 3, 1, 1);
    let s4 = s3 + entry_bytes(259, 3, 1, 1);
    lemma_add_entry(s4, 262, 3, 1, 2);
    let s5 = s4 + entry_bytes(262, 3, 1, 2);
    lemma_add_entry(s5, 273, 4, 1, layout.strip_at as int);
    let s6 = s5 + entry_bytes(273, 4, 1, layout.strip_at as int);
    lemma_add_entry(s6, 277, 3, 1, 3);
    let s7 = s6 + entry_bytes(277, 3, 1, 3);
    lemma_add_entry(s7, 278, 4, 1, height);
    let s8 = s7 + entry_bytes(278, 4, 1, height);
    lemma_add_entry(s8, 279, 4, 1, layout.strip_len as int);
    let s9 = s8 + entry_bytes(279, 4, 1, layout.strip_len as int);
    lemma_add_entry(s9, 282, 5, 1, layout.xres_at as int);
    let s10 = s9 + entry_bytes(282, 5, 1, layout.xres_at as int);
    lemma_add_entry(s10, 283, 5, 1, layout.yres_at as int);
    let s11 = s10 + entry_bytes(283, 5, 1, layout.yres_at as int);
    lemma_add_entry(s11, 296, 3, 1, 2);
    let s12 = s11 + entry_bytes(296, 3, 1, 2);
    let whole = s12 + le32(link);
    assert(whole == ifd_bytes(width, height, layout, link)) by {
        reveal(ifd_bytes);
    }
    let plain = s12 + le32(0);
    assert(plain == ifd_bytes(width, height, layout, 0)) by {
        reveal(ifd_bytes);
    }
    assert(whole.take(whole.len() as int) =~= whole);
    assert(plain.take(plain.len() as int) =~= plain);
    lemma_head(s12, le32(link), whole);
    lemma_head(s12, le32(0), plain);
    lemma_head(s11, entry_bytes(296, 3, 1, 2), whole);
    lemma_head(s10, entry_bytes(283, 5, 1, layout.yres_at as int), whole);
    lemma_head(s9, entry_bytes(282, 5, 1, layout.xres_at as int), whole);
    lemma_head(s8, entry_bytes(279, 4, 1, layout.strip_len as int), whole);
    lemma_head(s7, entry_bytes(278, 4, 1, height), whole);
    lemma_head(s6, entry_bytes(277, 3, 1, 3), whole);
    lemma_head(s5, entry_bytes(273, 4, 1, layout.strip_at as int), whole);
    lemma_head(s4, entry_bytes(262, 3, 1, 2), whole);
    lemma_head(s3, entry_bytes(259, 3, 1, 1), whole);
    lemma_head(s2, entry_bytes(258, 3, 3, layout.bps_at as int), whole);
    lemma_head(s1, entry_bytes(257, 4, 1, height), whole);
    lemma_shared_part(s1, whole, 10, 14);
    lemma_shared_part(s2, whole, 22, 26);
    lemma_shared_part(s6, whole, 70, 74);
    lemma_shared_part(s9, whole, 106, 110);
    lemma_tail(s12, le32(link));
}

/// What begins with a sum begins with its first part.
proof fn lemma_head(a: Seq<u8>, b: Seq<u8>, whole: Seq<u8>)
    requires
        (a + b).len() <= whole.len(),
        whole.take((a + b).len() as int) == a + b,
    ensures
        whole.take(a.len() as int) == a,
{
    assert forall|k: int| 0 <= k < a.len() implies whole[k] == a[k] by {
        assert((a + b)[k] == a[k]);
        assert(whole.take((a + b).len() as int)[k] == whole[k]);
    }
    assert(whole.take(a.len() as int) =~= a);
}

/// The end of a sum is its second part, and all of it its beginning.
proof fn lemma_tail(a: Seq<u8>, b: Seq<u8>)
    ensures
        (a + b).subrange(a.len() as int, (a + b).len() as int) == b,
{
    assert((a + b).subrange(a.len() as int, (a + b).len() as int) =~= b);
}

/// A part of a leading part is a part of the whole.
proof fn lemma_shared_part(head: Seq<u8>, whole: Seq<u8>, i: int, j: int)
    requires
        0 <= i <= j <= head.len() <= whole.len(),
        whole.take(head.len() as int) == head,
    ensures
        whole.subrange(i, j) == head.subrange(i, j),
{
    assert forall|k: int| i <= k < j implies whole[k] == head[k] by {
        assert(whole.take(head.len() as int)[k] == whole[k]);
    }
    assert(whole.subrange(i, j) =~= head.subrange(i, j));
}

/// A page has 172 bytes and its pixels.
proof fn lemma_page_len(frame: Frame, layout: TiffPageLayout, resolution: int, link: int)
    ensures
        page_bytes(frame, layout, resolution, link).len() == 172 + frame.data.len(),
{
    reveal(page_bytes);
    lemma_ifd(frame.width as int, frame.height as int, layout, link);
}

/// A document in memory and its writer.
struct Booklet {
    writer: TiffStreamWriter,
    file: Vec<u8>,
}

impl Booklet {
    spec fn sheet(&self) -> Sheet {
        Sheet {
            file: self.file@,
            next_ifd_at: self.writer.next_ifd_at,
            previous_field_at: self.writer.previous_next_ifd_field_at,
        }
    }

    fn new() -> (r: Self)
        ensures
            r.sheet() == empty_sheet(),
            r.linkable(),
    {
        let (writer, file) = TiffStreamWriter::new();
        Booklet { writer, file }
    }

    /// Whether the offset of a page can be written into the page before it.
    spec fn linkable(&self) -> bool {
        self.writer.previous_next_ifd_field_at matches Some(at) ==> at + 4 <= u32::MAX
    }

    fn add(&mut self, frame: &RgbFrame, has_next_page: bool, dpi: Option<u32>) -> (r: Result<
        (),
        ScanError,
    >)
        requires
            old(self).linkable(),
        ensures
            r is Ok ==> final(self).linkable(),
            match with_page(old(self).sheet(), frame@, has_next_page, page_resolution(dpi)) {
                Ok(sheet) => r is Ok && final(self).sheet() == sheet,
                Err(failure) => r is Err && r->Err_0@ == failure,
            },
    {
        let ghost before = self.sheet();
        proof {
            reveal(with_page);
        }
        match self.writer.write_rgb_frame(frame, has_next_page, dpi) {
            Err(error) => Err(error),
            Ok((link, page)) => {
                proof {
                    let layout = planned_page(before.next_ifd_at as int, frame@, has_next_page)->Ok_0;
                    lemma_page_len(frame@, layout, page_resolution(dpi), 0);
                }
                match link {
                    Some(link) => {
                        write_at(&mut self.file, link.at as usize, &link.bytes);
                    },
                    None => {},
                }
                write_at(&mut self.file, page.at as usize, &page.bytes);
                Ok(())
            },
        }
    }
}

/// Whether the document of some pages failed at a page which is added behind a point that was passed.
pub open spec fn fails_at(
    frames: Seq<Frame>,
    resolution: int,
    polls: Polls,
    course: Course,
    at: PollPoint,
) -> bool {
    let k = at.pages_before(course);
    &&& at.belongs(course)
    &&& polls.passed(at, course)
    &&& sheet_of(frames, course.pages, resolution, k) is Ok
    &&& sheet_of(frames, course.pages, resolution, k + 1) is Err
}

/// What publication of pages gives: the document of all of them where every poll let it go on, the
/// failure of the first page that fails, behind the polls before it, or the failure of cancelled
/// publication, at the first poll that stopped it and with no failed page before.
pub open spec fn published_document(
    r: Result<Seq<u8>, Failure>,
    frames: Seq<Frame>,
    resolution: int,
    polls: Polls,
) -> bool {
    let course = Course { pages: frames.len() as int, stored: false };
    let document = tiff_document(frames, resolution);
    if frames.len() == 0 {
        r == document
    } else {
        ||| {
            &&& r == Err::<Seq<u8>, Failure>(tiff_cancelled())
            &&& exists|at: PollPoint| #[trigger]
                polls.stopped(at, course) && sheet_of(
                    frames,
                    course.pages,
                    resolution,
                    at.pages_before(course),
                ) is Ok
        }
        ||| {
            &&& r == document
            &&& document is Ok ==> polls.finished(course)
            &&& document is Err ==> exists|at: PollPoint| #[trigger]
                fails_at(frames, resolution, polls, course, at)
        }
    }
}

/// Once a page has failed, the document has.
proof fn lemma_failed(frames: Seq<Frame>, total: int, resolution: int, k: int, n: int)
    requires
        k <= n,
        sheet_of(frames, total, resolution, k) is Err,
    ensures
        sheet_of(frames, total, resolution, n) == sheet_of(frames, total, resolution, k),
    decreases n,
{
    if k < n && n > 0 {
        lemma_failed(frames, total, resolution, k, n - 1);
    }
}

/// Combines images into the bytes of one multipage TIFF, one directory per page.
pub fn save_multipage_tiff(images: &Vec<ImageBuffer>, dpi: Option<u32>) -> (r: Result<
    Vec<u8>,
    ScanError,
>)
    requires
        forall|i: int| 0 <= i < images@.len() ==> (#[trigger] images@[i])@.wf(),
    ensures
        crate::error::outcome_view(r) == tiff_document(pages_of(images@), page_resolution(dpi)),
{
    let never = |_point: PollPoint| -> (stop: bool)
        ensures
            !stop,
        { false };
    proof {
        lemma_never_stopped(never);
    }
    save_multipage_tiff_with_cancellation(images, dpi, never)
}

/// Combines images while polling for cancellation before the document is begun, before each page and
/// before the document is handed out.
pub fn save_multipage_tiff_with_cancellation<C: Fn(PollPoint) -> bool>(
    images: &Vec<ImageBuffer>,
    dpi: Option<u32>,
    poll: C,
) -> (r: Result<Vec<u8>, ScanError>)
    requires
        forall|i: int| 0 <= i < images@.len() ==> (#[trigger] images@[i])@.wf(),
        can_poll(poll),
    ensures
        published_document(
            crate::error::outcome_view(r),
            pages_of(images@),
            page_resolution(dpi),
            polls_of(poll),
        ),
{
    let total: usize = images.len();
    let ghost frames = pages_of(images@);
    let ghost resolution = page_resolution(dpi);
    let ghost polls = polls_of(poll);
    let ghost course = Course { pages: total as int, stored: false };
    assert(frames.len() == total);
    if total == 0 {
        return Err(invalid("save_multipage_tiff requires at least one page"));
    }
    match check_tiff_cancellation(poll(PollPoint::Begin)) {
        Ok(()) => {},
        Err(error) => {
            assert(polls.stopped(PollPoint::Begin, course));
            return Err(error);
        },
    }
    let mut booklet = Booklet::new();
    let mut i: usize = 0;
    while i < total
        invariant
            i <= total,
            total == images@.len(),
            total > 0,
            frames == pages_of(images@),
            frames.len() == total,
            resolution == page_resolution(dpi),
            forall|j: int| 0 <= j < images@.len() ==> (#[trigger] images@[j])@.wf(),
            booklet.linkable(),
            sheet_of(frames, total as int, resolution, i as int) == Ok::<Sheet, Failure>(
                booklet.sheet(),
            ),
            can_poll(poll),
            polls == polls_of(poll),
            course == (Course { pages: total as int, stored: false }),
            polls.reached(PollPoint::Page(i), course),
        decreases total - i,
    {
        match check_tiff_cancellation(poll(PollPoint::Page(i))) {
            Ok(()) => {},
            Err(error) => {
                assert(polls.stopped(PollPoint::Page(i), course));
                return Err(error);
            },
        }
        assert(frames[i as int] == rgb_frame(images@[i as int]@));
        let added = add_image(&mut booklet, &images[i], i + 1 < total, dpi);
        match added {
            Ok(()) => {},
            Err(error) => {
                proof {
                    lemma_failed(frames, total as int, resolution, i + 1, total as int);
                    assert(fails_at(frames, resolution, polls, course, PollPoint::Page(i)));
                }
                return Err(error);
            },
        }
        i += 1;
    }
    match check_tiff_cancellation(poll(PollPoint::End)) {
        Ok(()) => {},
        Err(error) => {
            assert(polls.stopped(PollPoint::End, course));
            return Err(error);
        },
    }
    Ok(booklet.file)
}

fn add_image(booklet: &mut Booklet, image: &ImageBuffer, has_next_page: bool, dpi: Option<u32>) -> (r:
    Result<(), ScanError>)
    requires
        image@.wf(),
        old(booklet).linkable(),
    ensures
        r is Ok ==> final(booklet).linkable(),
        match with_page(
            old(booklet).sheet(),
            rgb_frame(image@),
            has_next_page,
            page_resolution(dpi),
        ) {
            Ok(sheet) => r is Ok && final(booklet).sheet() == sheet,
            Err(failure) => r is Err && r->Err_0@ == failure,
        },
{
    proof {
        reveal(with_page);
    }
    match booklet.writer.preflight_page(image.width, image.height, has_next_page) {
        Ok(_layout) => {},
        Err(error) => {
            return Err(error);
        },
    }
    proof {
        lemma_rgb_len(image@);
    }
    let frame = image_buffer_to_rgb(image);
    booklet.add(&frame, has_next_page, dpi)
}

/// Whether a frame is what loading a page and transforming it can make.
pub open spec fn page_made<
    L: Fn(usize) -> Result<ImageBuffer, ScanError>,
    F: Fn(&ImageBuffer) -> Result<ImageBuffer, ScanError>,
>(load: L, transform: F, i: int, frame: Frame) -> bool {
    exists|image: ImageBuffer, out: ImageBuffer|
        #![trigger call_ensures(transform, (&image,), Ok::<ImageBuffer, ScanError>(out))]
        call_ensures(load, (i as usize,), Ok::<ImageBuffer, ScanError>(image)) && call_ensures(
            transform,
            (&image,),
            Ok::<ImageBuffer, ScanError>(out),
        ) && rgb_frame(out@) == frame
}

/// Whether a failure is what loading a page can give.
pub open spec fn load_refused<L: Fn(usize) -> Result<ImageBuffer, ScanError>>(
    load: L,
    i: int,
    failure: Failure,
) -> bool {
    exists|error: ScanError| #[trigger]
        call_ensures(load, (i as usize,), Err::<ImageBuffer, ScanError>(error)) && error@
            == failure
}

/// Whether a failure is what transforming a page that was loaded can give.
pub open spec fn transform_refused<
    L: Fn(usize) -> Result<ImageBuffer, ScanError>,
    F: Fn(&ImageBuffer) -> Result<ImageBuffer, ScanError>,
>(load: L, transform: F, i: int, failure: Failure) -> bool {
    exists|image: ImageBuffer, error: ScanError|
        #![trigger call_ensures(transform, (&image,), Err::<ImageBuffer, ScanError>(error))]
        call_ensures(load, (i as usize,), Ok::<ImageBuffer, ScanError>(image)) && call_ensures(
            transform,
            (&image,),
            Err::<ImageBuffer, ScanError>(error),
        ) && error@ == failure
}

/// Whether the page at a point can have been loaded, or loaded and transformed, as far as the point
/// lies behind that.
pub open spec fn page_prepared<
    L: Fn(usize) -> Result<ImageBuffer, ScanError>,
    F: Fn(&ImageBuffer) -> Result<ImageBuffer, ScanError>,
>(load: L, transform: F, at: PollPoint) -> bool {
    match at {
        PollPoint::Loaded(i) => exists|image: ImageBuffer| #[trigger]
            call_ensures(load, (i,), Ok::<ImageBuffer, ScanError>(image)),
        PollPoint::Transformed(i) => exists|frame: Frame| #[trigger]
            page_made(load, transform, i as int, frame),
        _ => true,
    }
}

/// Whether a result is that of a document whose pages were loaded and transformed one by one, the
/// given frames being the pages that were made: all of them where the document is published, which
/// it is only where every poll let it go on, and else those before the first failure or before the
/// first poll that stopped it.
pub open spec fn document_run<
    L: Fn(usize) -> Result<ImageBuffer, ScanError>,
    F: Fn(&ImageBuffer) -> Result<ImageBuffer, ScanError>,
>(
    frames: Seq<Frame>,
    r: Result<Seq<u8>, Failure>,
    page_count: int,
    load: L,
    transform: F,
    resolution: int,
    polls: Polls,
) -> bool {
    let made = frames.len() as int;
    let course = Course { pages: page_count, stored: true };
    let sheet = sheet_of(frames, page_count, resolution, made);
    &&& made <= page_count
    &&& forall|i: int| 0 <= i < made ==> page_made(load, transform, i, #[trigger] frames[i])
    &&& {
        ||| {
            &&& r == Err::<Seq<u8>, Failure>(tiff_cancelled())
            &&& sheet is Ok
            &&& exists|at: PollPoint| #[trigger]
                polls.stopped(at, course) && at.pages_before(course) == made && page_prepared(
                    load,
                    transform,
                    at,
                )
        }
        ||| {
            &&& r is Ok
            &&& polls.finished(course)
            &&& made == page_count
            &&& r == tiff_document(frames, resolution)
        }
        ||| {
            &&& r is Err
            &&& made < page_count
            &&& sheet is Ok
            &&& polls.passed(PollPoint::Page(made as usize), course)
            &&& load_refused(load, made, r->Err_0)
        }
        ||| {
            &&& r is Err
            &&& made < page_count
            &&& sheet is Ok
            &&& polls.passed(PollPoint::Loaded(made as usize), course)
            &&& transform_refused(load, transform, made, r->Err_0)
        }
        ||| {
            &&& r is Err
            &&& 0 < made
            &&& polls.passed(PollPoint::Transformed((made - 1) as usize), course)
            &&& sheet_of(frames, page_count, resolution, made - 1) is Ok
            &&& sheet == Err::<Sheet, Failure>(r->Err_0)
        }
    }
}

/// Whether a loader and a transform can be called for every page and give whole images.
pub open spec fn sound_source<
    L: Fn(usize) -> Result<ImageBuffer, ScanError>,
    F: Fn(&ImageBuffer) -> Result<ImageBuffer, ScanError>,
>(load: L, transform: F, page_count: int) -> bool {
    &&& forall|i: usize| i < page_count ==> #[trigger] call_requires(load, (i,))
    &&& forall|image: ImageBuffer| #[trigger] call_requires(transform, (&image,))
    &&& forall|image: ImageBuffer, out: ImageBuffer| #[trigger]
        call_ensures(transform, (&image,), Ok::<ImageBuffer, ScanError>(out)) ==> out@.wf()
}

/// Combines page files after applying an export-time transform to every page.
pub fn save_multipage_tiff_from_paths_with_transform<
    L: Fn(usize) -> Result<ImageBuffer, ScanError>,
    F: Fn(&ImageBuffer) -> Result<ImageBuffer, ScanError>,
>(page_count: usize, load: L, dpi: Option<u32>, transform: F) -> (r: Result<Vec<u8>, ScanError>)
    requires
        sound_source(load, transform, page_count as int),
    ensures
        page_count == 0 ==> crate::error::outcome_view(r) == Err::<Seq<u8>, Failure>(
            Failure::Invalid("save_multipage_tiff requires at least one page"@),
        ),
        page_count > 0 ==> exists|frames: Seq<Frame>| #[trigger]
            document_run(
                frames,
                crate::error::outcome_view(r),
                page_count as int,
                load,
                transform,
                page_resolution(dpi),
                uncancelled(),
            ),
{
    let never = |_point: PollPoint| -> (stop: bool)
        ensures
            !stop,
        { false };
    let r = save_multipage_tiff_from_paths_with_transform_and_cancellation(
        page_count,
        load,
        dpi,
        transform,
        never,
    );
    proof {
        lemma_never_stopped(never);
        if page_count > 0 {
            let frames = choose|frames: Seq<Frame>| #[trigger]
                document_run(
                    frames,
                    crate::error::outcome_view(r),
                    page_count as int,
                    load,
                    transform,
                    page_resolution(dpi),
                    polls_of(never),
                );
            assert(document_run(
                frames,
                crate::error::outcome_view(r),
                page_count as int,
                load,
                transform,
                page_resolution(dpi),
                uncancelled(),
            ));
        }
    }
    r
}

/// Combines transformed page files. Cancellation is polled before the document is begun, before every
/// page, after it was loaded, after it was transformed, and before the document is handed out.
pub fn save_multipage_tiff_from_paths_with_transform_and_cancellation<
    L: Fn(usize) -> Result<ImageBuffer, ScanError>,
    F: Fn(&ImageBuffer) -> Result<ImageBuffer, ScanError>,
    C: Fn(PollPoint) -> bool,
>(page_count: usize, load: L, dpi: Option<u32>, transform: F, poll: C) -> (r: Result<
    Vec<u8>,
    ScanError,
>)
    requires
        sound_source(load, transform, page_count as int),
        can_poll(poll),
    ensures
        page_count == 0 ==> crate::error::outcome_view(r) == Err::<Seq<u8>, Failure>(
            Failure::Invalid("save_multipage_tiff requires at least one page"@),
        ),
        page_count > 0 ==> exists|frames: Seq<Frame>| #[trigger]
            document_run(
                frames,
                crate::error::outcome_view(r),
                page_count as int,
                load,
                transform,
                page_resolution(dpi),
                polls_of(poll),
            ),
{
    if page_count == 0 {
        return Err(invalid("save_multipage_tiff requires at least one page"));
    }
    let ghost n = page_count as int;
    let ghost resolution = page_resolution(dpi);
    let ghost polls = polls_of(poll);
    let ghost course = Course { pages: n, stored: true };
    let mut booklet = Booklet::new();
    let ghost mut frames: Seq<Frame> = Seq::empty();
    match check_tiff_cancellation(poll(PollPoint::Begin)) {
        Ok(()) => {},
        Err(error) => {
            let r: Result<Vec<u8>, ScanError> = Err(error);
            assert(polls.stopped(PollPoint::Begin, course));
            assert(document_run(
                frames,
                crate::error::outcome_view(r),
                n,
                load,
                transform,
                resolution,
                polls,
            ));
            return r;
        },
    }
    let mut i: usize = 0;
    while i < page_count
        invariant
            i <= page_count,
            page_count > 0,
            n == page_count,
            resolution == page_resolution(dpi),
            polls == polls_of(poll),
            course == (Course { pages: n, stored: true }),
            polls.reached(PollPoint::Page(i), course),
            can_poll(poll),
            sound_source(load, transform, n),
            frames.len() == i,
            forall|j: int|
                0 <= j < i ==> page_made(load, transform, j, #[trigger] frames[j]),
            booklet.linkable(),
            sheet_of(frames, n, resolution, i as int) == Ok::<Sheet, Failure>(booklet.sheet()),
        decreases page_count - i,
    {
        match check_tiff_cancellation(poll(PollPoint::Page(i))) {
            Ok(()) => {},
            Err(error) => {
                let r: Result<Vec<u8>, ScanError> = Err(error);
                assert(polls.stopped(PollPoint::Page(i), course));
                assert(document_run(
                    frames,
                    crate::error::outcome_view(r),
                    n,
                    load,
                    transform,
                    resolution,
                    polls,
                ));
                return r;
            },
        }
        assert((i as int) as usize == i);
        let image = match load(i) {
            Ok(image) => image,
            Err(error) => {
                let r: Result<Vec<u8>, ScanError> = Err(error);
                assert(load_refused(load, i as int, error@));
                assert(document_run(
                    frames,
                    crate::error::outcome_view(r),
                    n,
                    load,
                    transform,
                    resolution,
                    polls,
                ));
                return r;
            },
        };
        match check_tiff_cancellation(poll(PollPoint::Loaded(i))) {
            Ok(()) => {},
            Err(error) => {
                let r: Result<Vec<u8>, ScanError> = Err(error);
                assert(polls.stopped(PollPoint::Loaded(i), course));
                assert(document_run(
                    frames,
                    crate::error::outcome_view(r),
                    n,
                    load,
                    transform,
                    resolution,
                    polls,
                ));
                return r;
            },
        }
        let page = match transform(&image) {
            Ok(page) => page,
            Err(error) => {
                let r: Result<Vec<u8>, ScanError> = Err(error);
                assert(transform_refused(load, transform, i as int, error@));
                assert(document_run(
                    frames,
                    crate::error::outcome_view(r),
                    n,
                    load,
                    transform,
                    resolution,
                    polls,
                ));
                return r;
            },
        };
        match check_tiff_cancellation(poll(PollPoint::Transformed(i))) {
            Ok(()) => {},
            Err(error) => {
                let r: Result<Vec<u8>, ScanError> = Err(error);
                assert(polls.stopped(PollPoint::Transformed(i), course));
                assert(page_made(load, transform, i as int, rgb_frame(page@)));
                assert(document_run(
                    frames,
                    crate::error::outcome_view(r),
                    n,
                    load,
                    transform,
                    resolution,
                    polls,
                ));
                return r;
            },
        }
        let ghost before = frames;
        proof {
            frames = frames.push(rgb_frame(page@));
            assert(page_made(load, transform, i as int, frames[i as int]));
            lemma_same_sheet(before, frames, n, resolution, i as int);
        }
        match add_image(&mut booklet, &page, i + 1 < page_count, dpi) {
            Ok(()) => {},
            Err(error) => {
                let r: Result<Vec<u8>, ScanError> = Err(error);
                assert(document_run(
                    frames,
                    crate::error::outcome_view(r),
                    n,
                    load,
                    transform,
                    resolution,
                    polls,
                ));
                return r;
            },
        }
        i += 1;
    }
    match check_tiff_cancellation(poll(PollPoint::End)) {
        Ok(()) => {},
        Err(error) => {
            let r: Result<Vec<u8>, ScanError> = Err(error);
            assert(polls.stopped(PollPoint::End, course));
            assert(document_run(
                frames,
                crate::error::outcome_view(r),
                n,
                load,
                transform,
                resolution,
                polls,
            ));
            return r;
        },
    }
    let r: Result<Vec<u8>, ScanError> = Ok(booklet.file);
    assert(document_run(
        frames,
        crate::error::outcome_view(r),
        n,
        load,
        transform,
        resolution,
        polls,
    ));
    r
}

/// A document of stored pages is not published where the poll at some point of it cannot answer that
/// the work goes on: it ends with no page behind that point, and with the failure of cancelled
/// publication where no page can fail.
pub proof fn cancelled_documents_are_not_published<
    L: Fn(usize) -> Result<ImageBuffer, ScanError>,
    F: Fn(&ImageBuffer) -> Result<ImageBuffer, ScanError>,
>(
    frames: Seq<Frame>,
    r: Result<Seq<u8>, Failure>,
    page_count: int,
    load: L,
    transform: F,
    resolution: int,
    polls: Polls,
    at: PollPoint,
)
    requires
        document_run(frames, r, page_count, load, transform, resolution, polls),
        page_count <= usize::MAX,
        at.belongs(Course { pages: page_count, stored: true }),
        !(polls.goes_on)(at),
    ensures
        r is Err,
        frames.len() <= at.pages_before(Course { pages: page_count, stored: true }),
        (forall|i: int, failure: Failure| !#[trigger] load_refused(load, i, failure)) && (forall|
            i: int,
            failure: Failure,
        | !#[trigger] transform_refused(load, transform, i, failure)) && sheet_of(
            frames,
            page_count,
            resolution,
            frames.len() as int,
        ) is Ok ==> r == Err::<Seq<u8>, Failure>(tiff_cancelled()),
{
    let course = Course { pages: page_count, stored: true };
    if polls.finished(course) {
        finished_passed_every_point(polls, course, at);
    }
}

/// The first pages of a document depend on those pages alone.
proof fn lemma_same_sheet(a: Seq<Frame>, b: Seq<Frame>, total: int, resolution: int, n: int)
    requires
        forall|i: int| 0 <= i < n ==> a[i] == b[i],
    ensures
        sheet_of(a, total, resolution, n) == sheet_of(b, total, resolution, n),
    decreases n,
{
    if n > 0 {
        lemma_same_sheet(a, b, total, resolution, n - 1);
    }
}

/// Combines frames into the bytes of one multipage TIFF.
pub fn write_multipage_tiff_rgb(frames: &Vec<RgbFrame>, dpi: Option<u32>) -> (r: Result<
    Vec<u8>,
    ScanError,
>)
    ensures
        crate::error::outcome_view(r) == if frames@.len() == 0 {
            Err::<Seq<u8>, Failure>(
                Failure::Invalid("write_multipage_tiff_rgb requires at least one page"@),
            )
        } else {
            tiff_document(frames_of(frames@), page_resolution(dpi))
        },
{
    let total: usize = frames.len();
    let ghost all = frames_of(frames@);
    let ghost resolution = page_resolution(dpi);
    if total == 0 {
        return Err(invalid("write_multipage_tiff_rgb requires at least one page"));
    }
    let mut booklet = Booklet::new();
    let mut i: usize = 0;
    while i < total
        invariant
            i <= total,
            total == frames@.len(),
            all == frames_of(frames@),
            all.len() == total,
            resolution == page_resolution(dpi),
            booklet.linkable(),
            sheet_of(all, total as int, resolution, i as int) == Ok::<Sheet, Failure>(
                booklet.sheet(),
            ),
        decreases total - i,
    {
        assert(all[i as int] == frames@[i as int]@);
        match booklet.add(&frames[i], i + 1 < total, dpi) {
            Ok(()) => {},
            Err(error) => {
                proof {
                    lemma_failed(all, total as int, resolution, i + 1, total as int);
                }
                return Err(error);
            },
        }
        i += 1;
    }
    Ok(booklet.file)
}

// ---------------------------------------------------------------------------
// Appending
// ---------------------------------------------------------------------------

/// How the samples of a decoded page are stored.
#[derive(Debug, Clone, Copy, PartialEq, Eq, Structural)]
pub enum TiffColor {
    Rgb8,
    Gray8,
    Unsupported,
}

/// The RGB bytes of the decoded pages with one more; only 8-bit gray and RGB pages are taken.
pub fn accept_tiff_frame(aggregate: usize, width: u32, height: u32, color: TiffColor) -> (r: Result<
    usize,
    ScanError,
>)
    ensures
        match r {
            Ok(total) => color != TiffColor::Unsupported && frame_aggregate(
                aggregate as int,
                width as int,
                height as int,
            ) == Ok::<int, Failure>(total as int),
            Err(error) => if color == TiffColor::Unsupported {
                error@ == Failure::Image("TIFF append supports 8-bit grayscale or RGB pages"@)
            } else {
                frame_aggregate(aggregate as int, width as int, height as int) == Err::<
                    int,
                    Failure,
                >(error@)
            },
        },
{
    if color == TiffColor::Unsupported {
        return Err(
            ScanError::Image("TIFF append supports 8-bit grayscale or RGB pages".to_owned()),
        );
    }
    checked_tiff_frame_aggregate(aggregate, width, height)
}

/// The RGB bytes of decoded samples: gray is repeated.
pub open spec fn decoded_rgb(color: TiffColor, bytes: Seq<u8>) -> Seq<u8> {
    if color == TiffColor::Gray8 {
        Seq::new((bytes.len() * 3) as nat, |k: int| bytes[k / 3])
    } else {
        bytes
    }
}

/// The frame of decoded samples, refused where there are too few.
pub fn tiff_frame(color: TiffColor, width: u32, height: u32, bytes: Vec<u8>) -> (r: Result<
    RgbFrame,
    ScanError,
>)
    requires
        color != TiffColor::Unsupported,
        width * height * 3 <= usize::MAX,
    ensures
        match r {
            Ok(frame) => width * height * 3 <= decoded_rgb(color, bytes@).len() && frame@ == (
            Frame { width, height, data: decoded_rgb(color, bytes@) }),
            Err(error) => width * height * 3 > decoded_rgb(color, bytes@).len() && error@
                == Failure::Image("invalid TIFF frame buffer"@),
        },
{
    let total: usize = bytes.len();
    let data: Vec<u8> = if color == TiffColor::Gray8 {
        let mut out: Vec<u8> = Vec::new();
        let mut i: usize = 0;
        while i < total
            invariant
                i <= total,
                total == bytes@.len(),
                color == TiffColor::Gray8,
                out@ == decoded_rgb(color, bytes@).take(i * 3),
            decreases total - i,
        {
            out.push(bytes[i]);
            out.push(bytes[i]);
            out.push(bytes[i]);
            i += 1;
            assert(out@ =~= decoded_rgb(color, bytes@).take(i * 3));
        }
        assert(out@ =~= decoded_rgb(color, bytes@));
        out
    } else {
        bytes
    };
    proof {
        assert(0 <= width * height <= usize::MAX) by (nonlinear_arith)
            requires
                width * height * 3 <= usize::MAX,
                width >= 0,
                height >= 0,
        ;
    }
    let needed: usize = (width as usize) * (height as usize) * 3;
    if data.len() < needed {
        return Err(ScanError::Image("invalid TIFF frame buffer".to_owned()));
    }
    Ok(RgbFrame { width, height, data })
}

/// What a directory of a document says of its samples.
#[derive(Debug, Clone, Copy, PartialEq, Eq, Structural)]
pub enum TiffSamples {
    Rgb(u8),
    Gray(u8),
    Other,
}

impl TiffSamples {
    pub open spec fn spec_color(self) -> TiffColor {
        match self {
            TiffSamples::Rgb(8) => TiffColor::Rgb8,
            TiffSamples::Gray(8) => TiffColor::Gray8,
            _ => TiffColor::Unsupported,
        }
    }

    /// How the samples are stored, as far as that is supported.
    pub fn color(self) -> (r: TiffColor)
        ensures
            self matches TiffSamples::Rgb(bits) ==> (r is Rgb8 <==> bits == 8),
            self matches TiffSamples::Gray(bits) ==> (r is Gray8 <==> bits == 8),
            r is Rgb8 ==> self is Rgb,
            r is Gray8 ==> self is Gray,
            r == self.spec_color(),
    {
        match self {
            TiffSamples::Rgb(8) => TiffColor::Rgb8,
            TiffSamples::Gray(8) => TiffColor::Gray8,
            _ => TiffColor::Unsupported,
        }
    }
}

/// What a document says of one of its pages, and whether another one follows.
#[derive(Debug, Clone, Copy, PartialEq, Eq, Structural)]
pub struct TiffHeader {
    pub width: u32,
    pub height: u32,
    pub samples: TiffSamples,
    pub more: bool,
}

/// Where reading a page failed.
#[derive(Debug, Clone, Copy, PartialEq, Eq, Structural)]
pub enum TiffStage {
    Open,
    Next,
    Dimensions,
    Color,
    Samples,
}

/// The header of a page of a document, or where and why it cannot be read.
pub uninterp spec fn decoded_header(document: Seq<u8>, index: nat) -> Result<
    TiffHeader,
    (TiffStage, Seq<char>),
>;

/// The samples of a page of a document, absent where they are no bytes, or why they cannot be read.
pub uninterp spec fn decoded_samples(document: Seq<u8>, index: nat) -> Result<
    Option<Seq<u8>>,
    Seq<char>,
>;

/// The most bytes of a strip that the decoder takes.
pub const MAX_DECODED_STRIP: usize = 134_217_728;

/// Whether the decoder takes the pages that a document was written from.
pub open spec fn decodable(frames: Seq<Frame>) -> bool {
    forall|i: int| 0 <= i < frames.len() ==> (#[trigger] frames[i]).data.len() <= MAX_DECODED_STRIP
}

/// The header of a page of a document that was written from some pages.
pub open spec fn header_of(frames: Seq<Frame>, index: int) -> TiffHeader {
    TiffHeader {
        width: frames[index].width,
        height: frames[index].height,
        samples: TiffSamples::Rgb(8),
        more: index + 1 < frames.len(),
    }
}

/// Whether a header is that of a page which the document was written from, if it was written here.
pub open spec fn is_header_read_back(
    document: Seq<u8>,
    index: int,
    r: Result<TiffHeader, (TiffStage, String)>,
) -> bool {
    forall|frames: Seq<Frame>, resolution: int|
        (#[trigger] tiff_document(frames, resolution)) == Ok::<Seq<u8>, Failure>(document) && index
            < frames.len() ==> r == Ok::<TiffHeader, (TiffStage, String)>(header_of(frames, index))
}

/// Whether samples are the pixels of a page which the document was written from, if it was written
/// here and the decoder takes all of its pages.
pub open spec fn are_samples_read_back(
    document: Seq<u8>,
    index: int,
    r: Result<Option<Vec<u8>>, String>,
) -> bool {
    forall|frames: Seq<Frame>, resolution: int|
        (#[trigger] tiff_document(frames, resolution)) == Ok::<Seq<u8>, Failure>(document)
            && decodable(frames) && index < frames.len() ==> r is Ok && r->Ok_0 is Some
            && r->Ok_0->0@ == frames[index].data
}

/// `tiff::decoder::Decoder` on a page: its `dimensions`, its `colortype` and `more_images`, which
/// are functions of the document and of the place of the page. Directories are walked without
/// cycles and each begins within the document, so that a page has fewer pages before it than the
/// document has bytes. Of a document of uncompressed RGB strips, as it is written here, the decoder
/// reads every directory. It multiplies the strips or tiles of the first page and of the page at
/// hand, up to those of each sample, without a check, so that they have to be countable.
#[verifier::external_body]
fn read_header(document: &[u8], index: usize) -> (r: Result<TiffHeader, (TiffStage, String)>)
    requires
        page_fits(document@, 0),
        page_fits(document@, index as nat),
    ensures
        match r {
            Ok(header) => decoded_header(document@, index as nat) == Ok::<
                TiffHeader,
                (TiffStage, Seq<char>),
            >(header),
            Err(trouble) => decoded_header(document@, index as nat) == Err::<
                TiffHeader,
                (TiffStage, Seq<char>),
            >((trouble.0, trouble.1@)),
        },
        r is Ok ==> index < document@.len(),
        is_header_read_back(document@, index as int, r),
{
    let mut decoder = tiff::decoder::Decoder::new(std::io::Cursor::new(document))
        .map_err(|e| (TiffStage::Open, e.to_string()))?;
    decoder.seek_to_image(index).map_err(|e| (TiffStage::Next, e.to_string()))?;
    let (width, height) = decoder.dimensions().map_err(|e| (TiffStage::Dimensions, e.to_string()))?;
    let samples = match decoder.colortype().map_err(|e| (TiffStage::Color, e.to_string()))? {
        tiff::ColorType::RGB(bits) => TiffSamples::Rgb(bits),
        tiff::ColorType::Gray(bits) => TiffSamples::Gray(bits),
        _ => TiffSamples::Other,
    };
    Ok(TiffHeader { width, height, samples, more: decoder.more_images() })
}

/// `tiff::decoder::Decoder::read_image` on a page of 8-bit gray or RGB samples whose header was
/// read and states a size that an image may have: its samples where they are bytes, a function of the document and of the place of the page.
/// Of a document of uncompressed RGB strips, as it is written here, they are the bytes of the strip,
/// where the decoder's limit admits all of them.
#[verifier::external_body]
fn read_samples(document: &[u8], index: usize) -> (r: Result<Option<Vec<u8>>, String>)
    requires
        page_fits(document@, 0),
        page_fits(document@, index as nat),
        decoded_header(document@, index as nat) is Ok,
        decoded_header(document@, index as nat)->Ok_0.samples.spec_color()
            != TiffColor::Unsupported,
        decoded_header(document@, index as nat)->Ok_0.width <= MAX_IMAGE_DIMENSION,
        decoded_header(document@, index as nat)->Ok_0.height <= MAX_IMAGE_DIMENSION,
    ensures
        match r {
            Ok(Some(bytes)) => decoded_samples(document@, index as nat) == Ok::<
                Option<Seq<u8>>,
                Seq<char>,
            >(Some(bytes@)),
            Ok(None) => decoded_samples(document@, index as nat) == Ok::<Option<Seq<u8>>, Seq<char>>(
                None,
            ),
            Err(text) => decoded_samples(document@, index as nat) == Err::<
                Option<Seq<u8>>,
                Seq<char>,
            >(text@),
        },
        are_samples_read_back(document@, index as int, r),
{
    let mut decoder = tiff::decoder::Decoder::new(std::io::Cursor::new(document))
        .map_err(|e| e.to_string())?;
    decoder.seek_to_image(index).map_err(|e| e.to_string())?;
    match decoder.read_image().map_err(|e| e.to_string())? {
        tiff::decoder::DecodingResult::U8(bytes) => Ok(Some(bytes)),
        _ => Ok(None),
    }
}

/// The error about a page that cannot be read.
pub open spec fn stage_failure(stage: TiffStage, text: Seq<char>) -> Failure {
    Failure::Image(
        (match stage {
            TiffStage::Open => "TIFF decode failed: "@,
            TiffStage::Next => "TIFF next frame failed: "@,
            TiffStage::Dimensions => "TIFF dimensions failed: "@,
            TiffStage::Color => "TIFF color type failed: "@,
            TiffStage::Samples => "TIFF frame decode failed: "@,
        }) + text,
    )
}

/// The error about a page that cannot be read.
pub fn stage_error(stage: TiffStage, text: &str) -> (r: ScanError)
    ensures
        r@ == stage_failure(stage, text@),
{
    let prefix = match stage {
        TiffStage::Open => "TIFF decode failed: ",
        TiffStage::Next => "TIFF next frame failed: ",
        TiffStage::Dimensions => "TIFF dimensions failed: ",
        TiffStage::Color => "TIFF color type failed: ",
        TiffStage::Samples => "TIFF frame decode failed: ",
    };
    ScanError::Image(crate::error::joined(prefix, text))
}

/// The RGB bytes of the pages up to one that was announced, or why that page is refused before it
/// is decoded.
pub open spec fn accepted_frame(aggregate: int, header: TiffHeader) -> Result<int, Failure> {
    if header.samples.spec_color() == TiffColor::Unsupported {
        Err(Failure::Image("TIFF append supports 8-bit grayscale or RGB pages"@))
    } else {
        frame_aggregate(aggregate, header.width as int, header.height as int)
    }
}

/// The frame of a page, given its header and its samples.
pub open spec fn decoded_frame(
    header: TiffHeader,
    samples: Result<Option<Seq<u8>>, Seq<char>>,
) -> Result<Frame, Failure> {
    match samples {
        Err(text) => Err(stage_failure(TiffStage::Samples, text)),
        Ok(None) => Err(Failure::Image("TIFF append supports 8-bit grayscale or RGB pages"@)),
        Ok(Some(bytes)) => {
            let data = decoded_rgb(header.samples.spec_color(), bytes);
            if header.width * header.height * 3 > data.len() {
                Err(Failure::Image("invalid TIFF frame buffer"@))
            } else {
                Ok(Frame { width: header.width, height: header.height, data })
            }
        },
    }
}

/// The refusal of a page that is too large for its strips or tiles to be counted.
pub open spec fn oversized() -> Failure {
    Failure::Invalid("image dimensions exceed the 65535-pixel per-axis safety limit"@)
}

/// The frames of a document from one of its pages on, behind those that are there already. A page
/// is refused for its size before its samples are decoded, and before the decoder is asked for it
/// where it is so large that its strips or tiles could not be counted.
pub open spec fn frames_from(
    document: Seq<u8>,
    index: nat,
    aggregate: int,
    frames: Seq<Frame>,
) -> Result<Seq<Frame>, Failure>
    decreases document.len() - index,
{
    if !page_fits(document, index) {
        Err(oversized())
    } else {
        match decoded_header(document, index) {
            Err((stage, text)) => Err(stage_failure(stage, text)),
            Ok(header) => match accepted_frame(aggregate, header) {
                Err(failure) => Err(failure),
                Ok(total) => match decoded_frame(header, decoded_samples(document, index)) {
                    Err(failure) => Err(failure),
                    Ok(frame) => if header.more && index < document.len() {
                        frames_from(document, index + 1, total, frames.push(frame))
                    } else {
                        Ok(frames.push(frame))
                    },
                },
            },
        }
    }
}

/// The frame of a page, given its header and its samples.
pub fn page_frame(header: TiffHeader, samples: Result<Option<Vec<u8>>, String>) -> (r: Result<
    RgbFrame,
    ScanError,
>)
    requires
        header.samples.spec_color() != TiffColor::Unsupported,
        header.width * header.height * 3 <= usize::MAX,
    ensures
        crate::error::outcome_view(r) == decoded_frame(
            header,
            match samples {
                Ok(Some(bytes)) => Ok(Some(bytes@)),
                Ok(None) => Ok(None),
                Err(text) => Err(text@),
            },
        ),
{
    match samples {
        Err(text) => Err(stage_error(TiffStage::Samples, text.as_str())),
        Ok(None) => Err(
            ScanError::Image("TIFF append supports 8-bit grayscale or RGB pages".to_owned()),
        ),
        Ok(Some(bytes)) => tiff_frame(header.samples.color(), header.width, header.height, bytes),
    }
}

/// Whether a document was written from some pages that can all be decoded again.
pub open spec fn written_from(document: Seq<u8>, frames: Seq<Frame>, resolution: int) -> bool {
    tiff_document(frames, resolution) == Ok::<Seq<u8>, Failure>(document) && decodable(frames)
        && frame_bytes(frames) <= MAX_IMAGE_BYTES
}

/// Whether the pages that were decoded so far are the first of those that a document was written
/// from.
spec fn read_so_far(
    document: Seq<u8>,
    index: int,
    aggregate: int,
    got: Seq<Frame>,
    frames: Seq<Frame>,
    resolution: int,
) -> bool {
    written_from(document, frames, resolution) ==> index < frames.len() && got == frames.take(index)
        && aggregate == frame_bytes(frames.take(index))
}

/// Decodes the pages of a document. All of them together keep the image limit, which is tested for
/// each page before its samples are decoded. What was written is read back: the same pages, in
/// order, with their sizes and pixels.
pub fn load_tiff_frames(document: &[u8]) -> (r: Result<Vec<RgbFrame>, ScanError>)
    ensures
        match r {
            Ok(frames) => frames_from(document@, 0, 0, Seq::empty()) == Ok::<Seq<Frame>, Failure>(
                frames_of(frames@),
            ),
            Err(error) => frames_from(document@, 0, 0, Seq::empty()) == Err::<Seq<Frame>, Failure>(
                error@,
            ),
        },
        forall|frames: Seq<Frame>, resolution: int| #[trigger]
            written_from(document@, frames, resolution) ==> r is Ok && frames_of(r->Ok_0@)
                == frames,
{
    let mut frames: Vec<RgbFrame> = Vec::new();
    let mut aggregate: usize = 0;
    let mut index: usize = 0;
    let size: usize = document.len();
    let mut walk = PageWalk::new(document);
    assert(frames_of(frames@) =~= Seq::<Frame>::empty());
    assert forall|w: Seq<Frame>, resolution: int| #[trigger]
        read_so_far(document@, 0, 0, frames_of(frames@), w, resolution) by {
        assert(w.take(0) =~= Seq::<Frame>::empty());
    }
    loop
        invariant
            size == document@.len(),
            index <= size,
            index > 0 ==> page_fits(document@, 0),
            walk.stands_at(document@, index as nat),
            frames_from(document@, index as nat, aggregate as int, frames_of(frames@))
                == frames_from(document@, 0, 0, Seq::empty()),
            forall|w: Seq<Frame>, resolution: int| #[trigger]
                read_so_far(
                    document@,
                    index as int,
                    aggregate as int,
                    frames_of(frames@),
                    w,
                    resolution,
                ),
        decreases document@.len() - index,
    {
        let ghost had = frames_of(frames@);
        let ghost before = aggregate as int;
        let (fits, after) = walk.step(document, Ghost(index as nat));
        if !fits {
            proof {
                assert forall|w: Seq<Frame>, resolution: int| !(#[trigger] written_from(
                    document@,
                    w,
                    resolution,
                )) by {
                    assert(read_so_far(document@, index as int, before, had, w, resolution));
                    if written_from(document@, w, resolution) {
                        lemma_written_size(w, resolution, index as nat);
                    }
                }
            }
            return Err(invalid("image dimensions exceed the 65535-pixel per-axis safety limit"));
        }
        walk = after;
        let header = match read_header(document, index) {
            Ok(header) => header,
            Err((stage, text)) => {
                proof {
                    assert forall|w: Seq<Frame>, resolution: int| !(#[trigger] written_from(
                        document@,
                        w,
                        resolution,
                    )) by {
                        assert(read_so_far(document@, index as int, before, had, w, resolution));
                    }
                }
                return Err(stage_error(stage, text.as_str()));
            },
        };
        aggregate =
        match accept_tiff_frame(aggregate, header.width, header.height, header.samples.color()) {
            Ok(total) => total,
            Err(error) => {
                proof {
                    assert forall|w: Seq<Frame>, resolution: int| !(#[trigger] written_from(
                        document@,
                        w,
                        resolution,
                    )) by {
                        assert(read_so_far(document@, index as int, before, had, w, resolution));
                        if written_from(document@, w, resolution) {
                            lemma_accepted(w, resolution, index as int);
                        }
                    }
                }
                return Err(error);
            },
        };
        let samples = read_samples(document, index);
        let frame = match page_frame(header, samples) {
            Ok(frame) => frame,
            Err(error) => {
                proof {
                    assert forall|w: Seq<Frame>, resolution: int| !(#[trigger] written_from(
                        document@,
                        w,
                        resolution,
                    )) by {
                        assert(read_so_far(document@, index as int, before, had, w, resolution));
                        if written_from(document@, w, resolution) {
                            lemma_accepted(w, resolution, index as int);
                        }
                    }
                }
                return Err(error);
            },
        };
        frames.push(frame);
        assert(frames_of(frames@) =~= had.push(frame@));
        proof {
            assert forall|w: Seq<Frame>, resolution: int| #[trigger]
                written_from(document@, w, resolution) implies header.more == (index + 1 < w.len())
                && frames_of(frames@) == w.take(index + 1) && aggregate == frame_bytes(
                w.take(index + 1),
            ) by {
                assert(read_so_far(document@, index as int, before, had, w, resolution));
                lemma_accepted(w, resolution, index as int);
                assert(w.take(index + 1).drop_last() =~= w.take(index as int));
                assert(frame@ == w[index as int]);
                assert(frames_of(frames@) =~= w.take(index + 1));
            }
        }
        if !header.more {
            proof {
                assert forall|w: Seq<Frame>, resolution: int| #[trigger]
                    written_from(document@, w, resolution) implies frames_of(frames@) == w by {
                    assert(read_so_far(document@, index as int, before, had, w, resolution));
                    assert(w.take(index + 1) =~= w);
                }
            }
            return Ok(frames);
        }
        index += 1;
        assert forall|w: Seq<Frame>, resolution: int| #[trigger]
            read_so_far(
                document@,
                index as int,
                aggregate as int,
                frames_of(frames@),
                w,
                resolution,
            ) by {
            if written_from(document@, w, resolution) {
            }
        }
    }
}

/// What a page is appended to.
#[derive(Debug, Clone, Copy, PartialEq, Eq, Structural)]
pub enum AppendTarget {
    Tiff,
    Pdf,
}

/// The text without leading dots.
pub open spec fn undotted_start(s: Seq<char>) -> Seq<char>
    decreases s.len(),
{
    if s.len() > 0 && s[0] == '.' {
        undotted_start(s.skip(1))
    } else {
        s
    }
}

/// The text without leading dots.
pub fn undot_start(s: &[char]) -> (r: &[char])
    ensures
        r@ == undotted_start(s@),
{
    let mut start: usize = 0;
    assert(s@.skip(0) =~= s@);
    while start < s.len() && s[start] == '.'
        invariant
            start <= s@.len(),
            undotted_start(s@.skip(start as int)) == undotted_start(s@),
        decreases s@.len() - start,
    {
        assert(s@.skip(start as int).skip(1) =~= s@.skip(start + 1));
        start += 1;
    }
    let r = slice_subrange(s, start, s.len());
    assert(r@ =~= s@.skip(start as int));
    r
}

/// The container that a page is appended to: the format asked for, else the path's extension, else
/// TIFF.
pub open spec fn append_extension(format: Option<Seq<char>>, extension: Option<Seq<char>>) -> Seq<
    char,
> {
    match (format, extension) {
        (Some(text), _) => lower_all(undotted_start(trim(text))),
        (None, Some(text)) => lower_all(text),
        (None, None) => "tif"@,
    }
}

/// What a page is appended to, or the refusal of another container.
pub open spec fn append_target(extension: Seq<char>) -> Result<AppendTarget, Failure> {
    if extension == "tif"@ || extension == "tiff"@ {
        Ok(AppendTarget::Tiff)
    } else if extension == "pdf"@ {
        Ok(AppendTarget::Pdf)
    } else {
        Err(
            Failure::Invalid(
                "append_page_to_multipage supports TIFF or PDF, not '"@ + extension + "'"@,
            ),
        )
    }
}

/// What a page is appended to: a TIFF grows, a PDF is replaced. `extension` is that of the path.
#[verifier::spinoff_prover]
#[verifier::rlimit(60)]
pub fn append_page_to_multipage(format: Option<&str>, extension: Option<&str>) -> (r: Result<
    AppendTarget,
    ScanError,
>)
    ensures
        format is None && extension is None ==> r is Ok && r->Ok_0 == AppendTarget::Tiff,
        format is None && extension is Some ==> (r == Ok::<AppendTarget, ScanError>(AppendTarget::Tiff)
            <==> lower_all(extension->0@) == "tif"@ || lower_all(extension->0@) == "tiff"@),
        format is None && extension is Some && lower_all(extension->0@) == "pdf"@ ==> r is Ok && r->Ok_0
            == AppendTarget::Pdf,
        format is Some && lower_all(undotted_start(trim(format->0@))) == "pdf"@ ==> r is Ok && r->Ok_0
            == AppendTarget::Pdf,
        r is Ok && r->Ok_0 == AppendTarget::Pdf && format is Some ==> lower_all(
            undotted_start(trim(format->0@)),
        ) == "pdf"@,
        outcome(r) == append_target(
            append_extension(
                crate::escl::endpoint::opt_str(format),
                crate::escl::endpoint::opt_str(extension),
            ),
        ),
{
    proof {
        reveal_strlit("pdf");
        reveal_strlit("tif");
        reveal_strlit("tiff");
        assert("pdf"@[0] == 'p' && "tif"@[0] == 't' && "tiff"@[0] == 't');
    }
    let ext: String = match (format, extension) {
        (Some(text), _) => {
            let chars = chars_of(text);
            text_of(&lower_chars(undot_start(trimmed(&chars))))
        },
        (None, Some(text)) => text_of(&lower_chars(&chars_of(text))),
        (None, None) => "tif".to_owned(),
    };
    if same_text(ext.as_str(), "tif") || same_text(ext.as_str(), "tiff") {
        Ok(AppendTarget::Tiff)
    } else if same_text(ext.as_str(), "pdf") {
        Ok(AppendTarget::Pdf)
    } else {
        let mut text = joined("append_page_to_multipage supports TIFF or PDF, not '", ext.as_str());
        text.append("'");
        Err(ScanError::Invalid(text))
    }
}

/// The bytes of all frames.
pub open spec fn frame_bytes(frames: Seq<Frame>) -> int
    decreases frames.len(),
{
    if frames.len() == 0 {
        0
    } else {
        frame_bytes(frames.drop_last()) + frames.last().data.len()
    }
}

/// A document with an image behind its decoded pages, or why there is none.
pub open spec fn appended(frames: Seq<Frame>, image: Picture, resolution: int) -> Result<
    Seq<u8>,
    Failure,
> {
    if frame_bytes(frames) > usize::MAX {
        Err(aggregate_limit())
    } else {
        match frame_aggregate(frame_bytes(frames), image.width as int, image.height as int) {
            Err(failure) => Err(failure),
            Ok(_total) => tiff_document(frames.push(rgb_frame(image)), resolution),
        }
    }
}

proof fn lemma_frame_bytes(frames: Seq<Frame>, k: int)
    requires
        0 <= k <= frames.len(),
    ensures
        0 <= frame_bytes(frames.take(k)) <= frame_bytes(frames),
    decreases frames.len(),
{
    if k == frames.len() {
        assert(frames.take(k) =~= frames);
        if frames.len() > 0 {
            lemma_frame_bytes(frames.drop_last(), 0);
            assert(frames.drop_last().take(0) =~= Seq::<Frame>::empty());
        }
    } else {
        lemma_frame_bytes(frames.drop_last(), k);
        assert(frames.drop_last().take(k) =~= frames.take(k));
    }
}

/// The bytes of a document with an image behind its decoded pages. All pages together keep the image
/// limit.
pub fn append_frame(frames: Vec<RgbFrame>, image: &ImageBuffer, dpi: Option<u32>) -> (r: Result<
    Vec<u8>,
    ScanError,
>)
    requires
        image@.wf(),
    ensures
        crate::error::outcome_view(r) == appended(
            frames_of(frames@),
            image@,
            page_resolution(dpi),
        ),
{
    let ghost all = frames_of(frames@);
    let mut existing: usize = 0;
    let mut i: usize = 0;
    while i < frames.len()
        invariant
            i <= frames@.len(),
            all == frames_of(frames@),
            existing == frame_bytes(all.take(i as int)),
        decreases frames@.len() - i,
    {
        assert(all.take(i + 1).drop_last() =~= all.take(i as int));
        assert(all.take(i + 1).last() == frames@[i as int]@);
        match existing.checked_add(frames[i].data.len()) {
            Some(sum) => {
                existing = sum;
            },
            None => {
                proof {
                    lemma_frame_bytes(all, i + 1);
                }
                return Err(
                    ScanError::Image(
                        "TIFF decoded frame aggregate exceeds the image safety limit".to_owned(),
                    ),
                );
            },
        }
        i += 1;
    }
    assert(all.take(i as int) =~= all);
    match checked_tiff_frame_aggregate(existing, image.width, image.height) {
        Ok(_total) => {},
        Err(error) => {
            return Err(error);
        },
    }
    proof {
        lemma_rgb_len(image@);
    }
    let mut pages = frames;
    let ghost before = pages@;
    pages.push(image_buffer_to_rgb(image));
    assert(frames_of(pages@) =~= all.push(rgb_frame(image@)));
    write_multipage_tiff_rgb(&pages, dpi)
}

/// The bytes of a document with an image behind the pages of another one, whose bytes are given.
pub fn append_to_tiff(document: &[u8], image: &ImageBuffer, dpi: Option<u32>) -> (r: Result<
    Vec<u8>,
    ScanError,
>)
    requires
        image@.wf(),
    ensures
        crate::error::outcome_view(r) == match frames_from(document@, 0, 0, Seq::empty()) {
            Err(failure) => Err(failure),
            Ok(frames) => appended(frames, image@, page_resolution(dpi)),
        },
        forall|frames: Seq<Frame>, resolution: int| #[trigger]
            written_from(document@, frames, resolution) ==> crate::error::outcome_view(r)
                == appended(frames, image@, page_resolution(dpi)),
{
    match load_tiff_frames(document) {
        Ok(frames) => append_frame(frames, image, dpi),
        Err(error) => Err(error),
    }
}

/// A document that grew by a page was written from the pages that it had and from the new one, so that
/// loading it gives those pages, in order, and then the new one.
pub proof fn grown_documents_hold_all_pages(
    frames: Seq<Frame>,
    image: Picture,
    resolution: int,
    document: Seq<u8>,
)
    requires
        image.wf(),
        appended(frames, image, resolution) == Ok::<Seq<u8>, Failure>(document),
        decodable(frames),
        rgb_frame(image).data.len() <= MAX_DECODED_STRIP,
    ensures
        written_from(document, frames.push(rgb_frame(image)), resolution),
{
    let grown = frames.push(rgb_frame(image));
    assert(grown.drop_last() =~= frames);
    assert(image_len(image.width as int, image.height as int, 3) == Ok::<int, Failure>(
        rgb_frame(image).data.len() as int,
    ));
}

// ---------------------------------------------------------------------------
// Reading back
// ---------------------------------------------------------------------------

/// The page that a directory at an offset describes.
pub open spec fn frame_at(file: Seq<u8>, at: int) -> Frame {
    let strip_at = read32(file, at + 70);
    Frame {
        width: read32(file, at + 10) as u32,
        height: read32(file, at + 22) as u32,
        data: file.subrange(strip_at, strip_at + read32(file, at + 106)),
    }
}

/// The pages of the chain of directories from an offset on, up to its end but at most `n`.
pub open spec fn chain_from(file: Seq<u8>, at: int, n: nat) -> Seq<Frame>
    decreases n,
{
    if n == 0 {
        Seq::empty()
    } else {
        let next = read32(file, at + 146);
        seq![frame_at(file, at)] + if next == 0 {
            Seq::empty()
        } else {
            chain_from(file, next, (n - 1) as nat)
        }
    }
}

/// The offset of a page.
pub open spec fn ifd_of(frames: Seq<Frame>, i: int) -> int
    decreases i,
{
    if i <= 0 {
        8
    } else {
        aligned(ifd_of(frames, i - 1) + 172 + frames[i - 1].data.len())
    }
}

proof fn lemma_ifd_order(frames: Seq<Frame>, i: int, j: int)
    requires
        0 <= i < j,
    ensures
        8 <= ifd_of(frames, i),
        ifd_of(frames, i) % 2 == 0,
        ifd_of(frames, j) % 2 == 0,
        ifd_of(frames, i) + 172 + frames[i].data.len() <= ifd_of(frames, j),
    decreases j,
{
    if i < j - 1 {
        lemma_ifd_order(frames, i, j - 1);
    } else if i > 0 {
        lemma_ifd_order(frames, i - 1, i);
    }
}

/// Whether a page stands at an offset, linked to the next.
spec fn holds_page(
    file: Seq<u8>,
    at: int,
    frame: Frame,
    layout: TiffPageLayout,
    resolution: int,
    link: int,
) -> bool {
    &&& 0 <= at
    &&& at + 172 + frame.data.len() <= file.len()
    &&& file.subrange(at, at + 172 + frame.data.len()) == page_bytes(
        frame,
        layout,
        resolution,
        link,
    )
}

/// What stands before the place of a write stays.
proof fn lemma_written_before(file: Seq<u8>, at: int, bytes: Seq<u8>, lo: int, hi: int)
    requires
        0 <= lo <= hi <= at,
        hi <= file.len(),
    ensures
        written(file, at, bytes).len() >= file.len(),
        written(file, at, bytes).subrange(lo, hi) == file.subrange(lo, hi),
{
    assert(written(file, at, bytes).subrange(lo, hi) =~= file.subrange(lo, hi));
}

/// What is written stands at its place.
proof fn lemma_written_there(file: Seq<u8>, at: int, bytes: Seq<u8>)
    requires
        0 <= at,
    ensures
        written(file, at, bytes).len() >= at + bytes.len(),
        written(file, at, bytes).subrange(at, at + bytes.len()) == bytes,
{
    assert(written(file, at, bytes).subrange(at, at + bytes.len()) =~= bytes);
}

/// A page linked to the next is the page with the offset written into its directory.
proof fn lemma_relinked(frame: Frame, layout: TiffPageLayout, resolution: int, link: int)
    ensures
        written(page_bytes(frame, layout, resolution, 0), 146, le32(link)) == page_bytes(
            frame,
            layout,
            resolution,
            link,
        ),
{
    let w = frame.width as int;
    let h = frame.height as int;
    lemma_ifd(w, h, layout, 0);
    lemma_ifd(w, h, layout, link);
    lemma_page_len(frame, layout, resolution, 0);
    lemma_page_len(frame, layout, resolution, link);
    let plain = page_bytes(frame, layout, resolution, 0);
    let linked = page_bytes(frame, layout, resolution, link);
    let a = ifd_bytes(w, h, layout, 0);
    let b = ifd_bytes(w, h, layout, link);
    reveal(page_bytes);
    let out = written(plain, 146, le32(link));
    assert forall|k: int| 0 <= k < linked.len() implies out[k] == linked[k] by {
        if k < 146 {
            assert(plain[k] == a[k]);
            assert(linked[k] == b[k]);
            assert(a.take(146)[k] == a[k]);
            assert(b.take(146)[k] == b[k]);
        } else if k < 150 {
            assert(linked[k] == b[k]);
            assert(b.subrange(146, 150)[k - 146] == b[k]);
        }
    }
    assert(out =~= linked);
}

/// A write within a page changes that page alone.
proof fn lemma_link_page(
    file: Seq<u8>,
    at: int,
    frame: Frame,
    layout: TiffPageLayout,
    resolution: int,
    link: int,
)
    requires
        holds_page(file, at, frame, layout, resolution, 0),
    ensures
        holds_page(written(file, at + 146, le32(link)), at, frame, layout, resolution, link),
        written(file, at + 146, le32(link)).len() == file.len(),
{
    let hi = at + 172 + frame.data.len();
    let page = page_bytes(frame, layout, resolution, 0);
    let out = written(file, at + 146, le32(link));
    lemma_page_len(frame, layout, resolution, 0);
    lemma_relinked(frame, layout, resolution, link);
    lemma_page_len(frame, layout, resolution, link);
    let local = written(page, 146, le32(link));
    assert forall|k: int| 0 <= k < local.len() implies out.subrange(at, hi)[k] == local[k] by {
        assert(file.subrange(at, hi)[k] == file[at + k]);
    }
    assert(out.subrange(at, hi) =~= local);
}

/// Whether a page of the first `n` stands at its offset, linked to the next of them.
spec fn in_place(
    frames: Seq<Frame>,
    total: int,
    resolution: int,
    n: int,
    file: Seq<u8>,
    i: int,
) -> bool {
    holds_page(
        file,
        ifd_of(frames, i),
        frames[i],
        layout_at(ifd_of(frames, i), frames[i].data.len() as int, i + 1 < total),
        resolution,
        if i + 1 < n {
            ifd_of(frames, i + 1)
        } else {
            0
        },
    )
}

/// Where a document stands after its first `n` pages.
spec fn is_stacked(frames: Seq<Frame>, total: int, resolution: int, n: int, sheet: Sheet) -> bool {
    &&& sheet.file.len() >= 8
    &&& sheet.file.subrange(0, 8) == tiff_header()
    &&& sheet.next_ifd_at == if n < total {
        ifd_of(frames, n)
    } else {
        0
    }
    &&& n == 0 ==> sheet.previous_field_at is None
    &&& n > 0 ==> sheet.previous_field_at == Some((ifd_of(frames, n - 1) + 146) as u32)
    &&& forall|i: int|
        0 <= i < n ==> #[trigger] in_place(frames, total, resolution, n, sheet.file, i)
    &&& forall|i: int|
        0 <= i < n ==> (#[trigger] ifd_of(frames, i)) + 172 + frames[i].data.len() <= u32::MAX
}

#[verifier::rlimit(60)]
proof fn lemma_stacked(frames: Seq<Frame>, total: int, resolution: int, n: int)
    requires
        0 <= n <= total <= frames.len(),
        0 < total,
        sheet_of(frames, total, resolution, n) is Ok,
    ensures
        is_stacked(
            frames,
            total,
            resolution,
            n,
            sheet_of(frames, total, resolution, n)->Ok_0,
        ),
    decreases n,
{
    if n == 0 {
        assert(empty_sheet().file.subrange(0, 8) =~= tiff_header());
    } else {
        reveal(with_page);
        let before = sheet_of(frames, total, resolution, n - 1)->Ok_0;
        lemma_stacked(frames, total, resolution, n - 1);
        let sheet = sheet_of(frames, total, resolution, n)->Ok_0;
        let frame = frames[n - 1];
        let at = ifd_of(frames, n - 1);
        let len = frame.data.len() as int;
        lemma_ifd_order(frames, n - 1, n);
        assert(before.next_ifd_at == at);
        let layout = layout_at(at, len, n < total);
        assert(planned_page(before.next_ifd_at as int, frame, n < total) == Ok::<
            TiffPageLayout,
            Failure,
        >(layout));
        assert(at + 172 + len <= u32::MAX);
        let linked = match before.previous_field_at {
            Some(field) => written(before.file, field as int, le32(layout.ifd_at as int)),
            None => before.file,
        };
        let fresh = fresh_page(frame, layout, resolution);
        assert(sheet.file == written(linked, at, fresh));
        lemma_page_len(frame, layout, resolution, 0);
        lemma_written_there(linked, at, fresh);
        assert(fresh.take(172 + len) =~= page_bytes(frame, layout, resolution, 0));
        assert(sheet.file.subrange(at, at + 172 + len) =~= page_bytes(frame, layout, resolution, 0))
            by {
            assert forall|k: int| 0 <= k < 172 + len implies sheet.file.subrange(
                at,
                at + 172 + len,
            )[k] == page_bytes(frame, layout, resolution, 0)[k] by {
                assert(sheet.file.subrange(at, at + fresh.len())[k] == fresh[k]);
                assert(fresh.take(172 + len)[k] == fresh[k]);
            }
        }
        if n >= 2 {
            let previous = frames[n - 2];
            let there = ifd_of(frames, n - 2);
            lemma_ifd_order(frames, n - 2, n - 1);
            let there_layout = layout_at(there, previous.data.len() as int, n - 1 < total);
            assert(in_place(frames, total, resolution, n - 1, before.file, n - 2));
            lemma_link_page(before.file, there, previous, there_layout, resolution, at);
            lemma_written_before(
                linked,
                at,
                fresh,
                there,
                there + 172 + previous.data.len(),
            );
            lemma_written_before(before.file, there + 146, le32(at), 0, 8);
        }
        lemma_written_before(linked, at, fresh, 0, 8);
        assert forall|i: int| 0 <= i < n implies #[trigger] in_place(
            frames,
            total,
            resolution,
            n,
            sheet.file,
            i,
        ) by {
            if i < n - 2 {
                assert(in_place(frames, total, resolution, n - 1, before.file, i));
                let lo = ifd_of(frames, i);
                let hi = lo + 172 + frames[i].data.len();
                assert(holds_page(
                    before.file,
                    lo,
                    frames[i],
                    layout_at(lo, frames[i].data.len() as int, i + 1 < total),
                    resolution,
                    ifd_of(frames, i + 1),
                ));
                lemma_ifd_order(frames, i, n - 2);
                lemma_ifd_order(frames, i, n - 1);
                lemma_written_before(
                    before.file,
                    ifd_of(frames, n - 2) + 146,
                    le32(at),
                    lo,
                    hi,
                );
                lemma_written_before(linked, at, fresh, lo, hi);
            }
        }
        assert forall|i: int| 0 <= i < n implies (#[trigger] ifd_of(frames, i)) + 172
            + frames[i].data.len() <= u32::MAX by {
        }
    }
}

/// A 32-bit number is read where its bytes stand.
proof fn lemma_read32(file: Seq<u8>, at: int, v: int)
    requires
        0 <= at,
        at + 4 <= file.len(),
        file.subrange(at, at + 4) == le32(v),
        0 <= v <= u32::MAX,
    ensures
        read32(file, at) == v,
{
    lemma_le32(v);
    let part = file.subrange(at, at + 4);
    assert(part[0] == file[at]);
    assert(part[1] == file[at + 1]);
    assert(part[2] == file[at + 2]);
    assert(part[3] == file[at + 3]);
}

/// A page that stands at an offset is read from there.
proof fn lemma_frame_at(
    file: Seq<u8>,
    at: int,
    frame: Frame,
    has_next_page: bool,
    resolution: int,
    link: int,
)
    requires
        holds_page(
            file,
            at,
            frame,
            layout_at(at, frame.data.len() as int, has_next_page),
            resolution,
            link,
        ),
        at + 172 + frame.data.len() <= u32::MAX,
        0 <= link <= u32::MAX,
    ensures
        frame_at(file, at) == frame,
        read32(file, at + 146) == link,
{
    let layout = layout_at(at, frame.data.len() as int, has_next_page);
    let w = frame.width as int;
    let h = frame.height as int;
    let page = page_bytes(frame, layout, resolution, link);
    let ifd = ifd_bytes(w, h, layout, link);
    lemma_ifd(w, h, layout, link);
    lemma_page_len(frame, layout, resolution, link);
    assert(page.take(150) =~= ifd) by {
        reveal(page_bytes);
    }
    assert(page.subrange(172, 172 + frame.data.len() as int) =~= frame.data) by {
        reveal(page_bytes);
    }
    assert forall|k: int| 0 <= k < page.len() implies #[trigger] file[at + k] == page[k] by {
        assert(file.subrange(at, at + 172 + frame.data.len())[k] == page[k]);
    }
    assert forall|k: int| 0 <= k < 150 implies #[trigger] file[at + k] == ifd[k] by {
        assert(page.take(150)[k] == page[k]);
    }
    lemma_field(file, at, ifd, 10, w);
    lemma_field(file, at, ifd, 22, h);
    lemma_field(file, at, ifd, 70, at + 172);
    lemma_field(file, at, ifd, 106, frame.data.len() as int);
    lemma_field(file, at, ifd, 146, link);
    let data = file.subrange(at + 172, at + 172 + frame.data.len());
    assert forall|k: int| 0 <= k < frame.data.len() implies data[k] == frame.data[k] by {
        assert(page.subrange(172, 172 + frame.data.len() as int)[k] == page[172 + k]);
        assert(file[at + (172 + k)] == page[172 + k]);
    }
    assert(data =~= frame.data);
}

/// A number of a directory is read from the directory's place in the document.
proof fn lemma_field(file: Seq<u8>, at: int, ifd: Seq<u8>, o: int, v: int)
    requires
        0 <= at,
        0 <= o <= 146,
        ifd.len() == 150,
        at + 150 <= file.len(),
        forall|k: int| 0 <= k < 150 ==> #[trigger] file[at + k] == ifd[k],
        ifd.subrange(o, o + 4) == le32(v),
        0 <= v <= u32::MAX,
    ensures
        read32(file, at + o) == v,
{
    let there = file.subrange(at + o, at + o + 4);
    let here = ifd.subrange(o, o + 4);
    assert forall|k: int| 0 <= k < 4 implies #[trigger] there[k] == here[k] by {
        assert(file[at + (o + k)] == ifd[o + k]);
    }
    assert(there =~= here);
    lemma_read32(file, at + o, v);
}

proof fn lemma_chain(frames: Seq<Frame>, resolution: int, sheet: Sheet, i: int)
    requires
        0 <= i < frames.len(),
        is_stacked(frames, frames.len() as int, resolution, frames.len() as int, sheet),
    ensures
        chain_from(sheet.file, ifd_of(frames, i), (frames.len() - i + 1) as nat) == frames.skip(i),
    decreases frames.len() - i,
{
    let n = frames.len() as int;
    let at = ifd_of(frames, i);
    let link = if i + 1 < n {
        ifd_of(frames, i + 1)
    } else {
        0
    };
    assert(in_place(frames, n, resolution, n, sheet.file, i));
    assert(ifd_of(frames, i) + 172 + frames[i].data.len() <= u32::MAX);
    if i + 1 < n {
        assert(ifd_of(frames, i + 1) + 172 + frames[i + 1].data.len() <= u32::MAX);
        lemma_ifd_order(frames, i, i + 1);
        lemma_chain(frames, resolution, sheet, i + 1);
    }
    lemma_frame_at(sheet.file, at, frames[i], i + 1 < n, resolution, link);
    assert(chain_from(sheet.file, at, (n - i + 1) as nat) =~= frames.skip(i));
}

/// Where an entry stands, its numbers are read.
proof fn lemma_entry_there(file: Seq<u8>, at: int, tag: int, typ: int, count: int, value: int)
    requires
        0 <= at,
        at + 12 <= file.len(),
        file.subrange(at, at + 12) == entry_bytes(tag, typ, count, value),
        0 <= tag <= u16::MAX,
        0 <= typ <= u16::MAX,
        0 <= count <= u32::MAX,
        0 <= value <= u32::MAX,
    ensures
        number16(file, at, true) == tag,
        number16(file, at + 2, true) == typ,
        number32(file, at + 4, true) == count,
        number32(file, at + 8, true) == value,
{
    reveal(entry_bytes);
    lemma_le32(count);
    lemma_le32(value);
    let e = entry_bytes(tag, typ, count, value);
    assert forall|k: int| 0 <= k < 12 implies #[trigger] file[at + k] == e[k] by {
        assert(file.subrange(at, at + 12)[k] == file[at + k]);
    }
    assert(file[at + 0] == e[0] && file[at + 1] == e[1]);
    assert(file[at + 2] == e[2] && file[at + 3] == e[3]);
    assert(file[at + 4] == e[4] && file[at + 5] == e[5]);
    assert(file[at + 6] == e[6] && file[at + 7] == e[7]);
    assert(file[at + 8] == e[8] && file[at + 9] == e[9]);
    assert(file[at + 10] == e[10] && file[at + 11] == e[11]);
}

/// The place of an entry of a directory in the document.
proof fn lemma_entry_place(
    file: Seq<u8>,
    at: int,
    ifd: Seq<u8>,
    head: Seq<u8>,
    tag: int,
    typ: int,
    count: int,
    value: int,
)
    requires
        0 <= at,
        ifd.len() == 150,
        at + 150 <= file.len(),
        forall|k: int| 0 <= k < 150 ==> #[trigger] file[at + k] == ifd[k],
        head.len() + 12 <= 150,
        ifd.take(head.len() as int + 12) == head + entry_bytes(tag, typ, count, value),
        0 <= tag <= u16::MAX,
        0 <= typ <= u16::MAX,
        0 <= count <= u32::MAX,
        0 <= value <= u32::MAX,
    ensures
        number16(file, at + head.len(), true) == tag,
        number16(file, at + head.len() + 2, true) == typ,
        number32(file, at + head.len() + 4, true) == count,
        number32(file, at + head.len() + 8, true) == value,
        ifd.take(head.len() as int) == head,
{
    let e = entry_bytes(tag, typ, count, value);
    let p = head.len() as int;
    lemma_entry(tag, typ, count, value);
    assert forall|k: int| 0 <= k < 12 implies #[trigger] file.subrange(at + p, at + p + 12)[k]
        == e[k] by {
        assert(file[at + (p + k)] == ifd[p + k]);
        assert(ifd.take(p + 12)[p + k] == ifd[p + k]);
        assert((head + e)[p + k] == e[k]);
    }
    assert(file.subrange(at + p, at + p + 12) =~= e);
    lemma_entry_there(file, at + p, tag, typ, count, value);
    assert forall|k: int| 0 <= k < p implies ifd[k] == head[k] by {
        assert(ifd.take(p + 12)[k] == (head + e)[k]);
    }
    assert(ifd.take(p) =~= head);
}

/// One entry of a directory is walked over.
proof fn lemma_entry_step(
    file: Seq<u8>,
    at: int,
    n: int,
    width: Option<int>,
    length: Option<int>,
    samples: int,
)
    requires
        0 < n,
        0 <= at,
        at + 12 <= file.len(),
        known_type(number16(file, at + 2, true)),
        number16(file, at, true) != 256,
        number16(file, at, true) != 257,
        number16(file, at, true) != 277,
    ensures
        entries_from(file, TiffForm { little: true, big: false }, at, n, width, length, samples)
            == entries_from(
            file,
            TiffForm { little: true, big: false },
            at + 12,
            n - 1,
            width,
            length,
            samples,
        ),
{
}

/// The directory of a page that stands at an offset gives its size and the next page.
#[verifier::rlimit(60)]
proof fn lemma_directory_there(
    file: Seq<u8>,
    at: int,
    frame: Frame,
    has_next_page: bool,
    resolution: int,
    link: int,
)
    requires
        holds_page(
            file,
            at,
            frame,
            layout_at(at, frame.data.len() as int, has_next_page),
            resolution,
            link,
        ),
        at + 172 + frame.data.len() <= u32::MAX,
        0 <= link <= u32::MAX,
    ensures
        directory_at(file, TiffForm { little: true, big: false }, at) == Some(
            DirectoryView {
                width: Some(frame.width as int),
                length: Some(frame.height as int),
                samples: 3,
                next: link,
            },
        ),
{
    let form = TiffForm { little: true, big: false };
    let layout = layout_at(at, frame.data.len() as int, has_next_page);
    let w = frame.width as int;
    let h = frame.height as int;
    let page = page_bytes(frame, layout, resolution, link);
    let ifd = ifd_bytes(w, h, layout, link);
    lemma_ifd(w, h, layout, link);
    lemma_page_len(frame, layout, resolution, link);
    assert(page.take(150) =~= ifd) by {
        reveal(page_bytes);
    }
    assert forall|k: int| 0 <= k < 150 implies #[trigger] file[at + k] == ifd[k] by {
        assert(file.subrange(at, at + 172 + frame.data.len())[k] == page[k]);
        assert(page.take(150)[k] == page[k]);
    }
    lemma_field(file, at, ifd, 146, link);
    let s0 = le16(12);
    let s1 = s0 + entry_bytes(256, 4, 1, w);
    let s2 = s1 + entry_bytes(257, 4, 1, h);
    let s3 = s2 + entry_bytes(258, 3, 3, layout.bps_at as int);
    let s4 = s3 + entry_bytes(259, 3, 1, 1);
    let s5 = s4 + entry_bytes(262, 3, 1, 2);
    let s6 = s5 + entry_bytes(273, 4, 1, layout.strip_at as int);
    let s7 = s6 + entry_bytes(277, 3, 1, 3);
    let s8 = s7 + entry_bytes(278, 4, 1, h);
    let s9 = s8 + entry_bytes(279, 4, 1, layout.strip_len as int);
    let s10 = s9 + entry_bytes(282, 5, 1, layout.xres_at as int);
    let s11 = s10 + entry_bytes(283, 5, 1, layout.yres_at as int);
    let s12 = s11 + entry_bytes(296, 3, 1, 2);
    assert(ifd == s12 + le32(link)) by {
        reveal(ifd_bytes);
    }
    lemma_add_entry(s0, 256, 4, 1, w);
    lemma_add_entry(s1, 257, 4, 1, h);
    lemma_add_entry(s2, 258, 3, 3, layout.bps_at as int);
    lemma_add_entry(s3, 259, 3, 1, 1);
    lemma_add_entry(s4, 262, 3, 1, 2);
    lemma_add_entry(s5, 273, 4, 1, layout.strip_at as int);
    lemma_add_entry(s6, 277, 3, 1, 3);
    lemma_add_entry(s7, 278, 4, 1, h);
    lemma_add_entry(s8, 279, 4, 1, layout.strip_len as int);
    lemma_add_entry(s9, 282, 5, 1, layout.xres_at as int);
    lemma_add_entry(s10, 283, 5, 1, layout.yres_at as int);
    lemma_add_entry(s11, 296, 3, 1, 2);
    assert(ifd.take(146) =~= s12);
    lemma_entry_place(file, at, ifd, s11, 296, 3, 1, 2);
    lemma_entry_place(file, at, ifd, s10, 283, 5, 1, layout.yres_at as int);
    lemma_entry_place(file, at, ifd, s9, 282, 5, 1, layout.xres_at as int);
    lemma_entry_place(file, at, ifd, s8, 279, 4, 1, layout.strip_len as int);
    lemma_entry_place(file, at, ifd, s7, 278, 4, 1, h);
    lemma_entry_place(file, at, ifd, s6, 277, 3, 1, 3);
    lemma_entry_place(file, at, ifd, s5, 273, 4, 1, layout.strip_at as int);
    lemma_entry_place(file, at, ifd, s4, 262, 3, 1, 2);
    lemma_entry_place(file, at, ifd, s3, 259, 3, 1, 1);
    lemma_entry_place(file, at, ifd, s2, 258, 3, 3, layout.bps_at as int);
    lemma_entry_place(file, at, ifd, s1, 257, 4, 1, h);
    lemma_entry_place(file, at, ifd, s0, 256, 4, 1, w);
    assert(file[at + 0] == ifd[0] && file[at + 1] == ifd[1]);
    assert(ifd.take(2)[0] == ifd[0] && ifd.take(2)[1] == ifd[1]);
    assert(number16(file, at, true) == 12);
    let wide = Some(w);
    let long = Some(h);
    assert(entries_from(file, form, at + 2, 12, None, None, 1) == entries_from(
        file,
        form,
        at + 14,
        11,
        wide,
        None,
        1,
    ));
    assert(entries_from(file, form, at + 14, 11, wide, None, 1) == entries_from(
        file,
        form,
        at + 26,
        10,
        wide,
        long,
        1,
    ));
    lemma_entry_step(file, at + 26, 10, wide, long, 1);
    lemma_entry_step(file, at + 38, 9, wide, long, 1);
    lemma_entry_step(file, at + 50, 8, wide, long, 1);
    lemma_entry_step(file, at + 62, 7, wide, long, 1);
    assert(entries_from(file, form, at + 74, 6, wide, long, 1) == entries_from(
        file,
        form,
        at + 86,
        5,
        wide,
        long,
        3,
    ));
    lemma_entry_step(file, at + 86, 5, wide, long, 3);
    lemma_entry_step(file, at + 98, 4, wide, long, 3);
    lemma_entry_step(file, at + 110, 3, wide, long, 3);
    lemma_entry_step(file, at + 122, 2, wide, long, 3);
    lemma_entry_step(file, at + 134, 1, wide, long, 3);
    assert(entries_from(file, form, at + 146, 0, wide, long, 3) == Some(
        Entries { width: wide, length: long, samples: 3, end: at + 146 },
    ));
}

/// The directories of a written document stand where its pages do.
proof fn lemma_page_directory(frames: Seq<Frame>, resolution: int, sheet: Sheet, index: nat)
    requires
        index < frames.len(),
        is_stacked(frames, frames.len() as int, resolution, frames.len() as int, sheet),
    ensures
        form_of(sheet.file) == Some(TiffForm { little: true, big: false }),
        page_directory(sheet.file, index) == Some(ifd_of(frames, index as int)),
    decreases index,
{
    let file = sheet.file;
    assert forall|k: int| 0 <= k < 8 implies #[trigger] file[k] == tiff_header()[k] by {
        assert(file.subrange(0, 8)[k] == file[k]);
    }
    assert(file[0] == 0x49 && file[1] == 0x49);
    assert(file[2] == 42 && file[3] == 0);
    assert(file[4] == 8 && file[5] == 0 && file[6] == 0 && file[7] == 0);
    if index > 0 {
        let i = index - 1;
        lemma_page_directory(frames, resolution, sheet, i as nat);
        let n = frames.len() as int;
        assert(in_place(frames, n, resolution, n, file, i));
        assert(ifd_of(frames, i) + 172 + frames[i].data.len() <= u32::MAX);
        assert(ifd_of(frames, i + 1) + 172 + frames[i + 1].data.len() <= u32::MAX);
        lemma_ifd_order(frames, i, i + 1);
        lemma_directory_there(
            file,
            ifd_of(frames, i),
            frames[i],
            i + 1 < n,
            resolution,
            ifd_of(frames, i + 1),
        );
    }
}

/// Every page of a written document keeps the limits of an image.
proof fn lemma_pages_keep_limits(frames: Seq<Frame>, total: int, resolution: int, n: int, i: int)
    requires
        0 <= i < n <= total,
        sheet_of(frames, total, resolution, n) is Ok,
    ensures
        frames[i].wf(),
    decreases n,
{
    reveal(with_page);
    if i < n - 1 {
        lemma_pages_keep_limits(frames, total, resolution, n - 1, i);
    }
}

/// The directory of a page of a written document states the size of that page.
proof fn lemma_written_size(frames: Seq<Frame>, resolution: int, index: nat)
    requires
        tiff_document(frames, resolution) is Ok,
        index < frames.len(),
    ensures
        page_fits(tiff_document(frames, resolution)->Ok_0, index),
{
    let n = frames.len() as int;
    let sheet = sheet_of(frames, n, resolution, n)->Ok_0;
    let i = index as int;
    lemma_stacked(frames, n, resolution, n);
    lemma_page_directory(frames, resolution, sheet, index);
    lemma_pages_keep_limits(frames, n, resolution, n, i);
    assert(in_place(frames, n, resolution, n, sheet.file, i));
    assert(ifd_of(frames, i) + 172 + frames[i].data.len() <= u32::MAX);
    if i + 1 < n {
        assert(ifd_of(frames, i + 1) + 172 + frames[i + 1].data.len() <= u32::MAX);
        lemma_ifd_order(frames, i, i + 1);
    }
    lemma_directory_there(
        sheet.file,
        ifd_of(frames, i),
        frames[i],
        i + 1 < n,
        resolution,
        if i + 1 < n {
            ifd_of(frames, i + 1)
        } else {
            0
        },
    );
    let w = frames[i].width as int;
    let h = frames[i].height as int;
    assert(w * (h * 3) == w * h * 3) by (nonlinear_arith);
    assert(h * 3 <= w * h * 3) by (nonlinear_arith)
        requires
            0 < w,
            0 < h,
    ;
}

/// The pages of a written document are accepted one after the other.
proof fn lemma_accepted(frames: Seq<Frame>, resolution: int, i: int)
    requires
        tiff_document(frames, resolution) is Ok,
        frame_bytes(frames) <= MAX_IMAGE_BYTES,
        0 <= i < frames.len(),
    ensures
        frames[i].wf(),
        frame_aggregate(
            frame_bytes(frames.take(i)),
            frames[i].width as int,
            frames[i].height as int,
        ) == Ok::<int, Failure>(frame_bytes(frames.take(i + 1))),
        frames[i].data.len() == frames[i].width * frames[i].height * 3,
{
    let n = frames.len() as int;
    lemma_pages_keep_limits(frames, n, resolution, n, i);
    assert(frames.take(i + 1).drop_last() =~= frames.take(i));
    lemma_frame_bytes(frames, i + 1);
}

/// A written document is read back: it begins with the mark of little-endian documents, and the chain
/// of directories from the header's offset gives the pages in order, with their sizes and pixels, and
/// then ends.
pub proof fn document_reads_back(frames: Seq<Frame>, resolution: int)
    requires
        tiff_document(frames, resolution) is Ok,
    ensures
        ({
            let file = tiff_document(frames, resolution)->Ok_0;
            &&& file.take(4) == seq![0x49u8, 0x49, 0x2a, 0]
            &&& chain_from(file, read32(file, 4), (frames.len() + 1) as nat) == frames
        }),
{
    let n = frames.len() as int;
    let sheet = sheet_of(frames, n, resolution, n)->Ok_0;
    lemma_stacked(frames, n, resolution, n);
    let file = sheet.file;
    assert(file.take(4) =~= seq![0x49u8, 0x49, 0x2a, 0]) by {
        assert forall|k: int| 0 <= k < 4 implies file.take(4)[k] == tiff_header()[k] by {
            assert(file.subrange(0, 8)[k] == tiff_header()[k]);
        }
    }
    assert(file.subrange(4, 8) =~= le32(8)) by {
        assert forall|k: int| 0 <= k < 4 implies file.subrange(4, 8)[k] == le32(8)[k] by {
            assert(file.subrange(0, 8)[4 + k] == tiff_header()[4 + k]);
        }
    }
    lemma_read32(file, 4, 8);
    lemma_chain(frames, resolution, sheet, 0);
    assert(frames.skip(0) =~= frames);
}

/// The RGB bytes of a picture show each pixel where it is: gray as three equal colors, and without
/// alpha.
pub proof fn rgb_bytes_show_their_picture(p: Picture, x: int, y: int, c: int)
    requires
        p.wf(),
        0 <= x < p.width,
        0 <= y < p.height,
        0 <= c < 3,
    ensures
        rgb_frame(p).width == p.width,
        rgb_frame(p).height == p.height,
        rgb_frame(p).data.len() == p.width * p.height * 3,
        p.pixel_format == PixelFormat::Gray8 ==> rgb_frame(p).data[(y * p.width + x) * 3 + c]
            == p.at(x, y, 0),
        p.pixel_format != PixelFormat::Gray8 ==> rgb_frame(p).data[(y * p.width + x) * 3 + c]
            == p.at(x, y, c),
{
    crate::geometry::lemma_wf(p);
    crate::geometry::lemma_place(p.width as int, p.height as int, 3, x, y, c);
}

/// The 16-bit number at a place of bytes.
pub open spec fn read16(bytes: Seq<u8>, at: int) -> int {
    bytes[at] + 256 * bytes[at + 1]
}

/// Whether an entry of a directory with given numbers stands at a place.
pub open spec fn is_entry(bytes: Seq<u8>, at: int, tag: int, typ: int, count: int, value: int) -> bool {
    &&& read16(bytes, at) == tag
    &&& read16(bytes, at + 2) == typ
    &&& read32(bytes, at + 4) == count
    &&& read32(bytes, at + 8) == value
}

proof fn lemma_entry_len(tag: int, typ: int, count: int, value: int)
    ensures
        entry_bytes(tag, typ, count, value).len() == 12,
{
    reveal(entry_bytes);
}

proof fn lemma_is_entry(bytes: Seq<u8>, at: int, tag: int, typ: int, count: int, value: int)
    requires
        0 <= at,
        at + 12 <= bytes.len(),
        bytes.subrange(at, at + 12) == entry_bytes(tag, typ, count, value),
        0 <= tag <= 0xFFFF,
        0 <= typ <= 0xFFFF,
        0 <= count <= u32::MAX,
        0 <= value <= u32::MAX,
    ensures
        is_entry(bytes, at, tag, typ, count, value),
{
    reveal(entry_bytes);
    lemma_le32(count);
    lemma_le32(value);
    let part = bytes.subrange(at, at + 12);
    assert(part[0] == bytes[at] && part[1] == bytes[at + 1]);
    assert(part[2] == bytes[at + 2] && part[3] == bytes[at + 3]);
    assert(part.subrange(4, 8) =~= le32(count));
    assert(part.subrange(8, 12) =~= le32(value));
    assert(bytes.subrange(at + 4, at + 8) =~= le32(count));
    assert(bytes.subrange(at + 8, at + 12) =~= le32(value));
    lemma_read32(bytes, at + 4, count);
    lemma_read32(bytes, at + 8, value);
    assert(part[0] == (tag % 256) as u8 && part[1] == (tag / 256 % 256) as u8);
    assert(part[2] == (typ % 256) as u8 && part[3] == (typ / 256 % 256) as u8);
}

/// A page has a directory of twelve entries in the order of their tags: the width, the height, eight bits
/// for each of three samples, no compression, RGB, where the one strip stands and how long it is, and the
/// resolution of both axes in pixels an inch. Its pixels stand behind it.
#[verifier::spinoff_prover]
#[verifier::rlimit(90)]
pub proof fn pages_are_tagged(frame: Frame, layout: TiffPageLayout, resolution: int, link: int)
    requires
        0 <= resolution <= u32::MAX,
        0 <= link <= u32::MAX,
    ensures
        ({
            let page = page_bytes(frame, layout, resolution, link);
            &&& page.len() == 172 + frame.data.len()
            &&& read16(page, 0) == 12
            &&& is_entry(page, 2, 256, 4, 1, frame.width as int)
            &&& is_entry(page, 14, 257, 4, 1, frame.height as int)
            &&& is_entry(page, 26, 258, 3, 3, layout.bps_at as int)
            &&& is_entry(page, 38, 259, 3, 1, 1)
            &&& is_entry(page, 50, 262, 3, 1, 2)
            &&& is_entry(page, 62, 273, 4, 1, layout.strip_at as int)
            &&& is_entry(page, 74, 277, 3, 1, 3)
            &&& is_entry(page, 86, 278, 4, 1, frame.height as int)
            &&& is_entry(page, 98, 279, 4, 1, layout.strip_len as int)
            &&& is_entry(page, 110, 282, 5, 1, layout.xres_at as int)
            &&& is_entry(page, 122, 283, 5, 1, layout.yres_at as int)
            &&& is_entry(page, 134, 296, 3, 1, 2)
            &&& read32(page, 146) == link
            &&& read16(page, 150) == 8 && read16(page, 152) == 8 && read16(page, 154) == 8
            &&& read32(page, 156) == resolution && read32(page, 160) == 1
            &&& read32(page, 164) == resolution && read32(page, 168) == 1
            &&& page.skip(172) == frame.data
        }),
{
    let page = page_bytes(frame, layout, resolution, link);
    reveal(page_bytes);
    reveal(ifd_bytes);
    lemma_entry_len(256, 4, 1, frame.width as int);
    lemma_entry_len(257, 4, 1, frame.height as int);
    lemma_entry_len(258, 3, 3, layout.bps_at as int);
    lemma_entry_len(259, 3, 1, 1);
    lemma_entry_len(262, 3, 1, 2);
    lemma_entry_len(273, 4, 1, layout.strip_at as int);
    lemma_entry_len(277, 3, 1, 3);
    lemma_entry_len(278, 4, 1, frame.height as int);
    lemma_entry_len(279, 4, 1, layout.strip_len as int);
    lemma_entry_len(282, 5, 1, layout.xres_at as int);
    lemma_entry_len(283, 5, 1, layout.yres_at as int);
    lemma_entry_len(296, 3, 1, 2);
    assert(page.subrange(2, 14) =~= entry_bytes(256, 4, 1, frame.width as int));
    lemma_is_entry(page, 2, 256, 4, 1, frame.width as int);
    assert(page.subrange(14, 26) =~= entry_bytes(257, 4, 1, frame.height as int));
    lemma_is_entry(page, 14, 257, 4, 1, frame.height as int);
    assert(page.subrange(26, 38) =~= entry_bytes(258, 3, 3, layout.bps_at as int));
    lemma_is_entry(page, 26, 258, 3, 3, layout.bps_at as int);
    assert(page.subrange(38, 50) =~= entry_bytes(259, 3, 1, 1));
    lemma_is_entry(page, 38, 259, 3, 1, 1);
    assert(page.subrange(50, 62) =~= entry_bytes(262, 3, 1, 2));
    lemma_is_entry(page, 50, 262, 3, 1, 2);
    assert(page.subrange(62, 74) =~= entry_bytes(273, 4, 1, layout.strip_at as int));
    lemma_is_entry(page, 62, 273, 4, 1, layout.strip_at as int);
    assert(page.subrange(74, 86) =~= entry_bytes(277, 3, 1, 3));
    lemma_is_entry(page, 74, 277, 3, 1, 3);
    assert(page.subrange(86, 98) =~= entry_bytes(278, 4, 1, frame.height as int));
    lemma_is_entry(page, 86, 278, 4, 1, frame.height as int);
    assert(page.subrange(98, 110) =~= entry_bytes(279, 4, 1, layout.strip_len as int));
    lemma_is_entry(page, 98, 279, 4, 1, layout.strip_len as int);
    assert(page.subrange(110, 122) =~= entry_bytes(282, 5, 1, layout.xres_at as int));
    lemma_is_entry(page, 110, 282, 5, 1, layout.xres_at as int);
    assert(page.subrange(122, 134) =~= entry_bytes(283, 5, 1, layout.yres_at as int));
    lemma_is_entry(page, 122, 283, 5, 1, layout.yres_at as int);
    assert(page.subrange(134, 146) =~= entry_bytes(296, 3, 1, 2));
    lemma_is_entry(page, 134, 296, 3, 1, 2);
    assert(page.subrange(146, 150) =~= le32(link));
    lemma_read32(page, 146, link);
    assert(page.subrange(156, 160) =~= le32(resolution));
    lemma_read32(page, 156, resolution);
    assert(page.subrange(160, 164) =~= le32(1));
    lemma_read32(page, 160, 1);
    assert(page.subrange(164, 168) =~= le32(resolution));
    lemma_read32(page, 164, resolution);
    assert(page.subrange(168, 172) =~= le32(1));
    lemma_read32(page, 168, 1);
    assert(page.skip(172) =~= frame.data);
}

/// A document has the resolution that was given, 72 where none was, and never none at all.
pub proof fn documents_have_a_resolution(dpi: u32)
    ensures
        page_resolution(None) == 72,
        dpi >= 1 ==> page_resolution(Some(dpi)) == dpi,
        dpi == 0 ==> page_resolution(Some(dpi)) == 1,
{
}

/// A gray page that is decoded has each of its samples as the three colors of a pixel; the samples of an
/// RGB page are kept.
pub proof fn decoded_pages_keep_their_samples(bytes: Seq<u8>, i: int, c: int)
    requires
        0 <= i < bytes.len(),
        0 <= c < 3,
    ensures
        decoded_rgb(TiffColor::Gray8, bytes).len() == 3 * bytes.len(),
        decoded_rgb(TiffColor::Gray8, bytes)[3 * i + c] == bytes[i],
        decoded_rgb(TiffColor::Rgb8, bytes) == bytes,
{
}

/// The document of some images is read back as one page for each of them, in their order and with their
/// pixels.
pub proof fn documents_show_their_images(
    images: Seq<ImageBuffer>,
    resolution: int,
    document: Seq<u8>,
    i: int,
)
    requires
        tiff_document(pages_of(images), resolution) == Ok::<Seq<u8>, Failure>(document),
        0 <= i < images.len(),
    ensures
        chain_from(document, read32(document, 4), (images.len() + 1) as nat).len() == images.len(),
        chain_from(document, read32(document, 4), (images.len() + 1) as nat)[i] == rgb_frame(images[i]@),
{
    document_reads_back(pages_of(images), resolution);
}

/// A document of stored pages that is published is read back as one page for each of them, in their order:
/// page `i` is what was loaded as page `i` and then transformed.
pub proof fn documents_show_their_stored_pages<
    L: Fn(usize) -> Result<ImageBuffer, ScanError>,
    F: Fn(&ImageBuffer) -> Result<ImageBuffer, ScanError>,
>(
    frames: Seq<Frame>,
    document: Seq<u8>,
    page_count: usize,
    load: L,
    transform: F,
    resolution: int,
    polls: Polls,
    i: int,
)
    requires
        document_run(
            frames,
            Ok::<Seq<u8>, Failure>(document),
            page_count as int,
            load,
            transform,
            resolution,
            polls,
        ),
        0 <= i < page_count,
    ensures
        chain_from(document, read32(document, 4), (page_count + 1) as nat).len() == page_count,
        exists|image: ImageBuffer, out: ImageBuffer|
            #![trigger call_ensures(transform, (&image,), Ok::<ImageBuffer, ScanError>(out))]
            call_ensures(load, (i as usize,), Ok::<ImageBuffer, ScanError>(image)) && call_ensures(
                transform,
                (&image,),
                Ok::<ImageBuffer, ScanError>(out),
            ) && chain_from(document, read32(document, 4), (page_count + 1) as nat)[i] == rgb_frame(
                out@,
            ),
{
    document_reads_back(frames, resolution);
    assert(page_made(load, transform, i, frames[i]));
}

} // verus!
