//! Acquisition values, policies, column calibration and the file-image device.

use crate::error::{
    invalid, joined, other, outcome_view, cancelled, unsupported, Failure, ScanError,
};
use crate::geometry::{crop, cropped, lemma_wf, remap, remapped, Mapping};
use crate::image::{image_len, ImageBuffer, Picture, PixelFormat, Rect};
use crate::processing::{plain_prefs, PipelinePrefs, Prefs, Real};
use crate::text::{chars_of, has_prefix, starts_with, text_of};
use vstd::prelude::*;
use vstd::slice::slice_subrange;

verus! {

/// Lowest physical acquisition resolution accepted by shared scan paths.
pub const MIN_SCAN_DPI: u32 = 50;

/// The highest number of pages that one acquisition may return.
pub const MAX_SCAN_PAGES: u32 = 1000;

/// Refuses a resolution below the lowest on either axis.
pub fn validate_scan_dpi(dpi_x: u32, dpi_y: u32) -> (r: Result<(), ScanError>)
    ensures
        r is Ok <==> dpi_x >= 50 && dpi_y >= 50,
        r is Ok <==> dpi_x >= MIN_SCAN_DPI && dpi_y >= MIN_SCAN_DPI,
        r is Err ==> r->Err_0@ == low_resolution(),
{
    if dpi_x < MIN_SCAN_DPI || dpi_y < MIN_SCAN_DPI {
        return Err(invalid("scan resolution must be at least 50 dpi on each axis"));
    }
    Ok(())
}

/// The refusal of a resolution that is too low.
pub open spec fn low_resolution() -> Failure {
    Failure::Invalid("scan resolution must be at least 50 dpi on each axis"@)
}

/// What is scanned.
#[derive(Debug, Clone, Copy, PartialEq, Eq, Structural)]
pub enum ScanMode {
    Reflective,
    Film,
    Document,
}

impl Default for ScanMode {
    fn default() -> (r: Self)
        ensures
            r == ScanMode::Reflective,
    {
        ScanMode::Reflective
    }
}

/// One acquisition.
#[derive(Debug, PartialEq, Eq)]
pub struct ScanRequest {
    pub device_id: String,
    pub mode: ScanMode,
    pub duplex: bool,
    pub dpi_x: u32,
    pub dpi_y: u32,
    pub width: u32,
    pub height: u32,
    pub pixel_format: PixelFormat,
    /// Optional device-space acquisition region.
    pub region: Option<Rect>,
    pub seed: u32,
    pub pipeline: PipelinePrefs,
}

/// An acquisition with its text as a sequence.
pub struct Request {
    pub device_id: Seq<char>,
    pub mode: ScanMode,
    pub duplex: bool,
    pub dpi_x: u32,
    pub dpi_y: u32,
    pub width: u32,
    pub height: u32,
    pub pixel_format: PixelFormat,
    pub region: Option<Rect>,
    pub seed: u32,
    pub pipeline: Prefs,
}

impl View for ScanRequest {
    type V = Request;

    open spec fn view(&self) -> Request {
        Request {
            device_id: self.device_id@,
            mode: self.mode,
            duplex: self.duplex,
            dpi_x: self.dpi_x,
            dpi_y: self.dpi_y,
            width: self.width,
            height: self.height,
            pixel_format: self.pixel_format,
            region: self.region,
            seed: self.seed,
            pipeline: self.pipeline@,
        }
    }
}

/// The request that stands where none was made.
pub open spec fn default_request() -> Request {
    Request {
        device_id: "mock"@,
        mode: ScanMode::Reflective,
        duplex: false,
        dpi_x: 150,
        dpi_y: 150,
        width: 320,
        height: 240,
        pixel_format: PixelFormat::Rgb8,
        region: None,
        seed: 1,
        pipeline: plain_prefs(),
    }
}

impl Default for ScanRequest {
    fn default() -> (r: Self)
        ensures
            r@ == default_request(),
    {
        ScanRequest {
            device_id: "mock".to_owned(),
            mode: ScanMode::Reflective,
            duplex: false,
            dpi_x: 150,
            dpi_y: 150,
            width: 320,
            height: 240,
            pixel_format: PixelFormat::Rgb8,
            region: None,
            seed: 1,
            pipeline: PipelinePrefs::default(),
        }
    }
}

impl Clone for ScanRequest {
    fn clone(&self) -> (r: Self)
        ensures
            r@ == self@,
    {
        ScanRequest {
            device_id: self.device_id.clone(),
            mode: self.mode,
            duplex: self.duplex,
            dpi_x: self.dpi_x,
            dpi_y: self.dpi_y,
            width: self.width,
            height: self.height,
            pixel_format: self.pixel_format,
            region: self.region,
            seed: self.seed,
            pipeline: self.pipeline.clone(),
        }
    }
}

/// Progress callback payload for scan and batch.
#[derive(Debug)]
pub struct ScanProgress {
    pub phase: String,
    pub percent: Real,
    pub message: String,
}

impl ScanProgress {
    pub fn new(phase: String, percent: Real, message: String) -> (r: Self)
        ensures
            r == (ScanProgress { phase, percent, message }),
    {
        ScanProgress { phase, percent, message }
    }
}

/// Controls opt-in device-opening exceptions. Defaults remain conservative.
#[derive(Debug, Clone, Copy)]
pub struct DeviceOpenPolicy {
    pub allow_unlisted_escl: bool,
}

impl Default for DeviceOpenPolicy {
    fn default() -> (r: Self)
        ensures
            !r.allow_unlisted_escl,
    {
        DeviceOpenPolicy { allow_unlisted_escl: false }
    }
}

/// A scanner that can be opened.
#[derive(Debug, PartialEq, Eq)]
pub struct DeviceInfo {
    pub id: String,
    pub name: String,
    pub backend: String,
}

/// A scanner with its texts as sequences.
pub struct Device {
    pub id: Seq<char>,
    pub name: Seq<char>,
    pub backend: Seq<char>,
}

impl View for DeviceInfo {
    type V = Device;

    open spec fn view(&self) -> Device {
        Device { id: self.id@, name: self.name@, backend: self.backend@ }
    }
}

impl Clone for DeviceInfo {
    fn clone(&self) -> (r: Self)
        ensures
            r@ == self@,
    {
        DeviceInfo { id: self.id.clone(), name: self.name.clone(), backend: self.backend.clone() }
    }
}

impl DeviceInfo {
    pub fn new(id: String, name: String, backend: &str) -> (r: Self)
        ensures
            r@ == (Device { id: id@, name: name@, backend: backend@ }),
    {
        DeviceInfo { id, name, backend: backend.to_owned() }
    }
}

/// The scanners that a vector holds.
pub open spec fn devices_of(v: Seq<DeviceInfo>) -> Seq<Device> {
    v.map_values(|d: DeviceInfo| d@)
}

/// A way to reach scanners.
#[derive(Debug, PartialEq, Eq)]
pub struct BackendInfo {
    pub id: String,
    pub name: String,
    pub available: bool,
}

/// Why a multi-page acquisition ended.
#[derive(Debug, Clone, Copy, PartialEq, Eq, Structural)]
pub enum ScanPagesEnd {
    FeederExhausted,
    LimitReached,
}

/// The end of a multi-page acquisition.
#[derive(Debug, Clone, Copy, PartialEq, Eq, Structural)]
pub struct ScanPagesResult {
    pub pages: u32,
    pub end: ScanPagesEnd,
}

/// The refusal of a duplex request for a single page.
pub open spec fn single_page_duplex() -> Failure {
    Failure::Unsupported("duplex scanning requires multi-page acquisition"@)
}

/// Refuses a duplex request where a single page is asked for.
pub fn reject_single_page_duplex(request: &ScanRequest) -> (r: Result<(), ScanError>)
    ensures
        r is Ok <==> !request.duplex,
        r is Err ==> r->Err_0@ == single_page_duplex(),
{
    if request.duplex {
        return Err(unsupported("duplex scanning requires multi-page acquisition"));
    }
    Ok(())
}

/// The refusal of a page limit.
pub open spec fn bad_page_limit() -> Failure {
    Failure::Invalid("page limit must be between 1 and 1000"@)
}

/// Refuses a page limit of none, and one above the highest.
pub fn validate_page_limit(max_pages: u32) -> (r: Result<(), ScanError>)
    ensures
        r is Ok <==> 1 <= max_pages <= 1000,
        r is Ok <==> 1 <= max_pages <= MAX_SCAN_PAGES,
        r is Err ==> r->Err_0@ == bad_page_limit(),
{
    if max_pages == 0 || max_pages > MAX_SCAN_PAGES {
        return Err(invalid("page limit must be between 1 and 1000"));
    }
    Ok(())
}

// ---------------------------------------------------------------------------
// Column calibration
// ---------------------------------------------------------------------------

/// The table that corrects column `x` of `w` columns, out of `n` tables spread over the width.
pub open spec fn column_table(x: int, w: int, n: int) -> int {
    if w > 1 {
        (x * (n - 1)) / (w - 1)
    } else {
        0
    }
}

/// The byte at a place of the calibrated image: colour bytes go through their column's table, an
/// alpha byte stays.
pub open spec fn calibrated_byte(p: Picture, tables: Seq<Vec<u8>>, k: int) -> u8 {
    let bpp = p.pixel_format.spec_bpp();
    let x = (k / bpp) % (p.width as int);
    if k % bpp >= 3 {
        p.data[k]
    } else {
        tables[column_table(x, p.width as int, tables.len() as int)]@[p.data[k] as int]
    }
}

/// The calibrated image.
pub open spec fn calibrated(p: Picture, tables: Seq<Vec<u8>>) -> Picture {
    if tables.len() == 0 {
        p
    } else {
        Picture { data: Seq::new(p.data.len(), |k: int| calibrated_byte(p, tables, k)), ..p }
    }
}

/// Corrects every column with the dark subtraction and flat-field gain of its table. A table holds
/// the corrected value of every byte.
pub fn apply_flat_dark_cal(image: &ImageBuffer, tables: &Vec<Vec<u8>>) -> (r: Result<
    ImageBuffer,
    ScanError,
>)
    requires
        image@.wf(),
        forall|i: int| 0 <= i < tables@.len() ==> (#[trigger] tables@[i])@.len() == 256,
    ensures
        r is Ok,
        r->Ok_0@ == calibrated(image@, tables@),
{
    if tables.len() == 0 {
        return Ok(image.clone());
    }
    proof {
        lemma_wf(image@);
    }
    let ghost p = image@;
    let count: usize = tables.len();
    let w: usize = image.width as usize;
    let bpp: usize = image.bpp();
    let total: usize = image.data.len();
    let ghost goal = calibrated(p, tables@).data;
    let mut out: Vec<u8> = Vec::new();
    let mut k: usize = 0;
    while k < total
        invariant
            p == image@,
            p.wf(),
            count == tables@.len(),
            1 <= count,
            0 < w <= 65535,
            w == p.width,
            bpp == p.pixel_format.spec_bpp(),
            1 <= bpp <= 4,
            total == p.data.len(),
            forall|i: int| 0 <= i < tables@.len() ==> (#[trigger] tables@[i])@.len() == 256,
            goal == calibrated(p, tables@).data,
            k <= total,
            out@ == goal.take(k as int),
        decreases total - k,
    {
        let byte: u8 = if k % bpp >= 3 {
            image.data[k]
        } else {
            let x: usize = (k / bpp) % w;
            let index: usize = if w > 1 {
                proof {
                    assert(x * (count - 1) <= 65535 * u64::MAX) by (nonlinear_arith)
                        requires
                            x < w <= 65535,
                            1 <= count <= u64::MAX,
                    ;
                    assert((x * (count - 1)) / (w - 1) < count) by (nonlinear_arith)
                        requires
                            0 <= x < w,
                            w > 1,
                            count >= 1,
                    ;
                }
                let product: u128 = x as u128 * (count - 1) as u128;
                (product / (w - 1) as u128) as usize
            } else {
                0
            };
            tables[index][image.data[k] as usize]
        };
        out.push(byte);
        k += 1;
        assert(out@ =~= goal.take(k as int));
    }
    assert(out@ =~= goal);
    ImageBuffer::new(image.width, image.height, image.pixel_format, out)
}

// ---------------------------------------------------------------------------
// File-image device
// ---------------------------------------------------------------------------

/// File-image backend: device id `file:PATH` or `file://PATH`.
#[derive(Debug, Clone, Copy)]
pub struct FileBackend;

impl FileBackend {
    /// The device that a configured source makes: none where the source, without surrounding white
    /// space, is empty or not a file.
    pub fn list_devices(
        source: &str,
        is_file: bool,
        file_name: Option<String>,
        canonical: String,
    ) -> (r: Vec<DeviceInfo>)
        ensures
            devices_of(r@) == if crate::text::trim(source@).len() == 0 || !is_file {
                Seq::<Device>::empty()
            } else {
                seq![
                    Device {
                        id: "file:"@ + canonical@,
                        name: "File source ("@ + (match file_name {
                            Some(name) => name@,
                            None => crate::text::trim(source@),
                        }) + ")"@,
                        backend: "file"@,
                    },
                ]
            },
    {
        let chars = chars_of(source);
        let path = crate::text::trimmed(&chars);
        let mut r: Vec<DeviceInfo> = Vec::new();
        if path.len() == 0 || !is_file {
            assert(devices_of(r@) =~= Seq::<Device>::empty());
            return r;
        }
        let shown: String = match file_name {
            Some(name) => name,
            None => text_of(path),
        };
        let name = joined(joined("File source (", shown.as_str()).as_str(), ")");
        let device = DeviceInfo::new(joined("file:", canonical.as_str()), name, "file");
        let ghost made = device@;
        r.push(device);
        assert(devices_of(r@) =~= seq![made]);
        r
    }
}

/// The path in a file device id.
pub open spec fn file_device_path(id: Seq<char>) -> Seq<char> {
    if starts_with(id, "file://"@) {
        id.skip(7)
    } else if starts_with(id, "file:"@) {
        id.skip(5)
    } else {
        id
    }
}

/// The path in a file device id: what follows `file://` or `file:`, or the id itself.
pub fn parse_file_device_id(device_id: &str) -> (r: String)
    ensures
        r@ == file_device_path(device_id@),
{
    proof {
        reveal_strlit("file://");
        reveal_strlit("file:");
    }
    let id = chars_of(device_id);
    if has_prefix(&id, &chars_of("file://")) {
        let rest = slice_subrange(&id, 7, id.len());
        assert(rest@ =~= device_id@.skip(7));
        text_of(rest)
    } else if has_prefix(&id, &chars_of("file:")) {
        let rest = slice_subrange(&id, 5, id.len());
        assert(rest@ =~= device_id@.skip(5));
        text_of(rest)
    } else {
        text_of(&id)
    }
}

/// The path behind a `file:` prefix is found again, unless it begins with two slashes.
pub proof fn file_device_round_trip(path: Seq<char>)
    requires
        !starts_with(path, "//"@),
    ensures
        file_device_path("file:"@ + path) == path,
{
    reveal_strlit("file://");
    reveal_strlit("file:");
    reveal_strlit("//");
    let id = "file:"@ + path;
    assert(id.take(5) =~= "file:"@);
    assert(id.skip(5) =~= path);
    if starts_with(id, "file://"@) {
        assert(path.take(2) =~= "//"@) by {
            assert(id.take(7)[5] == '/' && id.take(7)[6] == '/');
            assert(id[5] == path[0] && id[6] == path[1]);
        }
    }
}

/// A session on an image file.
#[derive(Debug)]
pub struct FileDeviceSession {
    path: String,
    closed: bool,
    cancelled: bool,
    source: Option<ImageBuffer>,
}

/// A session on an image file, with its text and image as sequences.
pub struct FileSession {
    pub path: Seq<char>,
    pub closed: bool,
    pub cancelled: bool,
    pub source: Option<Picture>,
}

impl View for FileDeviceSession {
    type V = FileSession;

    closed spec fn view(&self) -> FileSession {
        FileSession {
            path: self.path@,
            closed: self.closed,
            cancelled: self.cancelled,
            source: match self.source {
                Some(image) => Some(image@),
                None => None,
            },
        }
    }
}

/// The image scaled to a size by nearest neighbours; the image itself where it has that size.
pub open spec fn resized(p: Picture, width: u32, height: u32) -> Result<Picture, Failure> {
    if width == p.width && height == p.height {
        Ok(p)
    } else {
        match image_len(width as int, height as int, p.pixel_format.spec_bpp()) {
            Ok(_len) => Ok(
                Picture {
                    width,
                    height,
                    pixel_format: p.pixel_format,
                    data: remapped(p, Mapping::Scale, width as int, height as int),
                },
            ),
            Err(failure) => Err(failure),
        }
    }
}

/// What a scan of a file returns, once its image is loaded.
pub open spec fn file_page(p: Picture, request: Request) -> Result<Picture, Failure> {
    let scaled = if request.width > 0 && request.height > 0 {
        resized(p, request.width, request.height)
    } else {
        Ok(p)
    };
    match scaled {
        Err(failure) => Err(failure),
        Ok(page) => match request.region {
            Some(region) => cropped(page, region),
            None => Ok(page),
        },
    }
}

/// What has to happen next for a scan.
#[derive(Debug, Clone, Copy, PartialEq, Eq, Structural)]
pub enum FileScanStep {
    /// The image has to be read from the session's path.
    Load,
    /// The image is there.
    Ready,
}

impl FileDeviceSession {
    /// An open session that has read nothing yet.
    pub fn new(path: String) -> (r: Self)
        ensures
            r@ == (FileSession { path: path@, closed: false, cancelled: false, source: None }),
    {
        FileDeviceSession { path, closed: false, cancelled: false, source: None }
    }

    /// The file that the session reads.
    pub fn path(&self) -> (r: &str)
        ensures
            r@ == self@.path,
    {
        self.path.as_str()
    }

    /// Whether a scan may go on: not for a duplex request, in a closed session or a cancelled one.
    pub fn begin_scan(&self, request: &ScanRequest) -> (r: Result<FileScanStep, ScanError>)
        ensures
            match r {
                Ok(step) => !request.duplex && !self@.closed && !self@.cancelled && (step
                    == FileScanStep::Load <==> self@.source is None),
                Err(error) => error@ == if request.duplex {
                    single_page_duplex()
                } else if self@.closed {
                    Failure::Other("session closed"@)
                } else {
                    Failure::Cancelled("scan cancelled"@)
                } && (request.duplex || self@.closed || self@.cancelled),
            },
    {
        match reject_single_page_duplex(request) {
            Ok(()) => {},
            Err(error) => {
                return Err(error);
            },
        }
        if self.closed {
            return Err(other("session closed"));
        }
        if self.cancelled {
            return Err(cancelled("scan cancelled"));
        }
        match self.source {
            Some(_) => Ok(FileScanStep::Ready),
            None => Ok(FileScanStep::Load),
        }
    }

    /// Keeps the image that was read; a missing file is an unknown device, and an image that could
    /// not be read leaves the session as it was.
    pub fn load(&mut self, is_file: bool, decoded: Result<ImageBuffer, ScanError>) -> (r: Result<
        (),
        ScanError,
    >)
        ensures
            match r {
                Ok(()) => old(self)@.source is Some && *final(self) == *old(self) || old(
                    self,
                )@.source is None && is_file && decoded is Ok && final(self)@ == (FileSession {
                    source: Some(decoded->Ok_0@),
                    ..old(self)@
                }),
                Err(error) => old(self)@.source is None && *final(self) == *old(self) && (!is_file
                    && error@ == Failure::DeviceNotFound(
                    "file device source missing: "@ + old(self)@.path,
                ) || is_file && decoded is Err && error@ == decoded->Err_0@),
            },
    {
        if self.source.is_some() {
            return Ok(());
        }
        if !is_file {
            return Err(
                ScanError::DeviceNotFound(
                    joined("file device source missing: ", self.path.as_str()),
                ),
            );
        }
        match decoded {
            Ok(image) => {
                self.source = Some(image);
                Ok(())
            },
            Err(error) => Err(error),
        }
    }

    /// The page that the loaded image makes: scaled to the requested size and cut to the region. A
    /// duplex request, a closed session and a cancelled one are refused, in this order.
    pub fn scan(&self, request: &ScanRequest) -> (r: Result<ImageBuffer, ScanError>)
        requires
            !request.duplex && !self@.closed && !self@.cancelled ==> self@.source is Some
                && self@.source->0.wf(),
        ensures
            outcome_view(r) == if request.duplex {
                Err(single_page_duplex())
            } else if self@.closed {
                Err(Failure::Other("session closed"@))
            } else if self@.cancelled {
                Err(Failure::Cancelled("scan cancelled"@))
            } else {
                file_page(self@.source->0, request@)
            },
    {
        match self.begin_scan(request) {
            Ok(_step) => {},
            Err(error) => {
                return Err(error);
            },
        }
        let loaded = match &self.source {
            Some(image) => image,
            None => {
                return Err(other("session closed"));
            },
        };
        let page = if request.width > 0 && request.height > 0 {
            match FileDeviceSession::resize_nearest(loaded, request.width, request.height) {
                Ok(page) => page,
                Err(error) => {
                    return Err(error);
                },
            }
        } else {
            loaded.clone()
        };
        match request.region {
            Some(region) => crop(&page, region),
            None => Ok(page),
        }
    }

    /// Nearest-neighbor resize to request width/height.
    pub fn resize_nearest(image: &ImageBuffer, width: u32, height: u32) -> (r: Result<
        ImageBuffer,
        ScanError,
    >)
        requires
            image@.wf(),
        ensures
            outcome_view(r) == resized(image@, width, height),
            r is Ok ==> r->Ok_0@.wf(),
    {
        if width == image.width && height == image.height {
            return Ok(image.clone());
        }
        remap(image, Mapping::Scale, width, height)
    }

    /// Stops the scans that follow.
    pub fn cancel(&mut self)
        ensures
            final(self)@ == (FileSession { cancelled: true, ..old(self)@ }),
    {
        self.cancelled = true;
    }

    /// Closes the session and forgets the image.
    pub fn close(&mut self)
        ensures
            final(self)@ == (FileSession { closed: true, source: None, ..old(self)@ }),
    {
        self.closed = true;
        self.source = None;
    }
}

/// A page that is scanned without a region has exactly the size that was asked for.
pub proof fn pages_have_the_requested_size(p: Picture, request: Request)
    requires
        request.width > 0,
        request.height > 0,
        request.region is None,
        file_page(p, request) is Ok,
    ensures
        file_page(p, request)->Ok_0.width == request.width,
        file_page(p, request)->Ok_0.height == request.height,
        file_page(p, request)->Ok_0.pixel_format == p.pixel_format,
{
}

/// Scaling an image to its own size changes nothing, also by way of the pixel mapping.
pub proof fn resize_to_own_size(p: Picture)
    requires
        p.wf(),
    ensures
        resized(p, p.width, p.height) == Ok::<Picture, Failure>(p),
        remapped(p, Mapping::Scale, p.width as int, p.height as int) == p.data,
{
    lemma_wf(p);
    let q = Picture {
        data: remapped(p, Mapping::Scale, p.width as int, p.height as int),
        ..p
    };
    assert forall|x: int, y: int, c: int|
        0 <= x < q.width && 0 <= y < q.height && 0 <= c < q.pixel_format.spec_bpp()
        implies #[trigger] q.at(x, y, c) == p.at(x, y, c) by {
        crate::geometry::lemma_remapped_at(p, Mapping::Scale, q, x, y, c);
        let w = p.width as int;
        let h = p.height as int;
        assert((x * w) / w == x) by (nonlinear_arith)
            requires
                w > 0,
        ;
        assert((y * h) / h == y) by (nonlinear_arith)
            requires
                h > 0,
        ;
    }
    crate::geometry::lemma_same_pixels(q, p);
}

/// Each pixel of a scaled picture, whether it grew or shrank, is the one of the picture in column
/// `x * w / width` and row `y * h / height`, rounded down.
pub proof fn scaled_pixels_are_their_nearest(
    p: Picture,
    width: u32,
    height: u32,
    q: Picture,
    x: int,
    y: int,
    c: int,
)
    requires
        p.wf(),
        resized(p, width, height) == Ok::<Picture, Failure>(q),
        0 <= x < width,
        0 <= y < height,
        0 <= c < p.pixel_format.spec_bpp(),
    ensures
        q.width == width,
        q.height == height,
        q.pixel_format == p.pixel_format,
        0 <= (x * p.width) / (width as int) < p.width,
        0 <= (y * p.height) / (height as int) < p.height,
        q.at(x, y, c) == p.at((x * p.width) / (width as int), (y * p.height) / (height as int), c),
{
    lemma_wf(p);
    let w = p.width as int;
    let h = p.height as int;
    crate::geometry::lemma_source(Mapping::Scale, w, h, width as int, height as int, x, y);
    if width == p.width && height == p.height {
        assert((x * w) / w == x) by (nonlinear_arith)
            requires
                w > 0,
        ;
        assert((y * h) / h == y) by (nonlinear_arith)
            requires
                h > 0,
        ;
    } else {
        crate::geometry::lemma_remapped_at(p, Mapping::Scale, q, x, y, c);
    }
}

/// Every size that an image may have can be scaled to.
pub proof fn accepted_sizes_can_be_scaled_to(p: Picture, width: u32, height: u32)
    requires
        p.wf(),
    ensures
        resized(p, width, height) is Ok <==> 0 < width <= 65535 && 0 < height <= 65535 && width
            * height * p.pixel_format.spec_bpp() <= 512 * 1024 * 1024,
{
    lemma_wf(p);
    crate::image::accepted_sizes(width as int, height as int, p.pixel_format.spec_bpp());
}

/// A page that a file gives is cut out of the picture scaled to the requested size: each of its pixels
/// is the nearest one of the place that lies as far from the corner of the region.
pub proof fn file_pages_are_scaled_then_cut(
    p: Picture,
    request: Request,
    q: Picture,
    x: int,
    y: int,
    c: int,
)
    requires
        p.wf(),
        request.width > 0,
        request.height > 0,
        file_page(p, request) == Ok::<Picture, Failure>(q),
        0 <= x < q.width,
        0 <= y < q.height,
        0 <= c < p.pixel_format.spec_bpp(),
    ensures
        ({
            let (left, top) = match request.region {
                Some(region) => (region.x as int, region.y as int),
                None => (0int, 0int),
            };
            q.at(x, y, c) == p.at(
                ((left + x) * p.width) / (request.width as int),
                ((top + y) * p.height) / (request.height as int),
                c,
            )
        }),
        request.region matches Some(region) ==> q.width == region.width && q.height == region.height,
        request.region is None ==> q.width == request.width && q.height == request.height,
{
    let scaled = resized(p, request.width, request.height)->Ok_0;
    lemma_wf(p);
    assert(scaled.wf()) by {
        if !(request.width == p.width && request.height == p.height) {
            crate::image::accepted_sizes(
                request.width as int,
                request.height as int,
                p.pixel_format.spec_bpp(),
            );
        }
    }
    match request.region {
        Some(region) => {
            crate::geometry::crops_show_their_rectangle(scaled, region, q, x, y, c);
            scaled_pixels_are_their_nearest(
                p,
                request.width,
                request.height,
                scaled,
                region.x + x,
                region.y + y,
                c,
            );
        },
        None => {
            scaled_pixels_are_their_nearest(p, request.width, request.height, q, x, y, c);
        },
    }
}

/// A calibrated picture keeps its size and its alpha; each color byte goes through the table of its
/// column, of which the first column has the first and the last column the last.
pub proof fn columns_are_calibrated(p: Picture, tables: Seq<Vec<u8>>, x: int, y: int, c: int)
    requires
        p.wf(),
        tables.len() > 0,
        0 <= x < p.width,
        0 <= y < p.height,
        0 <= c < p.pixel_format.spec_bpp(),
    ensures
        ({
            let q = calibrated(p, tables);
            let last = tables.len() - 1;
            &&& q.width == p.width && q.height == p.height && q.pixel_format == p.pixel_format
            &&& c == 3 ==> q.at(x, y, c) == p.at(x, y, c)
            &&& c < 3 && x == 0 ==> q.at(x, y, c) == tables[0]@[p.at(x, y, c) as int]
            &&& c < 3 && x == p.width - 1 && x > 0 ==> q.at(x, y, c) == tables[last]@[p.at(
                x,
                y,
                c,
            ) as int]
            &&& c < 3 && 0 < x ==> q.at(x, y, c) == tables[(x * last) / (p.width - 1)]@[p.at(
                x,
                y,
                c,
            ) as int]
        }),
{
    lemma_wf(p);
    let b = p.pixel_format.spec_bpp();
    let w = p.width as int;
    let last = tables.len() - 1;
    crate::geometry::lemma_place(w, p.height as int, b, x, y, c);
    if x > 0 {
        assert(((w - 1) * last) / (w - 1) == last) by (nonlinear_arith)
            requires
                w > 1,
        ;
    }
    assert(w > 1 ==> 0int / (w - 1) == 0) by (nonlinear_arith);
    assert(0 * last == 0);
}

} // verus!
