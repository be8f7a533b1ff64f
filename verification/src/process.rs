//! Decisions of command-backed scanner adapters: budgets, supervision and output.

use crate::acquisition::{
    devices_of, resized, Device, DeviceInfo, FileDeviceSession, Request, ScanRequest,
};
use crate::error::{cancelled, outcome, outcome_view, unsupported, Failure, ScanError};
use crate::image::{checked_image_len, image_len, ImageBuffer, Picture, MAX_IMAGE_BYTES};
use crate::processing::{larger, smaller};
use crate::text::{
    chars_of, decimal, find, find_char, push_decimal, same_text, split, split_chars, text_of,
    texts, trim, trimmed,
};
use crate::xml::{lossy_text, lossy_utf8};
use vstd::prelude::*;
use vstd::slice::slice_subrange;
use vstd::string::StringExecFns;

verus! {

// ---------------------------------------------------------------------------
// Deadlines
// ---------------------------------------------------------------------------

/// Seconds that every document-feeder job may run.
pub const BASE_SECONDS: u64 = 60;

/// Seconds that each logical side adds.
pub const SECONDS_PER_SIDE: u64 = 45;

/// Seconds that no job may run longer than.
pub const MAX_SECONDS: u64 = 43_200;

/// The seconds that a document-feeder job of so many sides may run.
pub open spec fn batch_seconds(max_pages: int) -> int {
    smaller(BASE_SECONDS + max_pages * SECONDS_PER_SIDE, MAX_SECONDS as int)
}

/// Bounds a document-feeder process in seconds, growing with the number of logical sides.
pub fn document_batch_timeout(max_pages: u32) -> (r: u64)
    ensures
        60 + 45 * max_pages <= 43_200 ==> r == 60 + 45 * max_pages,
        60 + 45 * max_pages > 43_200 ==> r == 43_200,
        r == batch_seconds(max_pages as int),
{
    let seconds: u64 = BASE_SECONDS + (max_pages as u64) * SECONDS_PER_SIDE;
    if seconds < MAX_SECONDS {
        seconds
    } else {
        MAX_SECONDS
    }
}

/// A longer job may run at least as long, and no job may run without a bound.
pub proof fn batch_deadlines_grow_and_stay_bounded(fewer: int, more: int)
    requires
        0 <= fewer <= more,
    ensures
        BASE_SECONDS <= batch_seconds(fewer) <= batch_seconds(more) <= MAX_SECONDS,
{
}

// ---------------------------------------------------------------------------
// Commands
// ---------------------------------------------------------------------------

/// A program and its arguments.
#[derive(Debug, PartialEq, Eq)]
pub struct CommandSpec {
    pub program: String,
    pub args: Vec<String>,
}

/// What a finished command left.
#[derive(Debug, PartialEq, Eq)]
pub struct CommandOutput {
    pub success: bool,
    pub stdout: Vec<u8>,
    pub stderr: Vec<u8>,
}

/// What a finished command left, its bytes as sequences.
pub struct Output {
    pub success: bool,
    pub stdout: Seq<u8>,
    pub stderr: Seq<u8>,
}

impl View for CommandOutput {
    type V = Output;

    open spec fn view(&self) -> Output {
        Output { success: self.success, stdout: self.stdout@, stderr: self.stderr@ }
    }
}

// ---------------------------------------------------------------------------
// Artifact quotas
// ---------------------------------------------------------------------------

/// The bounded amount of on-disk output that one acquisition may materialize.
#[derive(Debug, Clone, Copy, PartialEq, Eq, Structural)]
pub struct ArtifactQuota {
    pub max_files: u64,
    pub max_bytes: u64,
}

/// Room for the encoding of one image.
pub const ARTIFACT_PER_IMAGE_OVERHEAD: u64 = 1_048_576;

/// The size of the images that a request asks for: its region's, or its own.
pub open spec fn requested_size(request: Request) -> (u32, u32) {
    match request.region {
        Some(region) => (region.width, region.height),
        None => (request.width, request.height),
    }
}

/// The budget of a request: each side has room for its pixels and some overhead, and the whole
/// stays near the ceiling of one decoded image.
pub open spec fn artifact_quota(request: Request, max_pages: u32) -> Result<ArtifactQuota, Failure> {
    let (width, height) = requested_size(request);
    match image_len(
        larger(width as int, 1),
        larger(height as int, 1),
        request.pixel_format.spec_bpp(),
    ) {
        Err(failure) => Err(failure),
        Ok(bytes) => Ok(
            ArtifactQuota {
                max_files: max_pages as u64,
                max_bytes: smaller(
                    (bytes + ARTIFACT_PER_IMAGE_OVERHEAD) * max_pages,
                    MAX_IMAGE_BYTES + ARTIFACT_PER_IMAGE_OVERHEAD,
                ) as u64,
            },
        ),
    }
}

/// Derives the artifact budget of a request.
#[verifier::spinoff_prover]
#[verifier::rlimit(60)]
pub fn artifact_quota_for_request(request: &ScanRequest, max_pages: u32) -> (r: Result<
    ArtifactQuota,
    ScanError,
>)
    ensures
        r is Ok ==> r->Ok_0.max_files == max_pages,
        r is Ok ==> r->Ok_0.max_bytes <= 537_919_488,
        r is Ok && request.region is Some && request.region->0.width > 0 && request.region->0.height > 0
            ==> r->Ok_0.max_bytes == 537_919_488 || r->Ok_0.max_bytes == (request.region->0.width
            * request.region->0.height * request.pixel_format.spec_bpp() + 1_048_576) * max_pages,
        r is Ok && request.region is None && request.width > 0 && request.height > 0 ==> r->Ok_0.max_bytes
            == 537_919_488 || r->Ok_0.max_bytes == (request.width * request.height
            * request.pixel_format.spec_bpp() + 1_048_576) * max_pages,
        outcome(r) == artifact_quota(request@, max_pages),
{
    let (width, height): (u32, u32) = match request.region {
        Some(region) => (region.width, region.height),
        None => (request.width, request.height),
    };
    let width: u32 = if width < 1 {
        1
    } else {
        width
    };
    let height: u32 = if height < 1 {
        1
    } else {
        height
    };
    let bytes: usize = match checked_image_len(width, height, request.pixel_format.bpp()) {
        Ok(bytes) => bytes,
        Err(error) => {
            return Err(error);
        },
    };
    let per_image: u64 = bytes as u64 + ARTIFACT_PER_IMAGE_OVERHEAD;
    proof {
        assert(per_image * max_pages <= 537_919_488 * 4_294_967_295) by (nonlinear_arith)
            requires
                0 <= per_image <= 537_919_488,
                0 <= max_pages <= 4_294_967_295,
        ;
    }
    let requested: u64 = per_image * (max_pages as u64);
    let limit: u64 = MAX_IMAGE_BYTES as u64 + ARTIFACT_PER_IMAGE_OVERHEAD;
    Ok(
        ArtifactQuota {
            max_files: max_pages as u64,
            max_bytes: if requested < limit {
                requested
            } else {
                limit
            },
        },
    )
}

/// What kind of entry stands in a directory.
#[derive(Debug, Clone, Copy, PartialEq, Eq, Structural)]
pub enum EntryKind {
    File,
    Directory,
    Special,
}

/// What listing a directory gave for one entry.
#[derive(Debug)]
pub enum ArtifactEntry {
    /// The entry could not be listed.
    Unlisted { error: String },
    /// The entry could not be inspected.
    Unreadable { path: String, error: String },
    Found { path: String, kind: EntryKind, len: u64 },
}

/// What a directory entry holds.
pub enum Entry {
    Unlisted { error: Seq<char> },
    Unreadable { path: Seq<char>, error: Seq<char> },
    Found { path: Seq<char>, kind: EntryKind, len: u64 },
}

impl View for ArtifactEntry {
    type V = Entry;

    open spec fn view(&self) -> Entry {
        match self {
            ArtifactEntry::Unlisted { error } => Entry::Unlisted { error: error@ },
            ArtifactEntry::Unreadable { path, error } => Entry::Unreadable {
                path: path@,
                error: error@,
            },
            ArtifactEntry::Found { path, kind, len } => Entry::Found {
                path: path@,
                kind: *kind,
                len: *len,
            },
        }
    }
}

/// What directory entries hold.
pub open spec fn entries_of(v: Seq<ArtifactEntry>) -> Seq<Entry> {
    v.map_values(|x: ArtifactEntry| x@)
}

/// The bytes of the first `n` entries, as far as they are files, counted up to the highest count.
pub open spec fn entry_bytes(entries: Seq<Entry>, n: int) -> int
    decreases n,
{
    if n <= 0 {
        0
    } else {
        let len = match entries[n - 1] {
            Entry::Found { len, .. } => len as int,
            _ => 0,
        };
        smaller(entry_bytes(entries, n - 1) + len, u64::MAX as int)
    }
}

/// The refusal of a directory that cannot be listed.
pub open spec fn cannot_inspect_directory(directory: Seq<char>, error: Seq<char>) -> Failure {
    Failure::Unsupported(
        "could not inspect native artifact directory "@ + directory + ": "@ + error,
    )
}

/// Why an entry is refused, given how many files and bytes stand with it in the directory.
pub open spec fn entry_refusal(
    directory: Seq<char>,
    entry: Entry,
    files: int,
    bytes: int,
    quota: ArtifactQuota,
) -> Option<Failure> {
    match entry {
        Entry::Unlisted { error } => Some(cannot_inspect_directory(directory, error)),
        Entry::Unreadable { path, error } => Some(
            Failure::Unsupported("could not inspect native artifact "@ + path + ": "@ + error),
        ),
        Entry::Found { path, kind, .. } => match kind {
            EntryKind::Directory => Some(
                Failure::Unsupported(
                    "native artifact output contains unexpected nested directory "@ + path,
                ),
            ),
            EntryKind::Special => Some(
                Failure::Unsupported(
                    "native artifact output contains unexpected non-regular entry "@ + path,
                ),
            ),
            EntryKind::File => if files > quota.max_files || bytes > quota.max_bytes {
                Some(
                    Failure::Unsupported(
                        "native artifact output exceeded the "@ + decimal(quota.max_files as nat)
                            + " file / "@ + decimal(quota.max_bytes as nat) + " byte quota"@,
                    ),
                )
            } else {
                None
            },
        },
    }
}

/// Whether the first `n` entries of a directory keep the quota.
pub open spec fn entries_checked(
    directory: Seq<char>,
    entries: Seq<Entry>,
    quota: ArtifactQuota,
    n: int,
) -> Result<(), Failure>
    decreases n,
{
    if n <= 0 {
        Ok(())
    } else {
        match entries_checked(directory, entries, quota, n - 1) {
            Err(failure) => Err(failure),
            Ok(_) => match entry_refusal(
                directory,
                entries[n - 1],
                n,
                entry_bytes(entries, n),
                quota,
            ) {
                Some(failure) => Err(failure),
                None => Ok(()),
            },
        }
    }
}

proof fn lemma_entries_failed(
    directory: Seq<char>,
    entries: Seq<Entry>,
    quota: ArtifactQuota,
    k: int,
    n: int,
)
    requires
        k <= n,
        entries_checked(directory, entries, quota, k) is Err,
    ensures
        entries_checked(directory, entries, quota, n) == entries_checked(
            directory,
            entries,
            quota,
            k,
        ),
    decreases n - k,
{
    if k < n {
        lemma_entries_failed(directory, entries, quota, k, n - 1);
    }
}

/// A directory that keeps its quota holds nothing but files, no more of them and no more bytes
/// than the quota allows.
pub proof fn accepted_artifacts_keep_the_quota(
    directory: Seq<char>,
    entries: Seq<Entry>,
    quota: ArtifactQuota,
    n: int,
)
    requires
        0 < n <= entries.len(),
        entries_checked(directory, entries, quota, n) is Ok,
    ensures
        n <= quota.max_files,
        0 <= entry_bytes(entries, n) <= quota.max_bytes,
        forall|i: int|
            0 <= i < n ==> (#[trigger] entries[i] matches Entry::Found { kind, .. } && kind
                == EntryKind::File),
    decreases n,
{
    if n > 1 {
        accepted_artifacts_keep_the_quota(directory, entries, quota, n - 1);
    } else {
        assert(entry_bytes(entries, 0) == 0);
    }
}

/// The bytes of accepted artifacts add up: each file counts with its whole length.
pub proof fn artifact_bytes_add_up(
    directory: Seq<char>,
    entries: Seq<Entry>,
    quota: ArtifactQuota,
    n: int,
)
    requires
        0 < n <= entries.len(),
        entries_checked(directory, entries, quota, n) is Ok,
    ensures
        entries[n - 1] is Found,
        entry_bytes(entries, 0) == 0,
        entry_bytes(entries, n) >= entry_bytes(entries, n - 1),
        entry_bytes(entries, n) == u64::MAX || entry_bytes(entries, n) == entry_bytes(entries, n - 1)
            + entries[n - 1]->Found_len,
        entries[n - 1]->Found_len <= quota.max_bytes,
{
    accepted_artifacts_keep_the_quota(directory, entries, quota, n);
    lemma_entry_bytes(entries, n - 1);
}

proof fn lemma_entry_bytes(entries: Seq<Entry>, n: int)
    ensures
        0 <= entry_bytes(entries, n) <= u64::MAX,
    decreases n,
{
    if n > 0 {
        lemma_entry_bytes(entries, n - 1);
    }
}

/// A directory of files is accepted where neither their number nor their bytes pass the quota.
pub proof fn small_artifacts_are_accepted(
    directory: Seq<char>,
    entries: Seq<Entry>,
    quota: ArtifactQuota,
    n: int,
)
    requires
        0 <= n <= entries.len(),
        n <= quota.max_files,
        entry_bytes(entries, n) <= quota.max_bytes,
        forall|i: int|
            0 <= i < n ==> (#[trigger] entries[i] matches Entry::Found { kind, .. } && kind
                == EntryKind::File),
    ensures
        entries_checked(directory, entries, quota, n) is Ok,
    decreases n,
{
    if n > 0 {
        lemma_entry_bytes(entries, n - 1);
        small_artifacts_are_accepted(directory, entries, quota, n - 1);
    }
}

/// What listing an artifact directory gave: its entries, or why there is no list.
pub open spec fn listing_checked(
    directory: Seq<char>,
    listing: Result<Seq<Entry>, Seq<char>>,
    quota: ArtifactQuota,
) -> Result<(), Failure> {
    match listing {
        Err(error) => Err(cannot_inspect_directory(directory, error)),
        Ok(entries) => entries_checked(directory, entries, quota, entries.len() as int),
    }
}

/// What a listing holds.
pub open spec fn listing_view(listing: Result<Vec<ArtifactEntry>, String>) -> Result<
    Seq<Entry>,
    Seq<char>,
> {
    match listing {
        Ok(entries) => Ok(entries_of(entries@)),
        Err(error) => Err(error@),
    }
}

fn described(prefix: &str, path: &str, error: &str) -> (r: ScanError)
    ensures
        r@ == Failure::Unsupported(prefix@ + path@ + ": "@ + error@),
{
    let mut message = prefix.to_owned();
    message.append(path);
    message.append(": ");
    message.append(error);
    ScanError::Unsupported(message)
}

fn named(prefix: &str, path: &str) -> (r: ScanError)
    ensures
        r@ == Failure::Unsupported(prefix@ + path@),
{
    let mut message = prefix.to_owned();
    message.append(path);
    ScanError::Unsupported(message)
}

/// Refuses an artifact directory that passes its file or byte budget, or that holds anything but
/// regular files.
pub fn validate_artifact_quota(
    directory: &str,
    listing: &Result<Vec<ArtifactEntry>, String>,
    quota: ArtifactQuota,
) -> (r: Result<(), ScanError>)
    ensures
        outcome(r) == listing_checked(directory@, listing_view(*listing), quota),
{
    let entries = match listing {
        Err(error) => {
            return Err(
                described(
                    "could not inspect native artifact directory ",
                    directory,
                    error.as_str(),
                ),
            );
        },
        Ok(entries) => entries,
    };
    let ghost all = entries_of(entries@);
    let total: usize = entries.len();
    let mut bytes: u64 = 0;
    let mut i: usize = 0;
    while i < total
        invariant
            i <= total,
            total == entries@.len(),
            all == entries_of(entries@),
            entries_checked(directory@, all, quota, i as int) == Ok::<(), Failure>(()),
            bytes == entry_bytes(all, i as int),
            listing_view(*listing) == Ok::<Seq<Entry>, Seq<char>>(all),
        decreases total - i,
    {
        assert(all[i as int] == entries@[i as int]@);
        proof {
            if entries_checked(directory@, all, quota, i + 1) is Err {
                lemma_entries_failed(directory@, all, quota, i + 1, total as int);
            }
        }
        match &entries[i] {
            ArtifactEntry::Unlisted { error } => {
                return Err(
                    described(
                        "could not inspect native artifact directory ",
                        directory,
                        error.as_str(),
                    ),
                );
            },
            ArtifactEntry::Unreadable { path, error } => {
                return Err(
                    described(
                        "could not inspect native artifact ",
                        path.as_str(),
                        error.as_str(),
                    ),
                );
            },
            ArtifactEntry::Found { path, kind, len } => {
                match kind {
                    EntryKind::Directory => {
                        return Err(
                            named(
                                "native artifact output contains unexpected nested directory ",
                                path.as_str(),
                            ),
                        );
                    },
                    EntryKind::Special => {
                        return Err(
                            named(
                                "native artifact output contains unexpected non-regular entry ",
                                path.as_str(),
                            ),
                        );
                    },
                    EntryKind::File => {
                        bytes =
                        if *len > u64::MAX - bytes {
                            u64::MAX
                        } else {
                            bytes + *len
                        };
                        if (i + 1) as u64 > quota.max_files || bytes > quota.max_bytes {
                            let mut message = "native artifact output exceeded the ".to_owned();
                            push_decimal(&mut message, quota.max_files);
                            message.append(" file / ");
                            push_decimal(&mut message, quota.max_bytes);
                            message.append(" byte quota");
                            return Err(ScanError::Unsupported(message));
                        }
                    },
                }
            },
        }
        i += 1;
    }
    Ok(())
}

// ---------------------------------------------------------------------------
// Sessions
// ---------------------------------------------------------------------------

/// Lifecycle of a command-backed device session.
#[derive(Debug, Clone, Copy, PartialEq, Eq, Structural)]
pub struct CommandSession {
    pub closed: bool,
    pub cancelled: bool,
}

impl Default for CommandSession {
    fn default() -> (r: Self)
        ensures
            r == (CommandSession { closed: false, cancelled: false }),
    {
        CommandSession { closed: false, cancelled: false }
    }
}

/// What a scan returns of a decoded image: the image at the size that was asked for.
pub open spec fn fitted(p: Picture, request: Request) -> Result<Picture, Failure> {
    let (width, height) = requested_size(request);
    if width > 0 && height > 0 {
        resized(p, width, height)
    } else {
        Ok(p)
    }
}

/// Why the output of a command is not decoded.
pub open spec fn output_refusal(
    is_cancelled: bool,
    output: Output,
    is_file: bool,
    failure_name: Seq<char>,
) -> Option<Failure> {
    if is_cancelled {
        Some(Failure::Cancelled("scan cancelled"@))
    } else if !output.success || !is_file {
        Some(Failure::Unsupported(failure_name + ": "@ + trim(lossy_utf8(output.stderr))))
    } else {
        None
    }
}

impl CommandSession {
    pub fn is_closed(&self) -> (r: bool)
        ensures
            r == self.closed,
    {
        self.closed
    }

    /// Whether the session or the operation that it is bound to was cancelled.
    pub fn is_cancelled(&self, operation_cancelled: bool) -> (r: bool)
        ensures
            r == (self.cancelled || operation_cancelled),
    {
        self.cancelled || operation_cancelled
    }

    pub fn cancel(&mut self)
        ensures
            *final(self) == (CommandSession { cancelled: true, ..*old(self) }),
    {
        self.cancelled = true;
    }

    pub fn close(&mut self)
        ensures
            *final(self) == (CommandSession { closed: true, ..*old(self) }),
    {
        self.closed = true;
    }

    /// Decodes what a command wrote, and brings it to the size that was asked for.
    pub fn decode_materialized_output<D: Fn() -> Result<ImageBuffer, ScanError>>(
        &self,
        operation_cancelled: bool,
        output: &CommandOutput,
        is_file: bool,
        decode: D,
        request: &ScanRequest,
        failure_name: &str,
    ) -> (r: Result<ImageBuffer, ScanError>)
        requires
            call_requires(decode, ()),
            forall|image: ImageBuffer| #[trigger]
                call_ensures(decode, (), Ok::<ImageBuffer, ScanError>(image)) ==> image@.wf(),
        ensures
            self.cancelled || operation_cancelled || !output.success || !is_file ==> r is Err,
            r is Ok && request.region is Some && request.region->0.width > 0 && request.region->0.height > 0
                ==> r->Ok_0.width == request.region->0.width && r->Ok_0.height == request.region->0.height,
            r is Ok && request.region is None && request.width > 0 && request.height > 0 ==> r->Ok_0.width
                == request.width && r->Ok_0.height == request.height,
            match output_refusal(
                self.cancelled || operation_cancelled,
                output@,
                is_file,
                failure_name@,
            ) {
                Some(failure) => r is Err && r->Err_0@ == failure,
                None => exists|decoded: Result<ImageBuffer, ScanError>| #[trigger]
                    call_ensures(decode, (), decoded) && match decoded {
                        Err(error) => r is Err && r->Err_0@ == error@,
                        Ok(image) => outcome_view(r) == fitted(image@, request@),
                    },
            },
    {
        if self.is_cancelled(operation_cancelled) {
            return Err(cancelled("scan cancelled"));
        }
        if !output.success || !is_file {
            let text = lossy_text(output.stderr.as_slice());
            let chars = chars_of(text.as_str());
            let detail = text_of(trimmed(chars.as_slice()));
            let mut message = failure_name.to_owned();
            message.append(": ");
            message.append(detail.as_str());
            return Err(ScanError::Unsupported(message));
        }
        let decoded = decode();
        let ghost seen = decoded;
        assert(call_ensures(decode, (), seen));
        match decoded {
            Err(error) => Err(error),
            Ok(image) => {
                let (width, height): (u32, u32) = match request.region {
                    Some(region) => (region.width, region.height),
                    None => (request.width, request.height),
                };
                if width > 0 && height > 0 && (image.width != width || image.height != height) {
                    FileDeviceSession::resize_nearest(&image, width, height)
                } else {
                    Ok(image)
                }
            },
        }
    }
}

// ---------------------------------------------------------------------------
// Captured output
// ---------------------------------------------------------------------------

/// Bytes kept of each output stream of a command.
pub const COMMAND_STREAM_CAPTURE_LIMIT: usize = 8_388_608;

/// Bytes kept of each output stream of an availability probe.
pub const AVAILABILITY_PROBE_CAPTURE_LIMIT: usize = 65_536;

/// The leading part of a stream that was kept, and whether there was more.
#[derive(Debug)]
pub struct DrainedCommandStream {
    pub bytes: Vec<u8>,
    pub overflowed: bool,
}

/// What is kept of a stream.
pub struct Drained {
    pub bytes: Seq<u8>,
    pub overflowed: bool,
}

impl View for DrainedCommandStream {
    type V = Drained;

    open spec fn view(&self) -> Drained {
        Drained { bytes: self.bytes@, overflowed: self.overflowed }
    }
}

/// What is kept of a stream under a limit: its head, and whether it was longer.
pub open spec fn drained(stream: Seq<u8>, limit: int) -> Drained {
    Drained {
        bytes: stream.take(smaller(limit, stream.len() as int)),
        overflowed: stream.len() > limit,
    }
}

/// What is kept once another part of the stream has been read.
pub open spec fn drained_more(kept: Drained, part: Seq<u8>, limit: int) -> Drained {
    let room = smaller(larger(limit - kept.bytes.len(), 0), part.len() as int);
    Drained {
        bytes: kept.bytes + part.take(room),
        overflowed: kept.overflowed || room < part.len(),
    }
}

impl DrainedCommandStream {
    /// Nothing has been read yet.
    pub fn new() -> (r: Self)
        ensures
            r@ == (Drained { bytes: Seq::empty(), overflowed: false }),
    {
        DrainedCommandStream { bytes: Vec::new(), overflowed: false }
    }

    /// Keeps as much of another part of the stream as the limit leaves room for.
    pub fn keep(&mut self, part: &[u8], capture_limit: usize)
        ensures
            final(self)@ == drained_more(old(self)@, part@, capture_limit as int),
    {
        let ghost before = self@;
        let room: usize = if self.bytes.len() < capture_limit {
            capture_limit - self.bytes.len()
        } else {
            0
        };
        let kept: usize = if room < part.len() {
            room
        } else {
            part.len()
        };
        let mut i: usize = 0;
        while i < kept
            invariant
                i <= kept <= part@.len(),
                self.bytes@ == before.bytes + part@.take(i as int),
                self.overflowed == before.overflowed,
            decreases kept - i,
        {
            self.bytes.push(part[i]);
            i += 1;
            assert(self.bytes@ =~= before.bytes + part@.take(i as int));
        }
        if kept < part.len() {
            self.overflowed = true;
        }
    }
}

/// Reading a stream part by part keeps the same as reading it at once: its head up to the limit.
pub proof fn drained_in_parts(stream: Seq<u8>, part: Seq<u8>, limit: int)
    requires
        0 <= limit,
    ensures
        drained_more(drained(stream, limit), part, limit) == drained(stream + part, limit),
{
    let kept = drained_more(drained(stream, limit), part, limit);
    let whole = drained(stream + part, limit);
    assert(kept.bytes =~= whole.bytes);
}

/// How the reader of an output stream ended.
#[derive(Debug)]
pub enum StreamEnd {
    /// The stream was still open when the grace period ended.
    Open,
    Disconnected,
    Panicked,
    Failed(String),
    Drained(DrainedCommandStream),
}

/// What was kept of a stream, or why nothing was.
pub open spec fn joined_stream(end: StreamEnd) -> Result<Drained, Failure> {
    match end {
        StreamEnd::Open => Err(
            Failure::Unsupported("command output streams remained open after the command exited"@),
        ),
        StreamEnd::Disconnected => Err(
            Failure::Unsupported("command output reader disconnected"@),
        ),
        StreamEnd::Panicked => Err(Failure::Unsupported("command output reader panicked"@)),
        StreamEnd::Failed(error) => Err(
            Failure::Unsupported("command output read failed: "@ + error@),
        ),
        StreamEnd::Drained(stream) => Ok(stream@),
    }
}

/// What was kept of a stream, or why nothing was.
pub fn join_command_stream(end: StreamEnd) -> (r: Result<DrainedCommandStream, ScanError>)
    ensures
        r is Ok <==> end is Drained,
        end matches StreamEnd::Drained(stream) ==> r is Ok && r->Ok_0@ == stream@,
        outcome_view(r) == joined_stream(end),
{
    match end {
        StreamEnd::Open => Err(
            unsupported("command output streams remained open after the command exited"),
        ),
        StreamEnd::Disconnected => Err(unsupported("command output reader disconnected")),
        StreamEnd::Panicked => Err(unsupported("command output reader panicked")),
        StreamEnd::Failed(error) => Err(named("command output read failed: ", error.as_str())),
        StreamEnd::Drained(stream) => Ok(stream),
    }
}

// ---------------------------------------------------------------------------
// Supervision
// ---------------------------------------------------------------------------

/// What polling a child gave.
#[derive(Debug)]
pub enum ChildPoll {
    Running,
    Exited,
    Failed(String),
}

/// What has to be done about a child next.
#[derive(Debug, Clone, Copy, PartialEq, Eq, Structural)]
pub enum SupervisionStep {
    /// The child runs: poll it again after a pause.
    Pause,
    /// The child has exited: wait for it and collect its output.
    Collect,
}

/// The supervision of one child.
#[derive(Debug)]
pub struct Supervision {
    pub command_name: String,
    pub cancellation_message: String,
    pub capture_limit: usize,
    /// The artifact directory that is watched, and its quota.
    pub artifact_watch: Option<(String, ArtifactQuota)>,
}

/// What the supervision of a child is about.
pub struct Watch {
    pub command_name: Seq<char>,
    pub cancellation_message: Seq<char>,
    pub capture_limit: int,
    pub artifact_watch: Option<(Seq<char>, ArtifactQuota)>,
}

impl View for Supervision {
    type V = Watch;

    open spec fn view(&self) -> Watch {
        Watch {
            command_name: self.command_name@,
            cancellation_message: self.cancellation_message@,
            capture_limit: self.capture_limit as int,
            artifact_watch: match self.artifact_watch {
                Some((directory, quota)) => Some((directory@, quota)),
                None => None,
            },
        }
    }
}

/// Whether the watched directory keeps its quota; without one nothing is looked at.
pub open spec fn watched(watch: Watch, listing: Result<Seq<Entry>, Seq<char>>) -> Result<
    (),
    Failure,
> {
    match watch.artifact_watch {
        None => Ok(()),
        Some((directory, quota)) => listing_checked(directory, listing, quota),
    }
}

/// The next step of supervision: cancellation comes first, then the artifact quota, then what
/// became of the child, and last the deadline. An error means that the child and everything it
/// started is terminated and reaped.
pub open spec fn supervised(
    watch: Watch,
    is_cancelled: bool,
    listing: Result<Seq<Entry>, Seq<char>>,
    poll: ChildPoll,
    past_deadline: bool,
) -> Result<SupervisionStep, Failure> {
    if is_cancelled {
        Err(Failure::Cancelled(watch.cancellation_message))
    } else {
        match watched(watch, listing) {
            Err(failure) => Err(failure),
            Ok(_) => match poll {
                ChildPoll::Exited => Ok(SupervisionStep::Collect),
                ChildPoll::Running => if past_deadline {
                    Err(Failure::Unsupported(watch.command_name + " timed out"@))
                } else {
                    Ok(SupervisionStep::Pause)
                },
                ChildPoll::Failed(error) => Err(
                    Failure::Unsupported(watch.command_name + " failed: "@ + error@),
                ),
            },
        }
    }
}

/// The output of a child that has exited.
pub open spec fn collected(
    watch: Watch,
    waited: Result<bool, Seq<char>>,
    listing: Result<Seq<Entry>, Seq<char>>,
    stdout: Result<Drained, Failure>,
    stderr: Result<Drained, Failure>,
) -> Result<Output, Failure> {
    match waited {
        Err(error) => Err(Failure::Unsupported(watch.command_name + " output failed: "@ + error)),
        Ok(success) => match watched(watch, listing) {
            Err(failure) => Err(failure),
            Ok(_) => match stdout {
                Err(failure) => Err(failure),
                Ok(out) => match stderr {
                    Err(failure) => Err(failure),
                    Ok(err) => if out.overflowed || err.overflowed {
                        Err(
                            Failure::Unsupported(
                                watch.command_name + " output exceeded the "@ + decimal(
                                    watch.capture_limit as nat,
                                ) + " byte capture limit"@,
                            ),
                        )
                    } else {
                        Ok(Output { success, stdout: out.bytes, stderr: err.bytes })
                    },
                },
            },
        },
    }
}

impl Supervision {
    fn check_artifacts(&self, listing: &Result<Vec<ArtifactEntry>, String>) -> (r: Result<
        (),
        ScanError,
    >)
        ensures
            outcome(r) == watched(self@, listing_view(*listing)),
    {
        match &self.artifact_watch {
            None => Ok(()),
            Some((directory, quota)) => validate_artifact_quota(
                directory.as_str(),
                listing,
                *quota,
            ),
        }
    }

    /// Decides the next step of supervision.
    pub fn supervise_command_child(
        &self,
        is_cancelled: bool,
        listing: &Result<Vec<ArtifactEntry>, String>,
        poll: ChildPoll,
        past_deadline: bool,
    ) -> (r: Result<SupervisionStep, ScanError>)
        ensures
            is_cancelled ==> r is Err && r->Err_0@ == Failure::Cancelled(self.cancellation_message@),
            r is Ok && r->Ok_0 == SupervisionStep::Collect ==> poll is Exited && !is_cancelled,
            r is Ok && r->Ok_0 == SupervisionStep::Pause ==> poll is Running && !is_cancelled && !past_deadline,
            poll is Exited && !is_cancelled && self.artifact_watch is None ==> r is Ok,
            poll is Running && !is_cancelled && !past_deadline && self.artifact_watch is None ==> r is Ok,
            poll is Failed ==> r is Err,
            outcome(r) == supervised(
                self@,
                is_cancelled,
                listing_view(*listing),
                poll,
                past_deadline,
            ),
    {
        if is_cancelled {
            return Err(ScanError::Cancelled(self.cancellation_message.clone()));
        }
        match self.check_artifacts(listing) {
            Ok(()) => {},
            Err(error) => {
                return Err(error);
            },
        }
        match poll {
            ChildPoll::Exited => Ok(SupervisionStep::Collect),
            ChildPoll::Running => if past_deadline {
                let mut message = self.command_name.clone();
                message.append(" timed out");
                Err(ScanError::Unsupported(message))
            } else {
                Ok(SupervisionStep::Pause)
            },
            ChildPoll::Failed(error) => {
                let mut message = self.command_name.clone();
                message.append(" failed: ");
                message.append(error.as_str());
                Err(ScanError::Unsupported(message))
            },
        }
    }

    /// Puts together the output of a child that has exited.
    pub fn collect_command_output(
        &self,
        waited: Result<bool, String>,
        listing: &Result<Vec<ArtifactEntry>, String>,
        stdout: StreamEnd,
        stderr: StreamEnd,
    ) -> (r: Result<CommandOutput, ScanError>)
        ensures
            r is Ok ==> waited == Ok::<bool, String>(r->Ok_0.success),
            outcome_view(r) == collected(
                self@,
                match waited {
                    Ok(success) => Ok(success),
                    Err(error) => Err(error@),
                },
                listing_view(*listing),
                joined_stream(stdout),
                joined_stream(stderr),
            ),
    {
        let success = match waited {
            Ok(success) => success,
            Err(error) => {
                let mut message = self.command_name.clone();
                message.append(" output failed: ");
                message.append(error.as_str());
                return Err(ScanError::Unsupported(message));
            },
        };
        match self.check_artifacts(listing) {
            Ok(()) => {},
            Err(error) => {
                return Err(error);
            },
        }
        let out = match join_command_stream(stdout) {
            Ok(stream) => stream,
            Err(error) => {
                return Err(error);
            },
        };
        let err = match join_command_stream(stderr) {
            Ok(stream) => stream,
            Err(error) => {
                return Err(error);
            },
        };
        if out.overflowed || err.overflowed {
            let mut message = self.command_name.clone();
            message.append(" output exceeded the ");
            push_decimal(&mut message, self.capture_limit as u64);
            message.append(" byte capture limit");
            return Err(ScanError::Unsupported(message));
        }
        Ok(CommandOutput { success, stdout: out.bytes, stderr: err.bytes })
    }
}

/// A child is left running only where nothing was cancelled, its artifacts keep the quota and its
/// deadline lies ahead.
pub proof fn running_children_are_within_bounds(
    watch: Watch,
    is_cancelled: bool,
    listing: Result<Seq<Entry>, Seq<char>>,
    poll: ChildPoll,
    past_deadline: bool,
)
    requires
        supervised(watch, is_cancelled, listing, poll, past_deadline) == Ok::<
            SupervisionStep,
            Failure,
        >(SupervisionStep::Pause),
    ensures
        !is_cancelled,
        !past_deadline,
        watched(watch, listing) is Ok,
        poll is Running,
{
}

/// Output that is handed on is the whole of what the command wrote, within the capture limit.
pub proof fn collected_output_is_complete(
    watch: Watch,
    waited: Result<bool, Seq<char>>,
    listing: Result<Seq<Entry>, Seq<char>>,
    stdout: Seq<u8>,
    stderr: Seq<u8>,
)
    requires
        0 <= watch.capture_limit,
        collected(
            watch,
            waited,
            listing,
            Ok(drained(stdout, watch.capture_limit)),
            Ok(drained(stderr, watch.capture_limit)),
        ) is Ok,
    ensures
        ({
            let output = collected(
                watch,
                waited,
                listing,
                Ok(drained(stdout, watch.capture_limit)),
                Ok(drained(stderr, watch.capture_limit)),
            )->Ok_0;
            &&& output.stdout == stdout
            &&& output.stderr == stderr
            &&& stdout.len() <= watch.capture_limit
            &&& stderr.len() <= watch.capture_limit
        }),
{
    assert(drained(stdout, watch.capture_limit).bytes =~= stdout);
    assert(drained(stderr, watch.capture_limit).bytes =~= stderr);
}

/// The refusal of a command that did not start.
pub fn start_failure(command_name: &str, error: &str) -> (r: ScanError)
    ensures
        r@ == Failure::Unsupported(command_name@ + " failed to start: "@ + error@),
{
    let mut message = command_name.to_owned();
    message.append(" failed to start: ");
    message.append(error);
    ScanError::Unsupported(message)
}

/// Whether a probe shows that a backend can be used: the command ran and succeeded.
pub fn availability_probe_succeeds(output: &Result<CommandOutput, ScanError>) -> (r: bool)
    ensures
        r == (output matches Ok(out) && out.success),
{
    match output {
        Ok(out) => out.success,
        Err(_) => false,
    }
}

// ---------------------------------------------------------------------------
// Device listings
// ---------------------------------------------------------------------------

/// Whether the setting asks for simulated backends.
pub open spec fn asks_for_simulation(value: Option<Seq<char>>) -> bool {
    match value {
        None => false,
        Some(text) => trim(text) == "1"@ || trim(text) == "true"@ || trim(text) == "yes"@,
    }
}

/// Whether the setting asks for simulated backends.
pub fn simulate_backends(value: Option<&str>) -> (r: bool)
    ensures
        value is None ==> !r,
        value is Some ==> (r <==> trim(value->0@) == "1"@ || trim(value->0@) == "true"@ || trim(value->0@)
            == "yes"@),
        r == asks_for_simulation(
            match value {
                Some(text) => Some(text@),
                None => None,
            },
        ),
{
    match value {
        None => false,
        Some(text) => {
            let chars = chars_of(text);
            let word = text_of(trimmed(chars.as_slice()));
            same_text(word.as_str(), "1") || same_text(word.as_str(), "true") || same_text(
                word.as_str(),
                "yes",
            )
        },
    }
}

/// The device that a line names, as `id|name` or as one text for both.
pub open spec fn pipe_device(
    line: Seq<char>,
    id_prefix: Seq<char>,
    display_prefix: Seq<char>,
    backend: Seq<char>,
) -> Option<Device> {
    let text = trim(line);
    let bar = find(text, '|');
    let (id, name) = if bar < text.len() {
        (trim(text.take(bar)), trim(text.skip(bar + 1)))
    } else {
        (text, text)
    };
    if id.len() == 0 {
        None
    } else {
        Some(
            Device {
                id: id_prefix + ":"@ + id,
                name: display_prefix + ": "@ + name,
                backend,
            },
        )
    }
}

/// The devices that lines name, in order.
pub open spec fn pipe_devices(
    lines: Seq<Seq<char>>,
    id_prefix: Seq<char>,
    display_prefix: Seq<char>,
    backend: Seq<char>,
) -> Seq<Device>
    decreases lines.len(),
{
    if lines.len() == 0 {
        Seq::empty()
    } else {
        let before = pipe_devices(lines.drop_last(), id_prefix, display_prefix, backend);
        match pipe_device(lines.last(), id_prefix, display_prefix, backend) {
            Some(device) => before.push(device),
            None => before,
        }
    }
}

fn parse_pipe_device(line: &[char], id_prefix: &str, display_prefix: &str, backend: &str) -> (r:
    Option<DeviceInfo>)
    ensures
        match pipe_device(line@, id_prefix@, display_prefix@, backend@) {
            Some(device) => r is Some && r->0@ == device,
            None => r is None,
        },
{
    let text = trimmed(line);
    let bar: usize = find_char(text, '|');
    let (id, name): (&[char], &[char]) = if bar < text.len() {
        let head = slice_subrange(text, 0, bar);
        let tail = slice_subrange(text, bar + 1, text.len());
        assert(head@ =~= text@.take(bar as int));
        assert(tail@ =~= text@.skip(bar + 1));
        (trimmed(head), trimmed(tail))
    } else {
        (text, text)
    };
    if id.len() == 0 {
        return None;
    }
    let mut device_id = id_prefix.to_owned();
    device_id.append(":");
    device_id.append(text_of(id).as_str());
    let mut device_name = display_prefix.to_owned();
    device_name.append(": ");
    device_name.append(text_of(name).as_str());
    Some(DeviceInfo::new(device_id, device_name, backend))
}

/// Reads a listing of devices, one to a line.
pub fn parse_pipe_devices(text: &str, id_prefix: &str, display_prefix: &str, backend: &str) -> (r:
    Vec<DeviceInfo>)
    ensures
        devices_of(r@) == pipe_devices(
            split(text@, '\n'),
            id_prefix@,
            display_prefix@,
            backend@,
        ),
{
    let chars = chars_of(text);
    let lines = split_chars(chars.as_slice(), '\n');
    let ghost all = texts(lines@);
    let mut devices: Vec<DeviceInfo> = Vec::new();
    let mut i: usize = 0;
    assert(devices_of(devices@) =~= pipe_devices(
        all.take(0),
        id_prefix@,
        display_prefix@,
        backend@,
    ));
    while i < lines.len()
        invariant
            i <= lines@.len(),
            all == texts(lines@),
            devices_of(devices@) == pipe_devices(
                all.take(i as int),
                id_prefix@,
                display_prefix@,
                backend@,
            ),
        decreases lines@.len() - i,
    {
        let ghost before = devices_of(devices@);
        assert(all[i as int] == lines@[i as int]@);
        assert(all.take(i + 1).drop_last() =~= all.take(i as int));
        if let Some(device) = parse_pipe_device(
            lines[i].as_slice(),
            id_prefix,
            display_prefix,
            backend,
        ) {
            let ghost added = device@;
            devices.push(device);
            assert(devices_of(devices@) =~= before.push(added));
        }
        i += 1;
    }
    assert(all.take(all.len() as int) =~= all);
    devices
}

/// A line that holds an id and a name with a bar between them names the device with this id and this name,
/// each behind its prefix; a line without a bar names one whose id is its name.
pub proof fn device_lines_tell_id_and_name(
    id: Seq<char>,
    name: Seq<char>,
    id_prefix: Seq<char>,
    display_prefix: Seq<char>,
    backend: Seq<char>,
)
    requires
        id.len() > 0,
        !crate::text::is_space(id[0]),
        !crate::text::is_space(id.last()),
        forall|i: int| 0 <= i < id.len() ==> id[i] != '|',
        name.len() > 0,
        !crate::text::is_space(name[0]),
        !crate::text::is_space(name.last()),
    ensures
        pipe_device(id + seq!['|'] + name, id_prefix, display_prefix, backend) == Some(
            Device { id: id_prefix + ":"@ + id, name: display_prefix + ": "@ + name, backend },
        ),
        pipe_device(id, id_prefix, display_prefix, backend) == Some(
            Device { id: id_prefix + ":"@ + id, name: display_prefix + ": "@ + id, backend },
        ),
{
    let line = id + seq!['|'] + name;
    assert(line[0] == id[0] && line.last() == name.last());
    crate::text::lemma_trim_nothing(line);
    crate::text::lemma_trim_nothing(id);
    crate::text::lemma_trim_nothing(name);
    let k = id.len() as int;
    assert forall|i: int| 0 <= i < k implies line[i] != '|' by {
        assert(line[i] == id[i]);
    }
    assert(line[k] == '|');
    crate::text::lemma_find_is(line, '|', k);
    crate::text::lemma_find_is(id, '|', k);
    assert(line.take(k) =~= id);
    assert(line.skip(k + 1) =~= name);
}

proof fn lemma_pipe_devices(
    lines: Seq<Seq<char>>,
    id_prefix: Seq<char>,
    display_prefix: Seq<char>,
    backend: Seq<char>,
    i: int,
)
    requires
        0 <= i < lines.len(),
        pipe_device(lines[i], id_prefix, display_prefix, backend) is Some,
    ensures
        pipe_devices(lines, id_prefix, display_prefix, backend).contains(
            pipe_device(lines[i], id_prefix, display_prefix, backend)->0,
        ),
    decreases lines.len(),
{
    let all = pipe_devices(lines, id_prefix, display_prefix, backend);
    let before = pipe_devices(lines.drop_last(), id_prefix, display_prefix, backend);
    let device = pipe_device(lines[i], id_prefix, display_prefix, backend)->0;
    if i == lines.len() - 1 {
        assert(all[before.len() as int] == device);
    } else {
        lemma_pipe_devices(lines.drop_last(), id_prefix, display_prefix, backend, i);
        let k = choose|k: int| 0 <= k < before.len() && before[k] == device;
        assert(all[k] == device);
    }
}

/// A listing gives every device that one of its lines names, and no more devices than it has lines.
pub proof fn listings_give_every_named_device(
    lines: Seq<Seq<char>>,
    id_prefix: Seq<char>,
    display_prefix: Seq<char>,
    backend: Seq<char>,
    i: int,
)
    requires
        0 <= i < lines.len(),
    ensures
        pipe_device(lines[i], id_prefix, display_prefix, backend) matches Some(device)
            ==> pipe_devices(lines, id_prefix, display_prefix, backend).contains(device),
        pipe_devices(lines, id_prefix, display_prefix, backend).len() <= lines.len(),
    decreases lines.len(),
{
    if pipe_device(lines[i], id_prefix, display_prefix, backend) is Some {
        lemma_pipe_devices(lines, id_prefix, display_prefix, backend, i);
    }
    if lines.len() > 1 {
        listings_give_every_named_device(
            lines.drop_last(),
            id_prefix,
            display_prefix,
            backend,
            0,
        );
    } else {
        assert(pipe_devices(lines.drop_last(), id_prefix, display_prefix, backend).len() == 0);
    }
}

} // verus!
