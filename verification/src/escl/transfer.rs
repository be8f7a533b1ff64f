//! The course of an acquisition: requests, documents, pages and what each answer leads to.

use crate::acquisition::{
    resized, FileDeviceSession, Request, ScanPagesEnd, ScanPagesResult, ScanRequest,
};
use crate::error::{cancelled, joined, outcome_view, unsupported, Failure, ScanError};
use crate::escl::endpoint::Endpoint;
use crate::escl::settings::{asked_size, requested_document_dimensions};
use crate::image::{ImageBuffer, Picture};
use crate::processing::opt_text;
use crate::text::{
    chars_of, decimal, equal_letters, push_decimal, read_unsigned, same_letters, unsigned_value,
};
use vstd::prelude::*;
use vstd::string::StringExecFns;

verus! {

// ---------------------------------------------------------------------------
// Requests
// ---------------------------------------------------------------------------

/// Why an exchange brought nothing.
#[derive(Debug, Clone, Copy, PartialEq, Eq, Structural)]
pub enum HttpExchangeError {
    Cancelled,
    Failed,
}

/// What kind of trouble the transport reports.
#[derive(Debug, Clone, Copy, PartialEq, Eq, Structural)]
pub enum TransportTrouble {
    Interrupted,
    TimedOut,
    WouldBlock,
    Anything,
}

/// An interrupted exchange was cancelled; any other failed.
pub fn map_http_exchange_error(trouble: TransportTrouble) -> (r: HttpExchangeError)
    ensures
        r == if trouble == TransportTrouble::Interrupted {
            HttpExchangeError::Cancelled
        } else {
            HttpExchangeError::Failed
        },
{
    match trouble {
        TransportTrouble::Interrupted => HttpExchangeError::Cancelled,
        _ => HttpExchangeError::Failed,
    }
}

/// The methods of the requests that are made.
#[derive(Debug, Clone, Copy, PartialEq, Eq, Structural)]
pub enum Method {
    Get,
    Post,
    Delete,
}

/// The method of a request: a body goes with `POST` and with nothing else.
pub open spec fn method_of(name: Seq<char>, has_body: bool) -> Option<Method> {
    if name == "GET"@ && !has_body {
        Some(Method::Get)
    } else if name == "POST"@ && has_body {
        Some(Method::Post)
    } else if name == "DELETE"@ && !has_body {
        Some(Method::Delete)
    } else {
        None
    }
}

/// The method of a request, refused where the body does not go with it.
pub fn request_method(name: &str, has_body: bool) -> (r: Result<Method, HttpExchangeError>)
    ensures
        name@ == "GET"@ && !has_body ==> r == Ok::<Method, HttpExchangeError>(Method::Get),
        name@ == "POST"@ && has_body ==> r == Ok::<Method, HttpExchangeError>(Method::Post),
        name@ == "DELETE"@ && !has_body ==> r == Ok::<Method, HttpExchangeError>(Method::Delete),
        r == Ok::<Method, HttpExchangeError>(Method::Post) ==> name@ == "POST"@,
        r is Ok ==> (has_body <==> r == Ok::<Method, HttpExchangeError>(Method::Post)),
        match method_of(name@, has_body) {
            Some(method) => r == Ok::<Method, HttpExchangeError>(method),
            None => r == Err::<Method, HttpExchangeError>(HttpExchangeError::Failed),
        },
{
    proof {
        reveal_strlit("GET");
        reveal_strlit("DELETE");
        assert("GET"@.len() != "DELETE"@.len());
    }
    if crate::text::same_text(name, "GET") && !has_body {
        Ok(Method::Get)
    } else if crate::text::same_text(name, "POST") && has_body {
        Ok(Method::Post)
    } else if crate::text::same_text(name, "DELETE") && !has_body {
        Ok(Method::Delete)
    } else {
        Err(HttpExchangeError::Failed)
    }
}

/// Whether a status redirects.
pub open spec fn is_redirection(status: u16) -> bool {
    300 <= status <= 399
}

/// A redirection is a failure: answers come from the scanner that was asked.
pub fn accept_status(status: u16) -> (r: Result<u16, HttpExchangeError>)
    ensures
        300 <= status <= 399 ==> r is Err,
        status < 300 || status > 399 ==> r is Ok && r->Ok_0 == status,
        r == if is_redirection(status) {
            Err::<u16, HttpExchangeError>(HttpExchangeError::Failed)
        } else {
            Ok::<u16, HttpExchangeError>(status)
        },
{
    if 300 <= status && status <= 399 {
        Err(HttpExchangeError::Failed)
    } else {
        Ok(status)
    }
}

/// Header lines, each a name, a colon and a value, with a line break between them.
pub open spec fn header_text(headers: Seq<(String, String)>) -> Seq<char>
    decreases headers.len(),
{
    if headers.len() == 0 {
        Seq::empty()
    } else {
        let line = headers.last().0@ + ": "@ + headers.last().1@;
        if headers.len() == 1 {
            line
        } else {
            header_text(headers.drop_last()) + "\r\n"@ + line
        }
    }
}

/// Header lines, each a name, a colon and a value, with a line break between them.
pub fn join_headers(headers: &Vec<(String, String)>) -> (r: String)
    ensures
        r@ == header_text(headers@),
{
    let mut r = String::new();
    let mut i: usize = 0;
    while i < headers.len()
        invariant
            i <= headers@.len(),
            r@ == header_text(headers@.take(i as int)),
        decreases headers@.len() - i,
    {
        let ghost before = r@;
        if i > 0 {
            r.append("\r\n");
        }
        let mut line = headers[i].0.clone();
        line.append(": ");
        line.append(headers[i].1.as_str());
        r.append(line.as_str());
        i += 1;
        proof {
            let t = headers@.take(i as int);
            assert(t.drop_last() =~= headers@.take(i - 1));
            if i == 1 {
                assert(before =~= Seq::<char>::empty());
                assert(r@ =~= header_text(t));
            } else {
                assert(r@ =~= header_text(t));
            }
        }
    }
    assert(headers@.take(i as int) =~= headers@);
    r
}

// ---------------------------------------------------------------------------
// Deadlines of one connection
// ---------------------------------------------------------------------------

/// The phases of a connection, with instants in nanoseconds of one clock.
#[derive(Debug, Clone, Copy, PartialEq, Eq, Structural)]
pub struct PhaseClock {
    pub send_timeout: u64,
    pub response_timeout: u64,
    pub send_deadline: Option<u64>,
    pub response_deadline: Option<u64>,
    pub sending: bool,
}

/// What a connection may do next.
#[derive(Debug, Clone, Copy, PartialEq, Eq, Structural)]
pub enum PhaseStep {
    Cancelled,
    TimedOut,
    /// Go on for at most so many nanoseconds.
    Proceed(u64),
}

/// The longest wait between two looks at the cancellation signal.
pub const POLL_INTERVAL_NANOS: u64 = 25_000_000;

/// An instant later by a span; the fallback where the clock cannot tell it.
pub open spec fn later(now: u64, span: u64, fallback: u64) -> u64 {
    if now + span <= u64::MAX {
        (now + span) as u64
    } else {
        fallback
    }
}

fn later_by(now: u64, span: u64, fallback: u64) -> (r: u64)
    ensures
        r == later(now, span, fallback),
{
    match now.checked_add(span) {
        Some(then) => then,
        None => fallback,
    }
}

impl PhaseClock {
    /// Before bytes are sent. The first send of a request starts its send deadline and forgets the
    /// response deadline of the request before it.
    pub fn send(&mut self, cancelled: bool, now: u64, timeout: u64) -> (r: PhaseStep)
        ensures
            final(self).send_timeout == old(self).send_timeout,
            final(self).response_timeout == old(self).response_timeout,
            final(self).sending,
            final(self).response_deadline == if old(self).sending {
                old(self).response_deadline
            } else {
                None
            },
            final(self).send_deadline == if cancelled {
                old(self).send_deadline
            } else {
                Some(send_end(*old(self), now, timeout))
            },
            r == if cancelled {
                PhaseStep::Cancelled
            } else {
                let end = sooner(later(now, timeout, now), send_end(*old(self), now, timeout));
                if end <= now {
                    PhaseStep::TimedOut
                } else {
                    PhaseStep::Proceed((end - now) as u64)
                }
            },
    {
        if !self.sending {
            self.response_deadline = None;
            self.sending = true;
        }
        if cancelled {
            return PhaseStep::Cancelled;
        }
        let configured: u64 = later_by(now, timeout, now);
        let deadline: u64 = match self.send_deadline {
            Some(deadline) => deadline,
            None => later_by(now, self.send_timeout, configured),
        };
        self.send_deadline = Some(deadline);
        let end: u64 = if configured < deadline {
            configured
        } else {
            deadline
        };
        if end <= now {
            PhaseStep::TimedOut
        } else {
            PhaseStep::Proceed(end - now)
        }
    }

    /// Before waiting for an answer: the send deadline ends, and after a send the response deadline
    /// starts. Gives the instant at which the wait ends.
    pub fn wait(&mut self, now: u64, timeout: u64) -> (r: u64)
        ensures
            *final(self) == (PhaseClock {
                send_deadline: None,
                response_deadline: if old(self).sending && old(self).response_deadline is None {
                    Some(later(now, old(self).response_timeout, now))
                } else {
                    old(self).response_deadline
                },
                ..*old(self)
            }),
            r == later(now, timeout, now),
    {
        self.send_deadline = None;
        if self.sending && self.response_deadline.is_none() {
            self.response_deadline = Some(later_by(now, self.response_timeout, now));
        }
        later_by(now, timeout, now)
    }

    /// While waiting for an answer: how long to wait before the next look at the signal.
    pub fn poll(&self, cancelled: bool, now: u64, deadline: u64) -> (r: PhaseStep)
        ensures
            r == if cancelled {
                PhaseStep::Cancelled
            } else {
                let end = match self.response_deadline {
                    Some(response) => sooner(deadline, response),
                    None => deadline,
                };
                if end <= now {
                    PhaseStep::TimedOut
                } else {
                    PhaseStep::Proceed(sooner((end - now) as u64, POLL_INTERVAL_NANOS))
                }
            },
    {
        if cancelled {
            return PhaseStep::Cancelled;
        }
        let end: u64 = match self.response_deadline {
            Some(response) => if deadline < response {
                deadline
            } else {
                response
            },
            None => deadline,
        };
        if end <= now {
            PhaseStep::TimedOut
        } else if end - now < POLL_INTERVAL_NANOS {
            PhaseStep::Proceed(end - now)
        } else {
            PhaseStep::Proceed(POLL_INTERVAL_NANOS)
        }
    }

    /// An answer has begun: its phase ends.
    pub fn answered(&mut self)
        ensures
            *final(self) == (PhaseClock { sending: false, response_deadline: None, ..*old(self) }),
    {
        self.sending = false;
        self.response_deadline = None;
    }
}

/// The earlier of two instants.
pub open spec fn sooner(a: u64, b: u64) -> u64 {
    if a < b {
        a
    } else {
        b
    }
}

/// When sending has to end.
pub open spec fn send_end(clock: PhaseClock, now: u64, timeout: u64) -> u64 {
    match clock.send_deadline {
        Some(deadline) => deadline,
        None => later(now, clock.send_timeout, later(now, timeout, now)),
    }
}

/// However an answer is polled for, no wait passes the deadline, the response deadline or the poll
/// interval.
pub proof fn waits_are_bounded(clock: PhaseClock, now: u64, deadline: u64, wait: u64)
    requires
        wait == sooner(
            (match clock.response_deadline {
                Some(response) => sooner(deadline, response),
                None => deadline,
            } - now) as u64,
            POLL_INTERVAL_NANOS,
        ),
        now < match clock.response_deadline {
            Some(response) => sooner(deadline, response),
            None => deadline,
        },
    ensures
        wait <= POLL_INTERVAL_NANOS,
        now + wait <= deadline,
        clock.response_deadline matches Some(response) ==> now + wait <= response,
{
}

// ---------------------------------------------------------------------------
// One document
// ---------------------------------------------------------------------------

/// Why no document was fetched.
#[derive(Debug)]
pub enum FetchDocumentError {
    Cancelled,
    Exhausted,
    TimedOut,
    RetryableTimeout,
    Failed(String),
}

/// Why no document was fetched, with its text as a sequence.
pub enum FetchTrouble {
    Cancelled,
    Exhausted,
    TimedOut,
    RetryableTimeout,
    Failed(Seq<char>),
}

impl View for FetchDocumentError {
    type V = FetchTrouble;

    open spec fn view(&self) -> FetchTrouble {
        match self {
            FetchDocumentError::Cancelled => FetchTrouble::Cancelled,
            FetchDocumentError::Exhausted => FetchTrouble::Exhausted,
            FetchDocumentError::TimedOut => FetchTrouble::TimedOut,
            FetchDocumentError::RetryableTimeout => FetchTrouble::RetryableTimeout,
            FetchDocumentError::Failed(text) => FetchTrouble::Failed(text@),
        }
    }
}

/// The result of a fetch, with its error as a view.
pub open spec fn fetched<T>(r: Result<T, FetchDocumentError>) -> Result<T, FetchTrouble> {
    match r {
        Ok(value) => Ok(value),
        Err(error) => Err(error@),
    }
}

fn failed(text: &str) -> (r: FetchDocumentError)
    ensures
        r@ == FetchTrouble::Failed(text@),
{
    FetchDocumentError::Failed(text.to_owned())
}

/// Trouble before an answer: an interruption cancels, a timeout can be tried again, and anything
/// else fails with its text.
pub fn map_document_call_error(trouble: TransportTrouble, text: &str) -> (r: FetchDocumentError)
    ensures
        r@ == match trouble {
            TransportTrouble::Interrupted => FetchTrouble::Cancelled,
            TransportTrouble::TimedOut => FetchTrouble::RetryableTimeout,
            _ => FetchTrouble::Failed("NextDocument no response: "@ + text@),
        },
{
    match trouble {
        TransportTrouble::Interrupted => FetchDocumentError::Cancelled,
        TransportTrouble::TimedOut => FetchDocumentError::RetryableTimeout,
        _ => FetchDocumentError::Failed(joined("NextDocument no response: ", text)),
    }
}

/// Trouble while a body is read: an interruption cancels, and a timeout ends the fetch.
pub fn map_document_read_error(trouble: TransportTrouble, text: &str) -> (r: FetchDocumentError)
    ensures
        r@ == match trouble {
            TransportTrouble::Interrupted => FetchTrouble::Cancelled,
            TransportTrouble::TimedOut => FetchTrouble::TimedOut,
            TransportTrouble::WouldBlock => FetchTrouble::TimedOut,
            TransportTrouble::Anything => FetchTrouble::Failed(text@),
        },
{
    match trouble {
        TransportTrouble::Interrupted => FetchDocumentError::Cancelled,
        TransportTrouble::TimedOut => FetchDocumentError::TimedOut,
        TransportTrouble::WouldBlock => FetchDocumentError::TimedOut,
        TransportTrouble::Anything => failed(text),
    }
}

/// The length that a header announces, where it is a number.
pub open spec fn announced_length(value: Option<Seq<char>>) -> Option<int> {
    match value {
        Some(text) => unsigned_value(text, u64::MAX as int),
        None => None,
    }
}

/// Whether the body of an answer holds the document: only with status 200, and not where more bytes
/// are announced than allowed. A redirection fails.
pub open spec fn reply_has_document(
    status: u16,
    content_length: Option<Seq<char>>,
    response_limit: u64,
) -> Result<bool, FetchTrouble> {
    if is_redirection(status) {
        Err(FetchTrouble::Failed("NextDocument redirect rejected"@))
    } else if status != 200 {
        Ok(false)
    } else if announced_length(content_length) matches Some(length) && length > response_limit {
        Err(FetchTrouble::Failed("NextDocument response exceeds byte limit"@))
    } else {
        Ok(true)
    }
}

/// Whether the body of an answer holds the document.
pub fn classify_document_reply(
    status: u16,
    content_length: Option<&str>,
    response_limit: u64,
) -> (r: Result<bool, FetchDocumentError>)
    ensures
        300 <= status <= 399 ==> r is Err,
        status != 200 && !(300 <= status <= 399) ==> r is Ok && !r->Ok_0,
        r is Ok && r->Ok_0 ==> status == 200,
        status == 200 && content_length is None ==> r is Ok && r->Ok_0,
        fetched(r) == reply_has_document(
            status,
            crate::escl::endpoint::opt_str(content_length),
            response_limit,
        ),
{
    if 300 <= status && status <= 399 {
        return Err(failed("NextDocument redirect rejected"));
    }
    if status != 200 {
        return Ok(false);
    }
    match content_length {
        Some(text) => {
            let chars = chars_of(text);
            match read_unsigned(&chars, u64::MAX) {
                Some(length) => if length > response_limit {
                    return Err(failed("NextDocument response exceeds byte limit"));
                },
                None => {},
            }
        },
        None => {},
    }
    Ok(true)
}

/// The number of bytes after another chunk, refused where it passes the limit.
pub fn write_document_chunk(copied: u64, chunk_len: u64, response_limit: u64) -> (r: Result<
    u64,
    FetchDocumentError,
>)
    ensures
        fetched(r) == if copied + chunk_len > response_limit {
            Err::<u64, FetchTrouble>(
                FetchTrouble::Failed("NextDocument response exceeds byte limit"@),
            )
        } else {
            Ok::<u64, FetchTrouble>((copied + chunk_len) as u64)
        },
{
    match copied.checked_add(chunk_len) {
        None => Err(failed("NextDocument response exceeds byte limit")),
        Some(total) => if total > response_limit {
            Err(failed("NextDocument response exceeds byte limit"))
        } else {
            Ok(total)
        },
    }
}

/// A document of no bytes is a failure.
pub fn finish_document(copied: u64) -> (r: Result<(), FetchDocumentError>)
    ensures
        fetched(r) == if copied == 0 {
            Err::<(), FetchTrouble>(
                FetchTrouble::Failed("NextDocument returned an empty response"@),
            )
        } else {
            Ok::<(), FetchTrouble>(())
        },
{
    if copied == 0 {
        Err(failed("NextDocument returned an empty response"))
    } else {
        Ok(())
    }
}

/// Before each request for a document: cancellation ends the fetch, and so does the deadline.
pub fn fetch_gate(cancelled: bool, before_deadline: bool) -> (r: Result<(), FetchDocumentError>)
    ensures
        fetched(r) == if cancelled {
            Err::<(), FetchTrouble>(FetchTrouble::Cancelled)
        } else if !before_deadline {
            Err::<(), FetchTrouble>(FetchTrouble::TimedOut)
        } else {
            Ok::<(), FetchTrouble>(())
        },
{
    if cancelled {
        Err(FetchDocumentError::Cancelled)
    } else if !before_deadline {
        Err(FetchDocumentError::TimedOut)
    } else {
        Ok(())
    }
}

/// What to do after a request for a document.
#[derive(Debug, Clone, Copy, PartialEq, Eq, Structural)]
pub enum FetchStep {
    /// The document is there.
    Deliver,
    /// Ask again at once.
    Retry,
    /// Ask again after a pause.
    Pause,
}

/// What an answer without a document means.
pub open spec fn status_step(status: u16) -> Result<FetchStep, FetchTrouble> {
    if status == 204 || status == 404 || status == 410 {
        Err(FetchTrouble::Exhausted)
    } else if status == 202 || status == 409 || status == 423 || status == 425 || status == 429
        || status == 503 {
        Ok(FetchStep::Pause)
    } else {
        Err(FetchTrouble::Failed("NextDocument failed HTTP "@ + decimal(status as nat)))
    }
}

/// What the outcome of a request for a document means: with the status, and whether the document
/// came.
pub open spec fn fetch_step_of(outcome: Result<(u16, bool), FetchTrouble>) -> Result<
    FetchStep,
    FetchTrouble,
> {
    match outcome {
        Err(FetchTrouble::RetryableTimeout) => Ok(FetchStep::Retry),
        Err(trouble) => Err(trouble),
        Ok((_status, true)) => Ok(FetchStep::Deliver),
        Ok((status, false)) => status_step(status),
    }
}

/// What the outcome of a request for a document means.
pub fn fetch_document(outcome: Result<(u16, bool), FetchDocumentError>) -> (r: Result<
    FetchStep,
    FetchDocumentError,
>)
    ensures
        outcome is Ok && outcome->Ok_0.1 ==> r is Ok && r->Ok_0 == FetchStep::Deliver,
        r is Ok && r->Ok_0 == FetchStep::Deliver ==> outcome is Ok && outcome->Ok_0.1,
        outcome is Ok && !outcome->Ok_0.1 && (outcome->Ok_0.0 == 204 || outcome->Ok_0.0 == 404
            || outcome->Ok_0.0 == 410) ==> r is Err && r->Err_0 is Exhausted,
        outcome is Ok && !outcome->Ok_0.1 ==> (r is Ok <==> outcome->Ok_0.0 == 202 || outcome->Ok_0.0 == 409
            || outcome->Ok_0.0 == 423 || outcome->Ok_0.0 == 425 || outcome->Ok_0.0 == 429 || outcome->Ok_0.0
            == 503),
        outcome is Ok && !outcome->Ok_0.1 && r is Ok ==> r->Ok_0 == FetchStep::Pause,
        outcome is Err && outcome->Err_0 is RetryableTimeout ==> r is Ok && r->Ok_0 == FetchStep::Retry,
        outcome is Err && !(outcome->Err_0 is RetryableTimeout) ==> r is Err && r->Err_0@ == outcome->Err_0@,
        fetched(r) == fetch_step_of(fetched(outcome)),
{
    let (status, delivered) = match outcome {
        Err(FetchDocumentError::RetryableTimeout) => {
            return Ok(FetchStep::Retry);
        },
        Err(error) => {
            return Err(error);
        },
        Ok(reply) => reply,
    };
    if delivered {
        return Ok(FetchStep::Deliver);
    }
    if status == 204 || status == 404 || status == 410 {
        return Err(FetchDocumentError::Exhausted);
    }
    if status == 202 || status == 409 || status == 423 || status == 425 || status == 429 || status
        == 503 {
        return Ok(FetchStep::Pause);
    }
    let mut text = "NextDocument failed HTTP ".to_owned();
    push_decimal(&mut text, status as u64);
    Err(FetchDocumentError::Failed(text))
}

/// The image in the size that was asked for: a scanner may acquire at another resolution.
pub open spec fn fitted(request: Request, p: Picture) -> Result<Picture, Failure> {
    let (width, height) = asked_size(request);
    if width > 0 && height > 0 {
        resized(p, width, height)
    } else {
        Ok(p)
    }
}

/// The image in the size that was asked for.
pub fn fit_document(request: &ScanRequest, image: ImageBuffer) -> (r: Result<ImageBuffer, ScanError>)
    requires
        image@.wf(),
    ensures
        outcome_view(r) == fitted(request@, image@),
{
    let (width, height) = requested_document_dimensions(request);
    if width > 0 && height > 0 && (image.width != width || image.height != height) {
        FileDeviceSession::resize_nearest(&image, width, height)
    } else {
        Ok(image)
    }
}

/// A document in the size that was asked for has the width and height of the requested region, or of the
/// request where no region is; each of its pixels is the nearest one of the document that came. A
/// document of that size already is handed on as it is.
#[verifier::spinoff_prover]
#[verifier::rlimit(60)]
pub proof fn documents_are_fitted(request: Request, p: Picture, x: int, y: int, c: int)
    requires
        p.wf(),
        fitted(request, p) is Ok,
        0 <= x < fitted(request, p)->Ok_0.width,
        0 <= y < fitted(request, p)->Ok_0.height,
        0 <= c < p.pixel_format.spec_bpp(),
        request.region matches Some(region) ==> region.width > 0 && region.height > 0,
        request.region is None ==> request.width > 0 && request.height > 0,
    ensures
        request.region matches Some(region) ==> fitted(request, p)->Ok_0.width == region.width && fitted(
            request,
            p,
        )->Ok_0.height == region.height,
        request.region is None ==> fitted(request, p)->Ok_0.width == request.width && fitted(
            request,
            p,
        )->Ok_0.height == request.height,
        fitted(request, p)->Ok_0.at(x, y, c) == p.at(
            x * p.width / (fitted(request, p)->Ok_0.width as int),
            y * p.height / (fitted(request, p)->Ok_0.height as int),
            c,
        ),
{
    crate::acquisition::scaled_pixels_are_their_nearest(
        p,
        fitted(request, p)->Ok_0.width,
        fitted(request, p)->Ok_0.height,
        fitted(request, p)->Ok_0,
        x,
        y,
        c,
    );
}

/// Whether bytes begin with given ones.
pub open spec fn begins(bytes: Seq<u8>, head: Seq<u8>) -> bool {
    head.len() <= bytes.len() && bytes.take(head.len() as int) == head
}

/// The file extension that the first bytes of a document ask for.
pub open spec fn extension_of_magic(bytes: Seq<u8>) -> Option<Seq<char>> {
    if begins(bytes, seq![0x89u8, 0x50u8, 0x4Eu8, 0x47u8]) {
        Some("png"@)
    } else if begins(bytes, seq![0xFFu8, 0xD8u8]) {
        Some("jpg"@)
    } else if begins(bytes, seq![0x49u8, 0x49u8, 0x2Au8, 0x00u8]) || begins(
        bytes,
        seq![0x4Du8, 0x4Du8, 0x00u8, 0x2Au8],
    ) {
        Some("tiff"@)
    } else {
        None
    }
}

fn begins_with4(bytes: &[u8], a: u8, b: u8, c: u8, d: u8) -> (r: bool)
    ensures
        r == begins(bytes@, seq![a, b, c, d]),
{
    if bytes.len() < 4 {
        return false;
    }
    let r = bytes[0] == a && bytes[1] == b && bytes[2] == c && bytes[3] == d;
    proof {
        if r {
            assert(bytes@.take(4) =~= seq![a, b, c, d]);
        } else {
            let head = seq![a, b, c, d];
            assert(head[0] == a && head[1] == b && head[2] == c && head[3] == d);
            if bytes@.take(4) == head {
                assert(bytes@.take(4)[0] == bytes@[0]);
                assert(bytes@.take(4)[1] == bytes@[1]);
                assert(bytes@.take(4)[2] == bytes@[2]);
                assert(bytes@.take(4)[3] == bytes@[3]);
            }
        }
    }
    r
}

/// The file extension that the first bytes of a document ask for.
#[verifier::spinoff_prover]
#[verifier::rlimit(60)]
pub fn document_extension(bytes: &[u8]) -> (r: Option<&'static str>)
    ensures
        bytes@.len() >= 4 && bytes@[0] == 0x89 && bytes@[1] == 0x50 && bytes@[2] == 0x4E && bytes@[3] == 0x47
            ==> r is Some && r->0@ == "png"@,
        bytes@.len() >= 2 && bytes@[0] == 0xFF && bytes@[1] == 0xD8 ==> r is Some && r->0@ == "jpg"@,
        bytes@.len() >= 4 && bytes@[0] == 0x49 && bytes@[1] == 0x49 && bytes@[2] == 0x2A && bytes@[3] == 0
            ==> r is Some && r->0@ == "tiff"@,
        bytes@.len() >= 4 && bytes@[0] == 0x4D && bytes@[1] == 0x4D && bytes@[2] == 0 && bytes@[3] == 0x2A
            ==> r is Some && r->0@ == "tiff"@,
        r is Some ==> bytes@.len() >= 2 && (bytes@[0] == 0x89 || bytes@[0] == 0xFF || bytes@[0] == 0x49
            || bytes@[0] == 0x4D),
        match r {
            Some(text) => extension_of_magic(bytes@) == Some(text@),
            None => extension_of_magic(bytes@) is None,
        },
{
    proof {
        if bytes@.len() >= 4 {
            let head = bytes@.take(4);
            assert(head =~= seq![bytes@[0], bytes@[1], bytes@[2], bytes@[3]]);
        }
    }
    if begins_with4(bytes, 0x89, 0x50, 0x4E, 0x47) {
        return Some("png");
    }
    if bytes.len() >= 2 && bytes[0] == 0xFF && bytes[1] == 0xD8 {
        assert(bytes@.take(2) =~= seq![0xFFu8, 0xD8u8]);
        return Some("jpg");
    }
    proof {
        if begins(bytes@, seq![0xFFu8, 0xD8u8]) {
            assert(bytes@.take(2)[0] == 0xFFu8 && bytes@.take(2)[1] == 0xD8u8);
        }
    }
    if begins_with4(bytes, 0x49, 0x49, 0x2A, 0x00) || begins_with4(bytes, 0x4D, 0x4D, 0x00, 0x2A) {
        return Some("tiff");
    }
    None
}

// ---------------------------------------------------------------------------
// The pages of a job
// ---------------------------------------------------------------------------

/// How far the pages of a job have come.
#[derive(Debug, Clone, Copy, PartialEq, Eq, Structural)]
pub struct PageStream {
    pub emitted: u32,
    pub max_pages: u32,
}

/// What happened in a stream of pages.
#[derive(Debug)]
pub enum PageEvent {
    /// Another page may be fetched; tells whether the scan was cancelled meanwhile.
    Ready { cancelled: bool },
    /// A document was fetched, or not.
    Fetched(Result<(), FetchDocumentError>),
    /// The document was decoded to an image, or could not be, or decoding was refused.
    Decoded(Result<bool, ScanError>),
    /// The page was handed on, or refused.
    Emitted(Result<(), ScanError>),
}

/// What to do next in a stream of pages.
#[derive(Debug)]
pub enum PageAction {
    /// Tell whether the scan is cancelled, then go on.
    Look,
    /// Fetch the next document.
    Fetch,
    /// Decode the document.
    Decode,
    /// Hand the page on.
    Emit,
    /// The stream has ended; the job is deleted where `delete_job` says so.
    Finish { result: ScanPagesResult, delete_job: bool },
    /// The stream has failed; the job is deleted first.
    Abort(ScanError),
}

/// What to do next, with an error as a view.
pub enum PageMove {
    Look,
    Fetch,
    Decode,
    Emit,
    Finish { result: ScanPagesResult, delete_job: bool },
    Abort(Failure),
}

impl View for PageAction {
    type V = PageMove;

    open spec fn view(&self) -> PageMove {
        match self {
            PageAction::Look => PageMove::Look,
            PageAction::Fetch => PageMove::Fetch,
            PageAction::Decode => PageMove::Decode,
            PageAction::Emit => PageMove::Emit,
            PageAction::Finish { result, delete_job } => PageMove::Finish {
                result: *result,
                delete_job: *delete_job,
            },
            PageAction::Abort(error) => PageMove::Abort(error@),
        }
    }
}

/// The end of a stream at its page limit.
pub open spec fn limit_reached(pages: u32) -> ScanPagesResult {
    ScanPagesResult { pages, end: ScanPagesEnd::LimitReached }
}

/// The end of a stream with an empty feeder.
pub open spec fn feeder_exhausted(pages: u32) -> ScanPagesResult {
    ScanPagesResult { pages, end: ScanPagesEnd::FeederExhausted }
}

/// The failure of a cancelled scan.
pub open spec fn scan_cancelled() -> Failure {
    Failure::Cancelled("scan cancelled"@)
}

/// What an event means in a stream of pages.
pub open spec fn page_move(stream: PageStream, event: PageEvent) -> PageMove {
    match event {
        PageEvent::Ready { cancelled } => if cancelled {
            PageMove::Abort(scan_cancelled())
        } else if stream.emitted == stream.max_pages {
            PageMove::Finish { result: limit_reached(stream.emitted), delete_job: true }
        } else {
            PageMove::Fetch
        },
        PageEvent::Fetched(Ok(())) => PageMove::Decode,
        PageEvent::Fetched(Err(error)) => match error@ {
            FetchTrouble::Exhausted => PageMove::Finish {
                result: feeder_exhausted(stream.emitted),
                delete_job: false,
            },
            FetchTrouble::Cancelled => PageMove::Abort(scan_cancelled()),
            FetchTrouble::TimedOut => PageMove::Abort(
                Failure::Unsupported("eSCL NextDocument timed out"@),
            ),
            FetchTrouble::RetryableTimeout => PageMove::Abort(
                Failure::Unsupported("eSCL NextDocument timed out"@),
            ),
            FetchTrouble::Failed(text) => PageMove::Abort(
                Failure::Unsupported("eSCL acquire failed: "@ + text),
            ),
        },
        PageEvent::Decoded(Ok(true)) => PageMove::Emit,
        PageEvent::Decoded(Ok(false)) => PageMove::Abort(
            Failure::Unsupported("eSCL returned an undecodable raster image"@),
        ),
        PageEvent::Decoded(Err(error)) => PageMove::Abort(error@),
        PageEvent::Emitted(Ok(())) => PageMove::Look,
        PageEvent::Emitted(Err(error)) => PageMove::Abort(error@),
    }
}

impl PageStream {
    /// A stream that has handed on no page yet.
    pub fn new(max_pages: u32) -> (r: Self)
        ensures
            r == (PageStream { emitted: 0, max_pages }),
    {
        PageStream { emitted: 0, max_pages }
    }

    /// Takes an event, counts the pages handed on, and tells what to do next.
    #[verifier::spinoff_prover]
    #[verifier::rlimit(60)]
    pub fn stream_job_pages(&mut self, event: PageEvent) -> (r: PageAction)
        requires
            old(self).emitted <= old(self).max_pages,
            event is Emitted ==> old(self).emitted < old(self).max_pages,
        ensures
            event matches PageEvent::Ready { cancelled } ==> (r is Abort <==> cancelled),
            event is Ready && !event->cancelled ==> (r is Fetch <==> old(self).emitted < old(self).max_pages),
            r is Finish ==> r->result.pages == old(self).emitted,
            r is Finish && event is Ready ==> r->result.end == ScanPagesEnd::LimitReached && r->delete_job,
            r is Finish && !(event is Ready) ==> r->result.end == ScanPagesEnd::FeederExhausted && !r->delete_job,
            event is Fetched && event->Fetched_0 is Ok <==> r is Decode,
            event is Fetched && event->Fetched_0 is Err ==> (r is Finish <==> event->Fetched_0->Err_0 is Exhausted),
            event is Decoded && event->Decoded_0 is Ok && event->Decoded_0->Ok_0 <==> r is Emit,
            event is Emitted && event->Emitted_0 is Ok <==> r is Look,
            r@ == page_move(*old(self), event),
            final(self).max_pages == old(self).max_pages,
            final(self).emitted == if event is Emitted && event->Emitted_0 is Ok {
                old(self).emitted + 1
            } else {
                old(self).emitted as int
            },
            final(self).emitted <= final(self).max_pages,
            r@ is Fetch ==> final(self).emitted < final(self).max_pages,
    {
        match event {
            PageEvent::Ready { cancelled: stop } => if stop {
                PageAction::Abort(cancelled("scan cancelled"))
            } else if self.emitted == self.max_pages {
                PageAction::Finish {
                    result: ScanPagesResult {
                        pages: self.emitted,
                        end: ScanPagesEnd::LimitReached,
                    },
                    delete_job: true,
                }
            } else {
                PageAction::Fetch
            },
            PageEvent::Fetched(Ok(())) => PageAction::Decode,
            PageEvent::Fetched(Err(FetchDocumentError::Exhausted)) => PageAction::Finish {
                result: ScanPagesResult { pages: self.emitted, end: ScanPagesEnd::FeederExhausted },
                delete_job: false,
            },
            PageEvent::Fetched(Err(FetchDocumentError::Cancelled)) => PageAction::Abort(
                cancelled("scan cancelled"),
            ),
            PageEvent::Fetched(Err(FetchDocumentError::TimedOut)) => PageAction::Abort(
                unsupported("eSCL NextDocument timed out"),
            ),
            PageEvent::Fetched(Err(FetchDocumentError::RetryableTimeout)) => PageAction::Abort(
                unsupported("eSCL NextDocument timed out"),
            ),
            PageEvent::Fetched(Err(FetchDocumentError::Failed(text))) => PageAction::Abort(
                ScanError::Unsupported(joined("eSCL acquire failed: ", text.as_str())),
            ),
            PageEvent::Decoded(Ok(true)) => PageAction::Emit,
            PageEvent::Decoded(Ok(false)) => PageAction::Abort(
                unsupported("eSCL returned an undecodable raster image"),
            ),
            PageEvent::Decoded(Err(error)) => PageAction::Abort(error),
            PageEvent::Emitted(Ok(())) => {
                self.emitted = self.emitted + 1;
                PageAction::Look
            },
            PageEvent::Emitted(Err(error)) => PageAction::Abort(error),
        }
    }
}

/// A stream ends with as many pages as were handed on, at its limit or with an empty feeder; and
/// the job outlives only an empty feeder.
pub proof fn streams_end_in_order(stream: PageStream, event: PageEvent, result: ScanPagesResult, delete_job: bool)
    requires
        stream.emitted <= stream.max_pages,
        page_move(stream, event) == (PageMove::Finish { result, delete_job }),
    ensures
        result.pages == stream.emitted,
        result.pages <= stream.max_pages,
        result.end == ScanPagesEnd::LimitReached <==> delete_job,
        result.end == ScanPagesEnd::LimitReached ==> result.pages == stream.max_pages,
{
}

// ---------------------------------------------------------------------------
// The job itself
// ---------------------------------------------------------------------------

/// What an answer to a new job means: a status of 400 or more rejects it, and without a path there
/// is no job.
pub open spec fn job_reply(
    outcome: Result<u16, HttpExchangeError>,
    path: Option<Seq<char>>,
    host: Seq<char>,
    port: u16,
) -> Result<Seq<char>, Failure> {
    match outcome {
        Err(HttpExchangeError::Cancelled) => Err(scan_cancelled()),
        Err(HttpExchangeError::Failed) => Err(
            Failure::Unsupported("no response from "@ + host + ":"@ + decimal(port as nat)),
        ),
        Ok(status) => if status >= 400 {
            Err(Failure::Unsupported("eSCL rejected job HTTP "@ + decimal(status as nat)))
        } else {
            match path {
                Some(path) => Ok(path),
                None => Err(Failure::Unsupported("eSCL did not return job id"@)),
            }
        },
    }
}

/// What an answer to a new job means.
pub fn create_job(
    endpoint: &Endpoint,
    outcome: Result<u16, HttpExchangeError>,
    path: Option<String>,
) -> (r: Result<String, ScanError>)
    ensures
        r is Ok <==> outcome is Ok && outcome->Ok_0 < 400 && path is Some,
        r is Ok ==> r->Ok_0@ == path->0@,
        r is Err && r->Err_0@ is Cancelled <==> outcome == Err::<u16, HttpExchangeError>(
            HttpExchangeError::Cancelled,
        ),
        outcome_view(r) == job_reply(outcome, opt_text(path), endpoint.host@, endpoint.port),
{
    match outcome {
        Err(HttpExchangeError::Cancelled) => Err(cancelled("scan cancelled")),
        Err(HttpExchangeError::Failed) => {
            let mut text = joined("no response from ", endpoint.host.as_str());
            text.append(":");
            push_decimal(&mut text, endpoint.port as u64);
            Err(ScanError::Unsupported(text))
        },
        Ok(status) => {
            if status >= 400 {
                let mut text = "eSCL rejected job HTTP ".to_owned();
                push_decimal(&mut text, status as u64);
                return Err(ScanError::Unsupported(text));
            }
            match path {
                Some(path) => Ok(path),
                None => Err(unsupported("eSCL did not return job id")),
            }
        },
    }
}

/// The path at which jobs are created under a root.
pub fn jobs_path(root: &str) -> (r: String)
    ensures
        r@ == "/"@ + root@ + "/ScanJobs"@,
{
    let mut r = joined("/", root);
    r.append("/ScanJobs");
    r
}

/// The other root under which a scanner may answer.
pub open spec fn other_root(root: Seq<char>) -> Seq<char> {
    if same_letters(root, "escl"@) {
        "Scan"@
    } else {
        "eSCL"@
    }
}

/// The other root under which a scanner may answer.
pub fn alternate_root(root: &str) -> (r: &'static str)
    ensures
        root@ == "eSCL"@ ==> r@ == "Scan"@,
        root@ == "Scan"@ ==> r@ == "eSCL"@,
        r@ == other_root(root@),
{
    proof {
        reveal_strlit("eSCL");
        reveal_strlit("escl");
        reveal_strlit("Scan");
        assert("Scan"@[0] == 'S' && "escl"@[0] == 'e' && "eSCL"@[0] == 'e');
        assert("escl"@[1] == 's' && "escl"@[2] == 'c' && "escl"@[3] == 'l');
        assert("eSCL"@[1] == 'S' && "eSCL"@[2] == 'C' && "eSCL"@[3] == 'L');
        assert(crate::text::lower_all("eSCL"@) =~= crate::text::lower_all("escl"@));
        assert(crate::text::lower_all("Scan"@)[0] == 's');
        assert(crate::text::lower_all("escl"@)[0] == 'e');
    }
    let chars = chars_of(root);
    if equal_letters(&chars, &chars_of("escl")) {
        "Scan"
    } else {
        "eSCL"
    }
}

/// The attempts to create a job: under the root at which the scanner answered, then under the other.
#[derive(Debug)]
pub struct JobAttempts {
    pub root: String,
    pub attempt: u8,
    pub last_error: String,
}

/// What to do next to create a job.
#[derive(Debug)]
pub enum JobStep {
    /// Create the job under this root.
    Create(String),
    /// There is a job with this path.
    Stream(String),
    /// Look at the signal, then go on.
    Look,
    /// There will be no job.
    Abort(ScanError),
}

/// What to do next to create a job, as sequences.
pub enum JobMove {
    Create(Seq<char>),
    Stream(Seq<char>),
    Look,
    Abort(Failure),
}

impl View for JobStep {
    type V = JobMove;

    open spec fn view(&self) -> JobMove {
        match self {
            JobStep::Create(root) => JobMove::Create(root@),
            JobStep::Stream(path) => JobMove::Stream(path@),
            JobStep::Look => JobMove::Look,
            JobStep::Abort(error) => JobMove::Abort(error@),
        }
    }
}

impl JobAttempts {
    /// No attempt was made yet.
    pub fn new(root: String) -> (r: Self)
        ensures
            r.root@ == root@,
            r.attempt == 0,
            r.last_error@ == Seq::<char>::empty(),
    {
        JobAttempts { root, attempt: 0, last_error: String::new() }
    }

    /// The next attempt: none after two, and none once the scan is cancelled.
    pub fn next(&self, stop: bool) -> (r: JobStep)
        ensures
            r@ == if self.attempt >= 2 {
                JobMove::Abort(Failure::Unsupported("eSCL acquire failed: "@ + self.last_error@))
            } else if stop {
                JobMove::Abort(scan_cancelled())
            } else if self.attempt == 0 {
                JobMove::Create(self.root@)
            } else {
                JobMove::Create(other_root(self.root@))
            },
    {
        if self.attempt >= 2 {
            JobStep::Abort(
                ScanError::Unsupported(joined("eSCL acquire failed: ", self.last_error.as_str())),
            )
        } else if stop {
            JobStep::Abort(cancelled("scan cancelled"))
        } else if self.attempt == 0 {
            JobStep::Create(self.root.clone())
        } else {
            JobStep::Create(alternate_root(self.root.as_str()).to_owned())
        }
    }

    /// Takes the outcome of an attempt: a job is streamed, a cancellation ends the attempts, and
    /// any other error is remembered for the next.
    pub fn tried(&mut self, outcome: Result<String, ScanError>) -> (r: JobStep)
        requires
            old(self).attempt < 2,
        ensures
            final(self).root == old(self).root,
            match outcome {
                Ok(path) => r@ == JobMove::Stream(path@) && *final(self) == *old(self),
                Err(error) => if error@ is Cancelled {
                    r@ == JobMove::Abort(error@) && *final(self) == *old(self)
                } else {
                    r@ == JobMove::Look && final(self).attempt == old(self).attempt + 1
                        && final(self).last_error@ == error@.text()
                },
            },
    {
        match outcome {
            Ok(path) => JobStep::Stream(path),
            Err(ScanError::Cancelled(text)) => JobStep::Abort(ScanError::Cancelled(text)),
            Err(error) => {
                self.last_error = error.message();
                self.attempt = self.attempt + 1;
                JobStep::Look
            },
        }
    }
}

/// The single page of an acquisition, or why there is none.
pub fn single_page(page: Option<ImageBuffer>, summary: ScanPagesResult) -> (r: Result<
    ImageBuffer,
    ScanError,
>)
    ensures
        match page {
            Some(image) => r is Ok && r->Ok_0 == image,
            None => r is Err && r->Err_0@ == Failure::Unsupported(
                match summary.end {
                    ScanPagesEnd::FeederExhausted => {
                        "eSCL feeder exhausted before returning an image"@
                    },
                    ScanPagesEnd::LimitReached => {
                        "eSCL stopped without returning the requested image"@
                    },
                },
            ),
        },
{
    match page {
        Some(image) => Ok(image),
        None => match summary.end {
            ScanPagesEnd::FeederExhausted => Err(
                unsupported("eSCL feeder exhausted before returning an image"),
            ),
            ScanPagesEnd::LimitReached => Err(
                unsupported("eSCL stopped without returning the requested image"),
            ),
        },
    }
}

/// The lines of headers stand in their order, each as its name, a colon and its value, with a line break
/// between any two.
pub proof fn header_lines_are_joined(first: Seq<(String, String)>, rest: Seq<(String, String)>)
    requires
        first.len() > 0,
        rest.len() > 0,
    ensures
        header_text(first + rest) == header_text(first) + "\r\n"@ + header_text(rest),
        first.len() == 1 ==> header_text(first) == first[0].0@ + ": "@ + first[0].1@,
    decreases rest.len(),
{
    let all = first + rest;
    assert(all.drop_last() =~= first + rest.drop_last());
    assert(all.last() == rest.last());
    let line = rest.last().0@ + ": "@ + rest.last().1@;
    if rest.len() > 1 {
        header_lines_are_joined(first, rest.drop_last());
        assert(header_text(all) =~= header_text(first) + "\r\n"@ + (header_text(rest.drop_last())
            + "\r\n"@ + line));
    } else {
        assert(all.drop_last() =~= first);
    }
}

} // verus!
