//! Sessions on network scanners: opening, gates of a scan, and the search for capabilities.

use crate::acquisition::{
    bad_page_limit, devices_of, reject_single_page_duplex, single_page_duplex, validate_page_limit,
    DeviceInfo, Device, Request, ScanRequest, MAX_SCAN_PAGES,
};
use crate::error::{cancelled, joined, other, unsupported, Failure, ScanError};
use crate::escl::capabilities::ScannerCapabilities;
use crate::escl::discovery::{has_device, lists_device};
use crate::escl::endpoint::{
    endpoint_of, escl_id, opt_str, parse_endpoint, parse_escl_id, targets, Endpoint, Target,
};
use crate::escl::transfer::{scan_cancelled, HttpExchangeError};
use crate::text::{chars_of, has_prefix, same_text, starts_with};
use vstd::prelude::*;

verus! {

/// A session on a network scanner.
#[derive(Debug)]
pub struct EsclDeviceSession {
    pub device_id: String,
    endpoint: Endpoint,
    simulate: bool,
    closed: bool,
    cancelled: bool,
}

/// A session on a network scanner, with its texts as sequences.
pub struct Session {
    pub device_id: Seq<char>,
    pub target: Target,
    pub simulate: bool,
    pub closed: bool,
    pub cancelled: bool,
}

impl View for EsclDeviceSession {
    type V = Session;

    closed spec fn view(&self) -> Session {
        Session {
            device_id: self.device_id@,
            target: self.endpoint@,
            simulate: self.simulate,
            closed: self.closed,
            cancelled: self.cancelled,
        }
    }
}

/// A session that was just opened.
pub open spec fn fresh_session(device_id: Seq<char>, target: Target, simulate: bool) -> Session {
    Session { device_id, target, simulate, closed: false, cancelled: false }
}

/// How a scan goes on.
#[derive(Debug, Clone, Copy, PartialEq, Eq, Structural)]
pub enum ScanCourse {
    /// The page is a simulated one.
    Simulate,
    /// The page comes from the scanner.
    Acquire,
}

/// How a scan goes on in a session, given whether its operation was cancelled.
pub open spec fn course_of(session: Session, stop: bool) -> Result<ScanCourse, Failure> {
    if session.closed {
        Err(Failure::Other("session closed"@))
    } else if session.cancelled || stop {
        Err(scan_cancelled())
    } else if session.simulate {
        Ok(ScanCourse::Simulate)
    } else {
        Ok(ScanCourse::Acquire)
    }
}

impl EsclDeviceSession {
    /// An open session.
    pub fn new(device_id: String, endpoint: Endpoint, simulate: bool) -> (r: Self)
        ensures
            r@ == fresh_session(device_id@, endpoint@, simulate),
    {
        EsclDeviceSession { device_id, endpoint, simulate, closed: false, cancelled: false }
    }

    /// The endpoint of the session.
    pub fn endpoint(&self) -> (r: &Endpoint)
        ensures
            r@ == self@.target,
    {
        &self.endpoint
    }

    /// Whether the session was closed.
    pub fn is_closed(&self) -> (r: bool)
        ensures
            r == self@.closed,
    {
        self.closed
    }

    /// Whether the session or its operation was cancelled.
    pub fn is_cancelled(&self, stop: bool) -> (r: bool)
        ensures
            r == (self@.cancelled || stop),
    {
        self.cancelled || stop
    }

    fn course(&self, stop: bool) -> (r: Result<ScanCourse, ScanError>)
        ensures
            crate::error::outcome(r) == course_of(self@, stop),
    {
        if self.closed {
            return Err(other("session closed"));
        }
        if self.is_cancelled(stop) {
            return Err(cancelled("scan cancelled"));
        }
        if self.simulate {
            Ok(ScanCourse::Simulate)
        } else {
            Ok(ScanCourse::Acquire)
        }
    }

    /// How the scan of a single page goes on; a duplex request is refused before all else.
    pub fn scan(&self, request: &ScanRequest, stop: bool) -> (r: Result<ScanCourse, ScanError>)
        ensures
            r is Ok <==> !request.duplex && !self@.closed && !self@.cancelled && !stop,
            r is Ok ==> (r->Ok_0 == ScanCourse::Simulate <==> self@.simulate),
            crate::error::outcome(r) == if request.duplex {
                Err::<ScanCourse, Failure>(single_page_duplex())
            } else {
                course_of(self@, stop)
            },
    {
        match reject_single_page_duplex(request) {
            Ok(()) => self.course(stop),
            Err(error) => Err(error),
        }
    }

    /// How the scan of several pages goes on; a bad page limit is refused before all else.
    pub fn scan_pages(&self, max_pages: u32, stop: bool) -> (r: Result<ScanCourse, ScanError>)
        ensures
            r is Ok <==> 1 <= max_pages <= 1000 && !self@.closed && !self@.cancelled && !stop,
            r is Ok ==> (r->Ok_0 == ScanCourse::Simulate <==> self@.simulate),
            crate::error::outcome(r) == if max_pages < 1 || max_pages > MAX_SCAN_PAGES {
                Err::<ScanCourse, Failure>(bad_page_limit())
            } else {
                course_of(self@, stop)
            },
    {
        match validate_page_limit(max_pages) {
            Ok(()) => self.course(stop),
            Err(error) => Err(error),
        }
    }

    /// Cancels the scans of the session, also those under way.
    pub fn cancel(&mut self)
        ensures
            final(self)@ == (Session { cancelled: true, ..old(self)@ }),
    {
        self.cancelled = true;
    }

    /// Whether a signal bound to the session has to be raised at once: where the session was
    /// cancelled before.
    pub fn bind_cancellation(&self) -> (r: bool)
        ensures
            r == self@.cancelled,
    {
        self.cancelled
    }

    /// Closes the session.
    pub fn close(&mut self)
        ensures
            final(self)@ == (Session { closed: true, ..old(self)@ }),
    {
        self.closed = true;
    }
}

/// The request for a simulated page: each page has a seed of its own, as far as there are seeds.
pub fn simulated_request(request: &ScanRequest, index: u32) -> (r: ScanRequest)
    ensures
        r.device_id@ == request.device_id@,
        r.width == request.width && r.height == request.height,
        r.dpi_x == request.dpi_x && r.dpi_y == request.dpi_y,
        r.mode == request.mode && r.duplex == request.duplex,
        r.region == request.region && r.pixel_format == request.pixel_format,
        request.seed + index <= u32::MAX ==> r.seed == request.seed + index,
        request.seed + index > u32::MAX ==> r.seed == u32::MAX,
        r@ == (Request {
            seed: if request.seed + index > u32::MAX {
                u32::MAX
            } else {
                (request.seed + index) as u32
            },
            ..request@
        }),
{
    let mut page = request.clone();
    page.seed = request.seed.saturating_add(index);
    page
}

// ---------------------------------------------------------------------------
// Opening
// ---------------------------------------------------------------------------

/// The session in a result, or its failure.
pub open spec fn opened(r: Result<EsclDeviceSession, ScanError>) -> Result<Session, Failure> {
    match r {
        Ok(session) => Ok(session@),
        Err(error) => Err(error@),
    }
}

/// The simulated scanner's endpoint.
pub open spec fn sim_target() -> Target {
    Target { host: "sim"@, port: 0, secure: false }
}

/// What opening a device id gives: only what was discovered or explicitly allowed, and the simulated
/// scanner, can be opened.
pub open spec fn open_result(
    id: Seq<char>,
    ipv6: Option<Seq<char>>,
    listed: Seq<Device>,
    allowed: Seq<Target>,
) -> Result<Session, Failure> {
    if !starts_with(id, "escl:"@) && id != "escl"@ {
        Err(Failure::DeviceNotFound("not an eSCL device id: "@ + id))
    } else if id == "escl:sim"@ {
        Ok(fresh_session(id, sim_target(), true))
    } else {
        match escl_id(id, ipv6) {
            None => Err(Failure::DeviceNotFound("bad eSCL id: "@ + id)),
            Some(target) => if target.host == "sim"@ {
                Ok(fresh_session(id, target, true))
            } else if has_device(listed, id) || has_target(allowed, target) {
                Ok(fresh_session(id, target, false))
            } else {
                Err(Failure::DeviceNotFound("unknown eSCL device: "@ + id))
            },
        }
    }
}

/// Whether an endpoint is among others.
pub open spec fn has_target(allowed: Seq<Target>, target: Target) -> bool {
    exists|i: int| 0 <= i < allowed.len() && #[trigger] allowed[i] == target
}

fn allows(allowed: &Vec<Endpoint>, endpoint: &Endpoint) -> (r: bool)
    ensures
        r == has_target(targets(allowed@), endpoint@),
{
    let mut i: usize = 0;
    while i < allowed.len()
        invariant
            i <= allowed@.len(),
            forall|j: int| 0 <= j < i ==> #[trigger] targets(allowed@)[j] != endpoint@,
        decreases allowed@.len() - i,
    {
        assert(targets(allowed@)[i as int] == allowed@[i as int]@);
        if allowed[i].same(endpoint) {
            return true;
        }
        i += 1;
    }
    false
}

/// Opens a session on a discovered or explicitly allowed device, or on the simulated one.
pub fn open(
    device_id: &str,
    ipv6: Option<&str>,
    listed: &Vec<DeviceInfo>,
    allowed: &Vec<Endpoint>,
) -> (r: Result<EsclDeviceSession, ScanError>)
    ensures
        opened(r) == open_result(
            device_id@,
            opt_str(ipv6),
            devices_of(listed@),
            targets(allowed@),
        ),
{
    let chars = chars_of(device_id);
    if !has_prefix(&chars, &chars_of("escl:")) && !same_text(device_id, "escl") {
        return Err(ScanError::DeviceNotFound(joined("not an eSCL device id: ", device_id)));
    }
    if same_text(device_id, "escl:sim") {
        return Ok(
            EsclDeviceSession::new(
                device_id.to_owned(),
                Endpoint { host: "sim".to_owned(), port: 0, secure: false },
                true,
            ),
        );
    }
    let endpoint = match parse_escl_id(device_id, ipv6) {
        Some(endpoint) => endpoint,
        None => {
            return Err(ScanError::DeviceNotFound(joined("bad eSCL id: ", device_id)));
        },
    };
    if same_text(endpoint.host.as_str(), "sim") {
        return Ok(EsclDeviceSession::new(device_id.to_owned(), endpoint, true));
    }
    if !lists_device(listed, device_id) && !allows(allowed, &endpoint) {
        return Err(ScanError::DeviceNotFound(joined("unknown eSCL device: ", device_id)));
    }
    Ok(EsclDeviceSession::new(device_id.to_owned(), endpoint, false))
}

/// What opening an explicit id gives, without a discovery or a list of allowed devices.
pub open spec fn explicit_result(id: Seq<char>, ipv6: Option<Seq<char>>) -> Result<
    Session,
    Failure,
> {
    match escl_id(id, ipv6) {
        None => Err(Failure::DeviceNotFound("bad eSCL id: "@ + id)),
        Some(target) => Ok(fresh_session(id, target, target.host == "sim"@)),
    }
}

/// Opens a syntactically valid explicit eSCL id without discovery authorization. Callers must opt
/// in through the device-opening policy; [`open`] remains restricted.
pub fn open_explicit_id(device_id: &str, ipv6: Option<&str>) -> (r: Result<
    EsclDeviceSession,
    ScanError,
>)
    ensures
        opened(r) == explicit_result(device_id@, opt_str(ipv6)),
{
    match parse_escl_id(device_id, ipv6) {
        Some(endpoint) => {
            let simulate = same_text(endpoint.host.as_str(), "sim");
            Ok(EsclDeviceSession::new(device_id.to_owned(), endpoint, simulate))
        },
        None => Err(ScanError::DeviceNotFound(joined("bad eSCL id: ", device_id))),
    }
}

/// Opens a strict explicit endpoint without requiring discovery or an allow-list entry.
pub fn open_unlisted_endpoint(endpoint: &str, ipv6: Option<&str>) -> (r: Result<
    EsclDeviceSession,
    ScanError,
>)
    ensures
        opened(r) == match endpoint_of(endpoint@, opt_str(ipv6)) {
            Some(target) => Ok::<Session, Failure>(
                fresh_session(target.device_id(), target, false),
            ),
            None => Err::<Session, Failure>(
                Failure::DeviceNotFound("invalid explicit eSCL endpoint"@),
            ),
        },
{
    match parse_endpoint(endpoint, ipv6) {
        Some(endpoint) => Ok(EsclDeviceSession::new(endpoint.device_id(), endpoint, false)),
        None => Err(ScanError::DeviceNotFound("invalid explicit eSCL endpoint".to_owned())),
    }
}

/// A device that is neither discovered, nor allowed, nor simulated cannot be opened; by its explicit
/// id it can.
pub proof fn unknown_devices_stay_closed(
    id: Seq<char>,
    ipv6: Option<Seq<char>>,
    listed: Seq<Device>,
    allowed: Seq<Target>,
)
    requires
        escl_id(id, ipv6) is Some,
        escl_id(id, ipv6)->0.host != "sim"@,
        !has_device(listed, id),
        !has_target(allowed, escl_id(id, ipv6)->0),
        id != "escl:sim"@,
    ensures
        open_result(id, ipv6, listed, allowed) == Err::<Session, Failure>(
            Failure::DeviceNotFound("unknown eSCL device: "@ + id),
        ),
        explicit_result(id, ipv6) is Ok,
{
    reveal(escl_id);
}

/// A device that opens is the one that its id names: a scanner that was discovered under this id or whose
/// endpoint is allowed, or the simulated one. A discovered scanner can always be opened.
#[verifier::spinoff_prover]
#[verifier::rlimit(60)]
pub proof fn only_known_devices_open(
    id: Seq<char>,
    ipv6: Option<Seq<char>>,
    listed: Seq<Device>,
    allowed: Seq<Target>,
    i: int,
)
    ensures
        open_result(id, ipv6, listed, allowed) matches Ok(session) ==> {
            &&& session.device_id == id
            &&& !session.closed && !session.cancelled
            &&& session.simulate <==> session.target.host == "sim"@
            &&& id != "escl:sim"@ ==> escl_id(id, ipv6) == Some(session.target)
            &&& !session.simulate ==> (exists|k: int|
                0 <= k < listed.len() && (#[trigger] listed[k]).id == id) || (exists|k: int|
                0 <= k < allowed.len() && #[trigger] allowed[k] == session.target)
        },
        0 <= i < listed.len() && listed[i].id == id && escl_id(id, ipv6) is Some ==> open_result(
            id,
            ipv6,
            listed,
            allowed,
        ) is Ok,
        0 <= i < allowed.len() && escl_id(id, ipv6) == Some(allowed[i]) ==> open_result(
            id,
            ipv6,
            listed,
            allowed,
        ) is Ok,
{
    reveal(escl_id);
}

// ---------------------------------------------------------------------------
// The search for capabilities
// ---------------------------------------------------------------------------

/// What to do next to find a scanner's capabilities.
#[derive(Debug)]
pub enum ProbeStep {
    /// Ask for the document at this path, under this root.
    Ask { path: String, root: String },
    /// The capabilities were found.
    Found(ScannerCapabilities),
    /// There are none.
    Nothing,
    /// The operation was cancelled.
    Cancelled,
}

/// The search for capabilities, under one root and then under the other.
#[derive(Debug, Clone, Copy, PartialEq, Eq, Structural)]
pub struct CapabilityProbe {
    pub attempt: u8,
}

impl CapabilityProbe {
    /// Nothing was asked yet.
    pub fn new() -> (r: Self)
        ensures
            r.attempt == 0,
    {
        CapabilityProbe { attempt: 0 }
    }

    /// What to ask next: nothing after two attempts, once cancelled or without time.
    pub fn next(&self, stop: bool, time_left: bool) -> (r: ProbeStep)
        ensures
            self.attempt >= 2 ==> r is Nothing,
            self.attempt < 2 && stop ==> r is Cancelled,
            self.attempt < 2 && !stop && !time_left ==> r is Nothing,
            self.attempt == 0 && !stop && time_left ==> r is Ask && r->path@
                == "/eSCL/ScannerCapabilities"@ && r->root@ == "eSCL"@,
            self.attempt == 1 && !stop && time_left ==> r is Ask && r->path@
                == "/Scan/ScannerCapabilities"@ && r->root@ == "Scan"@,
    {
        if self.attempt >= 2 {
            ProbeStep::Nothing
        } else if stop {
            ProbeStep::Cancelled
        } else if !time_left {
            ProbeStep::Nothing
        } else if self.attempt == 0 {
            ProbeStep::Ask {
                path: "/eSCL/ScannerCapabilities".to_owned(),
                root: "eSCL".to_owned(),
            }
        } else {
            ProbeStep::Ask {
                path: "/Scan/ScannerCapabilities".to_owned(),
                root: "Scan".to_owned(),
            }
        }
    }

    /// Takes an answer: capabilities that came with status 200 end the search, a cancellation too,
    /// and after anything else the search goes on.
    pub fn answered(
        &mut self,
        outcome: Result<u16, HttpExchangeError>,
        capabilities: Option<ScannerCapabilities>,
    ) -> (r: Option<ProbeStep>)
        requires
            old(self).attempt < 2,
        ensures
            match outcome {
                Err(HttpExchangeError::Cancelled) => r is Some && r->0 is Cancelled
                    && *final(self) == *old(self),
                Err(HttpExchangeError::Failed) => r is None && final(self).attempt == old(
                    self,
                ).attempt + 1,
                Ok(status) => if status == 200 && capabilities is Some {
                    r == Some(ProbeStep::Found(capabilities->0)) && *final(self) == *old(self)
                } else {
                    r is None && final(self).attempt == old(self).attempt + 1
                },
            },
    {
        match outcome {
            Err(HttpExchangeError::Cancelled) => {
                return Some(ProbeStep::Cancelled);
            },
            Err(HttpExchangeError::Failed) => {},
            Ok(status) => {
                if status == 200 {
                    match capabilities {
                        Some(found) => {
                            return Some(ProbeStep::Found(found));
                        },
                        None => {},
                    }
                }
            },
        }
        self.attempt = self.attempt + 1;
        None
    }
}

/// The end of the search as an acquisition sees it.
pub fn require_capabilities(step: ProbeStep) -> (r: Result<ScannerCapabilities, ScanError>)
    ensures
        match step {
            ProbeStep::Found(found) => r is Ok && r->Ok_0 == found,
            ProbeStep::Cancelled => r is Err && r->Err_0@ == scan_cancelled(),
            _ => r is Err && r->Err_0@ == Failure::Unsupported(
                "eSCL ScannerCapabilities unavailable"@,
            ),
        },
{
    match step {
        ProbeStep::Found(found) => Ok(found),
        ProbeStep::Cancelled => Err(cancelled("scan cancelled")),
        _ => Err(unsupported("eSCL ScannerCapabilities unavailable")),
    }
}

} // verus!
