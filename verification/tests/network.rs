//! eSCL scanners: endpoints, discovery, capabilities, settings, jobs and transfers.

use open_scanline::acquisition::{DeviceInfo, ScanMode, ScanPagesEnd, ScanPagesResult, ScanRequest};
use open_scanline::error::ScanError;
use open_scanline::escl::capabilities::{parse_escl_capabilities, CapabilitySource};
use open_scanline::escl::discovery::{
    available, discover_devices, endpoints_for_service, env_hosts, filter_mdns_resolved_addresses,
    list_escl_devices_safe, lists_device, plan_probes, probe_endpoint, sort_found,
    subnet_endpoints, Address, DeviceCache, Service,
};
use open_scanline::escl::endpoint::{bracketed_host, parse_endpoint, parse_escl_id, Endpoint};
use open_scanline::escl::job::{canonical_job_path, job_location, next_document_path};
use open_scanline::escl::session::{
    open, open_explicit_id, open_unlisted_endpoint, require_capabilities, simulated_request,
    CapabilityProbe, EsclDeviceSession, ProbeStep, ScanCourse,
};
use open_scanline::escl::settings::{
    build_settings, region_in_three_hundredths, select_source, DocumentLimits,
    DocumentRepresentation,
};
use open_scanline::escl::transfer::{
    accept_status, classify_document_reply, create_job, document_extension, fetch_document,
    fetch_gate, finish_document, fit_document, join_headers, jobs_path, map_document_call_error,
    map_http_exchange_error, request_method, single_page, write_document_chunk,
    FetchDocumentError, FetchStep, HttpExchangeError, JobAttempts, JobStep, Method, PageAction,
    PageEvent, PageStream, PhaseClock, PhaseStep, TransportTrouble,
};
use open_scanline::image::{ImageBuffer, PixelFormat, Rect};

const CAPABILITIES: &str = r#"<?xml version="1.0" encoding="UTF-8"?>
<scan:ScannerCapabilities xmlns:scan="http://schemas.hp.com/imaging/escl/2011/05/03"
    xmlns:pwg="http://www.pwg.org/schemas/2010/12/sm">
  <pwg:MakeAndModel>Fixture Scanner 9</pwg:MakeAndModel>
  <scan:Platen>
    <scan:PlatenInputCaps>
      <scan:MaxWidth>2550</scan:MaxWidth>
      <scan:MaxHeight>3300</scan:MaxHeight>
      <scan:SettingProfiles>
        <scan:SettingProfile>
          <scan:ColorModes>
            <scan:ColorMode>RGB24</scan:ColorMode>
            <scan:ColorMode>Grayscale8</scan:ColorMode>
          </scan:ColorModes>
          <scan:DocumentFormats>
            <pwg:DocumentFormat>image/jpeg</pwg:DocumentFormat>
            <scan:DocumentFormatExt>image/png</scan:DocumentFormatExt>
          </scan:DocumentFormats>
          <scan:SupportedResolutions>
            <scan:Resolution>
              <scan:XResolution>300</scan:XResolution>
              <scan:YResolution>300</scan:YResolution>
            </scan:Resolution>
          </scan:SupportedResolutions>
        </scan:SettingProfile>
      </scan:SettingProfiles>
    </scan:PlatenInputCaps>
  </scan:Platen>
</scan:ScannerCapabilities>"#;

fn endpoint(host: &str, port: u16, secure: bool) -> Endpoint {
    Endpoint { host: host.into(), port, secure }
}

fn device(id: &str) -> DeviceInfo {
    DeviceInfo::new(id.into(), "Fixture".into(), "escl")
}

#[test]
fn endpoints_are_canonical() {
    let plain = parse_endpoint("http://Scanner.Local:8080", None).unwrap();
    assert_eq!((plain.host.as_str(), plain.port, plain.secure), ("scanner.local", 8080, false));
    let secure = parse_endpoint("https://192.168.1.9", None).unwrap();
    assert_eq!((secure.port, secure.secure), (443, true));
    assert!(parse_endpoint("http://user@host", None).is_none());
    assert!(parse_endpoint("http://", None).is_none());
    assert_eq!(bracketed_host("http://[::1]:80").as_deref(), Some("::1"));
    let six = parse_endpoint("http://[fe80::1]:80", Some("fe80::1")).unwrap();
    assert_eq!(six.host, "fe80::1");
    assert!(parse_endpoint("http://[nonsense]:80", None).is_none());
}

#[test]
fn device_ids_name_their_endpoint() {
    let plain = parse_endpoint("scanner.local:8080", None).unwrap();
    let again = parse_escl_id(&plain.device_id(), None).unwrap();
    assert!(again.same(&plain));
    assert!(plain.url("/eSCL/ScannerStatus").ends_with("/eSCL/ScannerStatus"));
    assert!(parse_escl_id("sane:fixture", None).is_none());
}

#[test]
fn services_resolve_to_local_endpoints() {
    let addresses = vec![Address::V4(192, 168, 1, 9), Address::V4(8, 8, 8, 8)];
    let kept = filter_mdns_resolved_addresses(Some("scanner.local"), &addresses);
    assert_eq!(kept.unwrap().len(), 1);
    let service = Service {
        addresses: vec![Address::V4(192, 168, 1, 9)],
        port: 80,
        https: None,
        hostname: "scanner.local.".into(),
        literal: None,
    };
    let endpoints = endpoints_for_service(&service, false);
    assert_eq!(endpoints.len(), 1);
    assert_eq!(endpoints[0].host, "scanner.local");
}

#[test]
fn probes_are_planned_up_to_the_cap() {
    let raw = "scanner.local,10.0.0.5:8080, spaced.local";
    let hosts = env_hosts(Some(raw), &vec![None, None, None]);
    assert_eq!(hosts.len(), 2);
    let announced = vec![endpoint("announced.local", 80, false)];
    let planned = plan_probes(hosts, announced, Some("192.168.7.0/30"), 4);
    let names: Vec<&str> = planned.iter().map(|e| e.host.as_str()).collect();
    assert_eq!(names, vec!["scanner.local", "10.0.0.5", "announced.local", "192.168.7.1"]);
    let subnet = subnet_endpoints(Some("192.168.7.0/30"), 10);
    assert!(subnet.iter().any(|e| e.host == "192.168.7.1"));
    assert!(!subnet.iter().any(|e| e.host == "192.168.7.0"));
    assert!(subnet_endpoints(Some("192.168.7.0/30"), 1).len() <= 1);
}

#[test]
fn discovery_is_switched() {
    assert!(available(None));
    assert!(discover_devices(false, false, false, vec![device("escl:a")]).is_empty());
    assert_eq!(discover_devices(true, false, false, vec![device("escl:a")]).len(), 1);
    let sorted = sort_found(vec![(2, device("escl:c")), (0, device("escl:a"))]);
    assert_eq!(sorted[0].0, 0);
    assert!(lists_device(&vec![device("escl:a")], "escl:a"));
    assert!(!lists_device(&vec![device("escl:a")], "escl:b"));
    let mut cache = DeviceCache::new();
    assert!(cache.cached().is_none());
    assert_eq!(list_escl_devices_safe(&mut cache, vec![device("escl:a")]).len(), 1);
    assert_eq!(list_escl_devices_safe(&mut cache, Vec::new()).len(), 1);
}

#[test]
fn capabilities_are_read_from_xml() {
    let caps = parse_escl_capabilities(CAPABILITIES.as_bytes(), "eSCL").unwrap();
    assert_eq!(caps.make_and_model.as_deref(), Some("Fixture Scanner 9"));
    assert_eq!(caps.root, "eSCL");
    let platen = caps.source(CapabilitySource::Platen).unwrap();
    assert_eq!(platen.color_modes, vec!["RGB24".to_string(), "Grayscale8".to_string()]);
    assert_eq!(platen.resolutions, vec![(300, 300)]);
    assert_eq!(platen.max_width, Some(2550));
    assert!(caps.source(CapabilitySource::AdfSimplex).is_none());
    assert!(parse_escl_capabilities(b"<a><b></a>", "eSCL").is_none());
    let found = probe_endpoint(&endpoint("scanner.local", 80, false), &caps);
    assert!(found.name.contains("Fixture Scanner 9"));
    assert_eq!(found.backend, "escl");
}

#[test]
fn settings_follow_the_capabilities() {
    let caps = parse_escl_capabilities(CAPABILITIES.as_bytes(), "eSCL").unwrap();
    let request = ScanRequest {
        width: 300,
        height: 600,
        dpi_x: 300,
        dpi_y: 300,
        pixel_format: PixelFormat::Gray8,
        ..ScanRequest::default()
    };
    let (settings, representation) = build_settings(&request, &caps).unwrap();
    let text = String::from_utf8(settings).unwrap();
    assert!(text.contains("<scan:ColorMode>Grayscale8</scan:ColorMode>"));
    assert!(text.contains("<scan:XResolution>300</scan:XResolution>"));
    assert_eq!(representation, DocumentRepresentation::Grayscale8);
    let duplex = ScanRequest { duplex: true, ..ScanRequest::default() };
    assert!(build_settings(&duplex, &caps).is_err());
    let feeder = ScanRequest { mode: ScanMode::Document, ..ScanRequest::default() };
    assert!(select_source(&feeder, &caps).is_err());
}

#[test]
fn regions_stay_within_their_source() {
    let caps = parse_escl_capabilities(CAPABILITIES.as_bytes(), "eSCL").unwrap();
    let platen = caps.source_or_default(CapabilitySource::Platen);
    let request = ScanRequest {
        dpi_x: 300,
        dpi_y: 300,
        region: Some(Rect::new(2500, 3200, 1000, 1000)),
        ..ScanRequest::default()
    };
    let (x, y, width, height) = region_in_three_hundredths(&request, &platen);
    assert!(x + width <= 2550);
    assert!(y + height <= 3300);
    assert!(width >= 1 && height >= 1);
}

#[test]
fn limits_follow_the_request() {
    let request = ScanRequest { width: 100, height: 100, ..ScanRequest::default() };
    let limits = DocumentLimits::for_request(&request, DocumentRepresentation::Rgb24).unwrap();
    assert!(limits.response_limit >= 100 * 100 * 3);
    assert!(limits.max_width >= 100 && limits.max_height >= 100);
    assert!(limits.max_allocation >= 100 * 100 * 3);
}

#[test]
fn jobs_stay_at_their_endpoint() {
    let at = endpoint("scanner.local", 80, false);
    let headers = "content-type: text/xml\nLocation: http://scanner.local/eSCL/ScanJobs/7\n";
    assert_eq!(
        canonical_job_path(headers, b"", "eSCL", &at, None, None).as_deref(),
        Some("/eSCL/ScanJobs/7")
    );
    let elsewhere = "Location: http://other.local/eSCL/ScanJobs/7\n";
    assert!(canonical_job_path(elsewhere, b"", "eSCL", &at, None, None).is_none());
    assert!(job_location("x: y\n", b"").is_none());
    assert_eq!(next_document_path("/eSCL/ScanJobs/7"), "/eSCL/ScanJobs/7/NextDocument");
    assert_eq!(jobs_path("eSCL"), "/eSCL/ScanJobs");
}

#[test]
fn only_known_devices_are_opened() {
    let id = endpoint("scanner.local", 80, false).device_id();
    let listed = vec![device(&id)];
    assert!(open(&id, None, &listed, &Vec::new()).is_ok());
    assert!(open(&id, None, &Vec::new(), &Vec::new()).is_err());
    assert!(open(&id, None, &Vec::new(), &vec![endpoint("scanner.local", 80, false)]).is_ok());
    assert!(open_explicit_id(&id, None).is_ok());
    assert!(open_explicit_id("sane:x", None).is_err());
    assert!(open_unlisted_endpoint("scanner.local", None).is_ok());
    assert!(open_unlisted_endpoint("http://", None).is_err());
}

#[test]
fn sessions_end() {
    let at = endpoint("scanner.local", 80, false);
    let mut session = EsclDeviceSession::new(at.device_id(), at, true);
    let request = ScanRequest::default();
    assert!(matches!(session.scan(&request, false), Ok(ScanCourse::Simulate)));
    assert!(matches!(session.scan(&request, true), Err(ScanError::Cancelled(_))));
    assert!(session.scan_pages(0, false).is_err());
    session.cancel();
    assert!(session.is_cancelled(false));
    session.close();
    assert!(session.is_closed());
    assert!(session.scan(&request, false).is_err());
    let second = simulated_request(&request, 1);
    assert_ne!(second.seed, request.seed);
}

#[test]
fn probes_try_both_roots() {
    let mut probe = CapabilityProbe::new();
    let first = match probe.next(false, true) {
        ProbeStep::Ask { path, root } => {
            assert_eq!(path, format!("/{root}/ScannerCapabilities"));
            root
        }
        _ => panic!("the first step asks"),
    };
    assert!(matches!(probe.next(true, true), ProbeStep::Cancelled));
    assert!(probe.answered(Ok(404), None).is_none());
    match probe.next(false, true) {
        ProbeStep::Ask { root, .. } => assert_ne!(root, first),
        _ => panic!("the second step asks again"),
    }
    let caps = parse_escl_capabilities(CAPABILITIES.as_bytes(), "eSCL");
    match probe.answered(Ok(200), caps) {
        Some(step) => assert!(require_capabilities(step).is_ok()),
        None => panic!("capabilities end the probe"),
    }
    assert!(require_capabilities(ProbeStep::Nothing).is_err());
    assert!(matches!(require_capabilities(ProbeStep::Cancelled), Err(ScanError::Cancelled(_))));
}

#[test]
fn exchanges_are_classified() {
    assert!(matches!(request_method("GET", false), Ok(Method::Get)));
    assert!(matches!(request_method("POST", true), Ok(Method::Post)));
    assert!(matches!(request_method("DELETE", false), Ok(Method::Delete)));
    assert!(request_method("PATCH", false).is_err());
    assert!(accept_status(200).is_ok());
    assert!(matches!(
        map_http_exchange_error(TransportTrouble::Interrupted),
        HttpExchangeError::Cancelled
    ));
    assert!(matches!(
        map_document_call_error(TransportTrouble::Interrupted, "stopped"),
        FetchDocumentError::Cancelled
    ));
    let joined = join_headers(&vec![("a".into(), "1".into()), ("b".into(), "2".into())]);
    assert!(joined.contains("a: 1") && joined.contains("b: 2"));
}

#[test]
fn phases_are_bounded_by_their_deadlines() {
    let mut clock = PhaseClock {
        send_timeout: 1_000,
        response_timeout: 2_000,
        send_deadline: None,
        response_deadline: None,
        sending: false,
    };
    assert!(matches!(clock.send(false, 0, 10_000), PhaseStep::Proceed(_)));
    assert!(matches!(clock.send(true, 1, 10_000), PhaseStep::Cancelled));
    assert!(matches!(clock.send(false, 5_000, 10_000), PhaseStep::TimedOut));
    clock.answered();
    let deadline = clock.wait(0, 10_000);
    assert!(matches!(clock.poll(false, deadline + 1, deadline), PhaseStep::TimedOut));
    assert!(matches!(clock.poll(true, 0, deadline), PhaseStep::Cancelled));
}

#[test]
fn documents_keep_their_limit() {
    assert_eq!(write_document_chunk(10, 5, 15).unwrap(), 15);
    assert!(write_document_chunk(10, 6, 15).is_err());
    assert!(finish_document(1).is_ok());
    assert!(finish_document(0).is_err());
    assert!(classify_document_reply(200, Some("100"), 99).is_err());
    assert!(classify_document_reply(200, Some("100"), 100).is_ok());
    assert!(matches!(classify_document_reply(404, None, 100), Ok(false)));
    assert!(classify_document_reply(302, None, 100).is_err());
    assert!(matches!(fetch_document(Ok((404, false))), Err(FetchDocumentError::Exhausted)));
    assert!(matches!(fetch_gate(true, true), Err(FetchDocumentError::Cancelled)));
    assert!(matches!(fetch_gate(false, false), Err(FetchDocumentError::TimedOut)));
    assert!(fetch_gate(false, true).is_ok());
    assert!(matches!(fetch_document(Ok((200, true))), Ok(FetchStep::Deliver)));
    assert_eq!(document_extension(b"\xff\xd8\xff\xe0rest"), Some("jpg"));
    assert_eq!(document_extension(b"????"), None);
}

#[test]
fn documents_are_fitted_to_the_request() {
    let request = ScanRequest { width: 1, height: 1, ..ScanRequest::default() };
    let image = ImageBuffer::new(2, 1, PixelFormat::Gray8, vec![3, 4]).unwrap();
    let fitted = fit_document(&request, image).unwrap();
    assert_eq!((fitted.width, fitted.height), (1, 1));
    let one = ScanPagesResult { pages: 1, end: ScanPagesEnd::LimitReached };
    assert!(single_page(Some(fitted), one).is_ok());
    let none = ScanPagesResult { pages: 0, end: ScanPagesEnd::FeederExhausted };
    assert!(single_page(None, none).is_err());
}

#[test]
fn page_streams_end_at_the_limit_or_with_the_feeder() {
    let mut stream = PageStream::new(1);
    assert!(matches!(
        stream.stream_job_pages(PageEvent::Ready { cancelled: false }),
        PageAction::Fetch
    ));
    assert!(matches!(stream.stream_job_pages(PageEvent::Fetched(Ok(()))), PageAction::Decode));
    assert!(matches!(stream.stream_job_pages(PageEvent::Decoded(Ok(true))), PageAction::Emit));
    assert!(matches!(stream.stream_job_pages(PageEvent::Emitted(Ok(()))), PageAction::Look));
    assert!(matches!(
        stream.stream_job_pages(PageEvent::Ready { cancelled: false }),
        PageAction::Finish { result: ScanPagesResult { pages: 1, end: ScanPagesEnd::LimitReached }, .. }
    ));
    let mut fed = PageStream::new(5);
    assert!(matches!(
        fed.stream_job_pages(PageEvent::Ready { cancelled: true }),
        PageAction::Abort(ScanError::Cancelled(_))
    ));
    assert!(matches!(
        fed.stream_job_pages(PageEvent::Fetched(Err(FetchDocumentError::Failed("x".into())))),
        PageAction::Abort(_)
    ));
}

#[test]
fn jobs_are_tried_at_both_roots() {
    let mut attempts = JobAttempts::new("eSCL".into());
    assert!(matches!(attempts.next(false), JobStep::Create(_)));
    assert!(matches!(attempts.next(true), JobStep::Abort(ScanError::Cancelled(_))));
    assert!(matches!(
        attempts.tried(Err(ScanError::Other("refused".into()))),
        JobStep::Look
    ));
    assert!(matches!(attempts.tried(Ok("/eSCL/ScanJobs/1".into())), JobStep::Stream(_)));
    let at = endpoint("scanner.local", 80, false);
    assert_eq!(create_job(&at, Ok(201), Some("/eSCL/ScanJobs/1".into())).unwrap(), "/eSCL/ScanJobs/1");
    assert!(create_job(&at, Ok(503), None).is_err());
    assert!(create_job(&at, Err(HttpExchangeError::Cancelled), None).is_err());
}
