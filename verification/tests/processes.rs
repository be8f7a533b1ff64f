//! Child processes: deadlines, quotas, captured streams and command lines.

use open_scanline::acquisition::ScanRequest;
use open_scanline::command_line::{quote_windows_command_line_argument, windows_command_line};
use open_scanline::error::ScanError;
use open_scanline::image::{ImageBuffer, PixelFormat, MAX_IMAGE_DIMENSION};
use open_scanline::process::{
    artifact_quota_for_request, availability_probe_succeeds, document_batch_timeout,
    join_command_stream, parse_pipe_devices, simulate_backends, start_failure,
    validate_artifact_quota, ArtifactEntry, ArtifactQuota, ChildPoll, CommandOutput,
    CommandSession, CommandSpec, DrainedCommandStream, EntryKind, StreamEnd, Supervision,
    SupervisionStep, ARTIFACT_PER_IMAGE_OVERHEAD,
};
use std::time::Duration;

#[test]
fn document_batch_deadline_scales_and_remains_bounded() {
    assert_eq!(Duration::from_secs(document_batch_timeout(1)), Duration::from_secs(105));
    assert!(document_batch_timeout(100) > document_batch_timeout(2));
    assert_eq!(
        Duration::from_secs(document_batch_timeout(u32::MAX)),
        Duration::from_secs(43_200)
    );
}

#[test]
fn suspended_windows_command_line_keeps_spaces_quotes_and_trailing_slashes_intact() {
    let command_line = windows_command_line(&CommandSpec {
        program: r"C:\Program Files\scanner.exe".into(),
        args: vec![
            "plain".into(),
            "with space".into(),
            "embedded\"quote".into(),
            r"C:\output folder\\".into(),
        ],
    });

    assert_eq!(
        command_line,
        r#""C:\Program Files\scanner.exe" plain "with space" "embedded\"quote" "C:\output folder\\""#
    );
}

#[test]
fn artifact_quota_is_checked_from_request_pages_and_image_limits() {
    let request = ScanRequest {
        width: 2,
        height: 3,
        pixel_format: PixelFormat::Rgb8,
        ..Default::default()
    };
    let quota = artifact_quota_for_request(&request, 4).unwrap();

    assert_eq!(quota.max_files, 4);
    assert_eq!(quota.max_bytes, (18 + ARTIFACT_PER_IMAGE_OVERHEAD) * 4);
    assert!(artifact_quota_for_request(
        &ScanRequest {
            width: MAX_IMAGE_DIMENSION + 1,
            ..request
        },
        1,
    )
    .is_err());
}

#[test]
fn quoting_follows_the_windows_rules() {
    assert_eq!(quote_windows_command_line_argument(""), "\"\"");
    assert_eq!(quote_windows_command_line_argument("a\tb"), "\"a\tb\"");
    assert_eq!(quote_windows_command_line_argument(r"C:\plain\path"), r"C:\plain\path");
    assert_eq!(quote_windows_command_line_argument("a\\\"b"), "\"a\\\\\\\"b\"");
    assert_eq!(quote_windows_command_line_argument(r"a b\"), r#""a b\\""#);
}

fn found(path: &str, kind: EntryKind, len: u64) -> ArtifactEntry {
    ArtifactEntry::Found { path: path.into(), kind, len }
}

#[test]
fn nested_directories_and_special_entries_break_the_quota() {
    let quota = ArtifactQuota { max_files: 1, max_bytes: 1024 };
    let nested = Ok(vec![found("/tmp/x/unexpected", EntryKind::Directory, 0)]);
    assert!(matches!(
        validate_artifact_quota("/tmp/x", &nested, quota),
        Err(ScanError::Unsupported(message)) if message.contains("nested directory")
    ));
    let quota = ArtifactQuota { max_files: 1, max_bytes: 1024 };
    let special = Ok(vec![found("/tmp/x/link", EntryKind::Special, 4096)]);
    assert!(matches!(
        validate_artifact_quota("/tmp/x", &special, quota),
        Err(ScanError::Unsupported(message)) if message.contains("non-regular entry")
    ));
}

#[test]
fn quotas_bound_files_and_bytes() {
    let two = Ok(vec![
        found("/tmp/x/a", EntryKind::File, 600),
        found("/tmp/x/b", EntryKind::File, 424),
    ]);
    assert!(validate_artifact_quota("/tmp/x", &two, ArtifactQuota { max_files: 2, max_bytes: 1024 })
        .is_ok());
    assert!(validate_artifact_quota("/tmp/x", &two, ArtifactQuota { max_files: 1, max_bytes: 1024 })
        .is_err());
    assert!(validate_artifact_quota("/tmp/x", &two, ArtifactQuota { max_files: 2, max_bytes: 1023 })
        .is_err());
    let unlisted: Result<Vec<ArtifactEntry>, String> = Err("denied".into());
    assert!(validate_artifact_quota(
        "/tmp/x",
        &unlisted,
        ArtifactQuota { max_files: 1, max_bytes: 1 }
    )
    .is_err());
}

#[test]
fn streams_are_captured_up_to_a_limit() {
    let mut stream = DrainedCommandStream::new();
    stream.keep(b"abc", 5);
    assert_eq!(stream.bytes, b"abc");
    assert!(!stream.overflowed);
    stream.keep(b"defg", 5);
    assert_eq!(stream.bytes, b"abcde");
    assert!(stream.overflowed);
    let mut whole = DrainedCommandStream::new();
    whole.keep(b"abcdefg", 5);
    assert_eq!(whole.bytes, stream.bytes);
    assert_eq!(whole.overflowed, stream.overflowed);
}

#[test]
fn streams_that_did_not_end_well_are_errors() {
    assert!(join_command_stream(StreamEnd::Open).is_err());
    assert!(join_command_stream(StreamEnd::Disconnected).is_err());
    assert!(join_command_stream(StreamEnd::Panicked).is_err());
    assert!(join_command_stream(StreamEnd::Failed("broken pipe".into())).is_err());
    let mut stream = DrainedCommandStream::new();
    stream.keep(b"text", 100);
    assert_eq!(join_command_stream(StreamEnd::Drained(stream)).unwrap().bytes, b"text");
}

fn supervision() -> Supervision {
    Supervision {
        command_name: "fixture command".into(),
        cancellation_message: "fixture cancelled".into(),
        capture_limit: 100,
        artifact_watch: None,
    }
}

fn drained(bytes: &[u8]) -> StreamEnd {
    let mut stream = DrainedCommandStream::new();
    stream.keep(bytes, 1000);
    StreamEnd::Drained(stream)
}

#[test]
fn supervision_watches_cancellation_and_the_deadline() {
    let none: Result<Vec<ArtifactEntry>, String> = Ok(Vec::new());
    let s = supervision();
    assert!(matches!(
        s.supervise_command_child(true, &none, ChildPoll::Running, false),
        Err(ScanError::Cancelled(message)) if message == "fixture cancelled"
    ));
    let late = s.supervise_command_child(false, &none, ChildPoll::Running, true).unwrap_err();
    assert!(late.message().contains("timed out"));
    assert!(s
        .supervise_command_child(false, &none, ChildPoll::Failed("forced poll failure".into()), false)
        .unwrap_err()
        .message()
        .contains("forced poll failure"));
    assert!(matches!(
        s.supervise_command_child(false, &none, ChildPoll::Running, false),
        Ok(SupervisionStep::Pause)
    ));
    assert!(matches!(
        s.supervise_command_child(false, &none, ChildPoll::Exited, false),
        Ok(SupervisionStep::Collect)
    ));
}

#[test]
fn collected_output_holds_both_streams() {
    let none: Result<Vec<ArtifactEntry>, String> = Ok(Vec::new());
    let s = supervision();
    let output = s.collect_command_output(Ok(true), &none, drained(b"out"), drained(b"err")).unwrap();
    assert!(output.success);
    assert_eq!(output.stdout, b"out");
    assert_eq!(output.stderr, b"err");
    assert!(s
        .collect_command_output(Err("wait failed".into()), &none, drained(b""), drained(b""))
        .is_err());
    let mut over = DrainedCommandStream::new();
    over.keep(b"0123456789", 4);
    assert!(s
        .collect_command_output(Ok(true), &none, StreamEnd::Drained(over), drained(b""))
        .is_err());
}

#[test]
fn probes_and_failures_are_told_apart() {
    assert!(availability_probe_succeeds(&Ok(CommandOutput {
        success: true,
        stdout: Vec::new(),
        stderr: Vec::new(),
    })));
    assert!(!availability_probe_succeeds(&Ok(CommandOutput {
        success: false,
        stdout: Vec::new(),
        stderr: Vec::new(),
    })));
    assert!(!availability_probe_succeeds(&Err(ScanError::Other("no".into()))));
    assert!(start_failure("scanimage", "not found").message().contains("scanimage"));
}

#[test]
fn simulated_backends_are_asked_for() {
    assert!(!simulate_backends(None));
    assert!(simulate_backends(Some(" 1 ")));
    assert!(simulate_backends(Some("true")));
    assert!(simulate_backends(Some("yes")));
    assert!(!simulate_backends(Some("0")));
}

#[test]
fn piped_device_lists_are_read_line_by_line() {
    let devices = parse_pipe_devices("one | First\n\n|nameless\ntwo\n", "sane", "SANE", "sane");
    assert_eq!(devices.len(), 2);
    assert_eq!(devices[0].id, "sane:one");
    assert_eq!(devices[0].name, "SANE: First");
    assert_eq!(devices[1].id, "sane:two");
    assert_eq!(devices[1].name, "SANE: two");
    assert_eq!(devices[1].backend, "sane");
}

#[test]
fn a_session_decodes_what_its_command_wrote() {
    let mut session = CommandSession::default();
    let good = CommandOutput { success: true, stdout: Vec::new(), stderr: Vec::new() };
    let request = ScanRequest { width: 1, height: 1, ..Default::default() };
    let decode = || ImageBuffer::new(1, 1, PixelFormat::Rgb8, vec![1, 2, 3]);
    let image = session
        .decode_materialized_output(false, &good, true, decode, &request, "fixture")
        .unwrap();
    assert_eq!(image.data, vec![1, 2, 3]);
    let bad = CommandOutput { success: false, stdout: Vec::new(), stderr: b"jammed".to_vec() };
    let error = session
        .decode_materialized_output(false, &bad, true, decode, &request, "fixture")
        .unwrap_err();
    assert!(error.message().contains("jammed"));
    assert!(session.decode_materialized_output(false, &good, false, decode, &request, "fixture").is_err());
    session.cancel();
    assert!(session.is_cancelled(false));
    assert!(matches!(
        session.decode_materialized_output(false, &good, true, decode, &request, "fixture"),
        Err(ScanError::Cancelled(_))
    ));
    session.close();
    assert!(session.is_closed());
}
