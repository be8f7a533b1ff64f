//! The desktop surface.

use open_scanline::acquisition::{ScanMode, ScanRequest};
use open_scanline::error::ScanError;
use open_scanline::export::FinalImage;
use open_scanline::gui::jobs::{
    destination_needs_working_image, worker_panic, CloseStep, JobEvent, JobKind,
};
use open_scanline::gui::state::{crop_text, GuiState, Status};
use open_scanline::gui::{
    normalize_image_ext, open_image_file, parse_crop_string, save_image_to,
};
use open_scanline::image::{ImageBuffer, PixelFormat, Rect};
use open_scanline::paths::Extension;
use open_scanline::processing::{PipelinePrefs, Real};
use open_scanline::settings::{AppConfig, CaptureConfig, OutputConfig, ProcessingConfig};

fn amount(value: f64) -> Real {
    Real { bits: value.to_bits() }
}

fn config() -> AppConfig {
    AppConfig {
        capture: CaptureConfig {
            last_device_id: "mock:flatbed".into(),
            default_dpi: 300,
            default_width: 640,
            default_height: 480,
            scan_mode: ScanMode::Reflective,
            duplex: false,
            batch_pages: 3,
        },
        output: OutputConfig {
            output_dir: "/tmp/out".into(),
            output_name: "scan".into(),
            output_format: "png".into(),
            multipage: false,
            multipage_format: "pdf".into(),
            save_raw: false,
            contact_sheet: false,
            ocr_engine: "offline".into(),
            ocr_language: "eng".into(),
            language: "en".into(),
        },
        processing: ProcessingConfig {
            rotate: 0,
            flip_h: false,
            flip_v: false,
            crop: None,
            brightness: 0,
            contrast: 0,
            saturation: amount(0.0),
            hue: amount(0.0),
            curves: None,
            desaturate: false,
            levels_black: 0,
            levels_white: 255,
            levels_gamma: amount(1.0),
            invert_colors: false,
            auto_deskew: false,
            deskew_angle: amount(0.0),
            auto_orient: false,
            auto_crop: false,
            white_balance: false,
            auto_levels: false,
            sharpen_amount: amount(0.0),
            infrared_clean: None,
            descreen: false,
            descreen_dpi: 150,
            restore_colors: false,
            restore_fading: false,
            grain_reduction: None,
            flatten: false,
            hole_punch: false,
            colorize_mode: None,
            film_type: None,
        },
    }
}

fn surface() -> GuiState {
    GuiState::new(
        config(),
        "/tmp/config.json".into(),
        None,
        &ScanRequest {
            device_id: "mock:flatbed".into(),
            width: 640,
            height: 480,
            ..ScanRequest::default()
        },
        &PipelinePrefs::default(),
        String::new(),
        vec!["mock:flatbed".into()],
        "en".into(),
    )
}

fn name(text: &str) -> Result<String, ScanError> {
    Ok(text.into())
}

#[test]
fn typed_gui_state_builds_pipeline_preferences() {
    let mut state = surface();
    state.processing.crop_text = "0,0,50,40".into();
    state.processing.rotate = 90;
    state.processing.auto_deskew = true;
    state.processing.white_balance = true;
    state.processing.saturation = amount(35.0);
    state.processing.hue = amount(-45.0);
    state.processing.curves_text = "0:0,128:160,255:255".into();
    state.processing.infrared_clean = "medium".into();
    state.processing.sharpen_amount = amount(0.5);
    state.processing.descreen = true;
    let prefs = state.pipeline_prefs();
    assert!(prefs.auto_deskew);
    assert!(prefs.white_balance);
    assert!((f64::from_bits(prefs.sharpen_amount.bits) - 0.5).abs() < 1e-9);
    assert_eq!(f64::from_bits(prefs.saturation.bits), 35.0);
    assert_eq!(f64::from_bits(prefs.hue.bits), -45.0);
    assert_eq!(prefs.curves, Some(vec![[0, 0], [128, 160], [255, 255]]));
    assert_eq!(prefs.infrared_clean.as_deref(), Some("medium"));
    assert!(prefs.descreen);
}

#[test]
fn parse_crop_and_ext() {
    assert_eq!(parse_crop_string("").unwrap(), None);
    assert_eq!(parse_crop_string("1,2,3,4").unwrap(), Some([1, 2, 3, 4]));
    assert_eq!(normalize_image_ext("JPEG", "png"), "jpg");
}

#[test]
fn multipage_save_destination_uses_selected_container_format() {
    let mut state = surface();
    state.output.output_dir = "/tmp/open-scanline-gui-multipage-destination".into();
    state.output.output_name = "document".into();
    state.output.multipage = true;

    state.output.multipage_format = "pdf".into();
    assert_eq!(
        state.multipage_save_destination(name("document")).unwrap(),
        "document_multipage.pdf"
    );

    state.output.multipage_format = "tiff".into();
    assert_eq!(
        state.multipage_save_destination(name("document")).unwrap(),
        "document_multipage.tif"
    );

    state.output.multipage_format = "png".into();
    assert!(state.multipage_save_destination(name("document")).is_err());
}

#[test]
fn invalid_job_args_do_not_activate_or_replace_cancellation_state() {
    let mut state = surface();
    state.output.output_name = "../outside".into();
    let refused = || Err(ScanError::Invalid("unsafe output name".into()));

    assert!(state.start_scan(false, false, Ok(()), refused()).is_none());
    assert!(!state.scanning);
    assert!(!state.cancel_requested);

    assert!(state.start_batch(false, Ok(()), refused(), "/tmp/out/batch".into()).is_none());
    assert!(!state.scanning);
    assert!(!state.cancel_requested);
}

#[test]
fn worker_panic_becomes_a_visible_failure() {
    let mut state = surface();
    state.scanning = true;
    let event = JobEvent::Failed(worker_panic(Some("test worker panic")));
    state.finish_job(None, Ok(()), Some(event));
    assert!(matches!(
        &state.status,
        Status::Error(text) if text.contains("background scan worker panicked")
    ));
    assert!(!state.scanning);
    assert!(worker_panic(None).ends_with("non-string panic payload"));
}

#[test]
fn gui_export_password_is_runtime_only_and_consumed_by_snapshot() {
    let mut state = surface();
    state.pdf_password = "SECRET-REDACTED".into();
    state.output.searchable_pdf = true;
    let export = state.take_export_options();
    assert_eq!(export.pdf_password.as_deref(), Some("SECRET-REDACTED"));
    assert!(export.searchable_pdf);
    assert!(state.pdf_password.is_empty());
    state.restore_export_password(export.pdf_password);
    assert_eq!(state.pdf_password, "SECRET-REDACTED");
    state.restore_export_password(Some("older".into()));
    assert_eq!(state.pdf_password, "SECRET-REDACTED");
}

#[test]
fn a_scan_takes_the_password_and_a_failure_gives_it_back() {
    let mut state = surface();
    state.pdf_password = "secret".into();
    state.output.output_fmt = "pdf".into();
    let start = state.start_scan(false, false, Ok(()), name("page")).unwrap();
    assert_eq!(start.args.out, "page_scan_000.pdf");
    assert!(start.through_working_image);
    assert_eq!(start.pending_pdf_password.as_deref(), Some("secret"));
    assert!(state.pdf_password.is_empty());
    state.job_started(JobKind::Scan);
    assert!(state.scanning);
    state.finish_job(start.pending_pdf_password, Ok(()), Some(JobEvent::Cancelled));
    assert_eq!(state.pdf_password, "secret");
    assert!(matches!(state.status, Status::Cancelled));
    assert_eq!(state.frame_index, 0);
    assert!(!state.scanning);
}

#[test]
fn a_preview_leaves_the_password_alone() {
    let mut state = surface();
    state.pdf_password = "secret".into();
    state.output.searchable_pdf = true;
    let start = state.start_scan(false, true, Ok(()), name("page")).unwrap();
    assert_eq!(start.args.out, "page_preview.png");
    assert_eq!((start.args.width, start.args.height), (320, 240));
    assert!(start.export.pdf_password.is_none());
    assert!(!start.export.searchable_pdf);
    assert!(start.pending_pdf_password.is_none());
    assert_eq!(state.pdf_password, "secret");
    assert!(state.start_scan(true, false, Ok(()), name("page")).is_none());
    assert_eq!(state.pdf_password, "secret");
}

#[test]
fn finished_scans_become_the_current_image() {
    let mut state = surface();
    state.job_started(JobKind::Scan);
    state.finish_job(
        None,
        Ok(()),
        Some(JobEvent::ScanFinished {
            path: "/tmp/out/page.pdf".into(),
            working_image: Some("/tmp/work.png".into()),
            advance_frame: true,
        }),
    );
    assert_eq!(state.last_image.as_deref(), Some("/tmp/work.png"));
    assert!(matches!(&state.status, Status::Done(path) if path == "/tmp/out/page.pdf"));
    assert_eq!(state.frame_index, 1);
    assert!(state.references_working_source("/tmp/work.png"));
    assert!(!state.references_working_source("/tmp/other.png"));
}

#[test]
fn other_endings_are_shown() {
    let mut state = surface();
    state.finish_job(None, Ok(()), Some(JobEvent::BatchFinished(vec!["a.png".into(), "b.png".into()])));
    assert_eq!(state.last_image.as_deref(), Some("b.png"));
    assert!(matches!(state.status, Status::BatchDone(2)));
    state.finish_job(
        None,
        Ok(()),
        Some(JobEvent::OcrFinished { engine: "offline".into(), text: "words".into() }),
    );
    assert!(matches!(&state.status, Status::Recognized { text, .. } if text == "words"));
    state.finish_job(None, Err("gone".into()), None);
    assert!(matches!(&state.status, Status::Error(text) if text == "gone"));
    state.finish_job(None, Ok(()), None);
    assert!(matches!(
        &state.status,
        Status::Error(text) if text == "background scan worker stopped without a result"
    ));
    state.show_progress(&vec!["one".into(), "two".into()]);
    assert!(matches!(&state.status, Status::Message(text) if text == "two"));
    assert!(matches!(JobEvent::from_error(ScanError::Cancelled("x".into())), JobEvent::Cancelled));
    assert!(matches!(
        JobEvent::from_error(ScanError::Io("x".into())),
        JobEvent::Failed(text) if text == "io: x"
    ));
}

#[test]
fn pages_of_one_destination_gather_in_a_session() {
    let mut state = surface();
    state.output.multipage = true;
    state.pdf_password = "secret".into();
    state.last_image = Some("one.png".into());
    let first = state.prepare_save_plus(name("/tmp/out/document.pdf")).unwrap();
    assert_eq!(first.export.pdf_password.as_deref(), Some("secret"));
    assert!(state.pdf_password.is_empty());
    state.finish_job(
        first.pending_pdf_password.clone(),
        Ok(()),
        Some(JobEvent::SaveFinished {
            path: first.dest,
            retained_source: None,
            candidate: first.candidate,
            advance_frame: true,
        }),
    );
    assert!(matches!(&state.status, Status::DoneFrame { frame: 1, .. }));
    state.last_image = Some("two.png".into());
    let second = state.prepare_save_plus(name("/tmp/out/document.pdf")).unwrap();
    let candidate = second.candidate.unwrap();
    assert_eq!(candidate.sources, vec!["one.png".to_string(), "two.png".to_string()]);
    assert_eq!(candidate.export.pdf_password.as_deref(), Some("secret"));
    let third = state.prepare_save_plus(name("/tmp/out/other.pdf")).unwrap();
    assert_eq!(third.candidate.unwrap().sources, vec!["two.png".to_string()]);
    assert!(state.references_working_source("one.png"));
}

#[test]
fn failed_multipage_saves_leave_the_session() {
    let mut state = surface();
    state.output.multipage = true;
    state.pdf_password = "secret".into();
    state.last_image = Some("one.png".into());
    let first = state.prepare_save_plus(name("/tmp/out/document.pdf")).unwrap();
    state.finish_job(first.pending_pdf_password, Ok(()), Some(JobEvent::Failed("disk full".into())));
    assert!(state.multipage_session.is_none());
    assert_eq!(state.frame_index, 0);
    assert_eq!(state.pdf_password, "secret");
}

#[test]
fn single_saves_keep_a_source_that_can_be_read_back() {
    let mut state = surface();
    state.last_image = Some("one.png".into());
    let save = state.prepare_save(Ok(Some("/tmp/out/page.pdf".into()))).unwrap();
    assert!(save.candidate.is_none());
    assert_eq!(
        save.retained_source(&Extension::Known("PDF".into())).as_deref(),
        Some("one.png")
    );
    assert!(save.retained_source(&Extension::Known("png".into())).is_none());
    assert!(destination_needs_working_image(&Extension::Known("jxl".into())));
    assert!(!destination_needs_working_image(&Extension::Missing));
    assert!(state.prepare_save(Ok(None)).is_none());
    assert!(matches!(state.status, Status::Cancelled));
    state.last_image = None;
    assert!(state.prepare_save(Ok(Some("x.png".into()))).is_none());
    assert!(matches!(state.status, Status::OpenError));
}

#[test]
fn reprocessing_needs_an_image_and_valid_colors() {
    let mut state = surface();
    assert!(state.prepare_reprocess(Ok(()), name("out.png")).is_none());
    state.last_image = Some("one.png".into());
    let colors = state
        .validate_color_controls(Ok(()), Err(ScanError::Invalid("hue must be finite".into())));
    assert!(state.prepare_reprocess(colors, name("out.png")).is_none());
    assert!(matches!(
        &state.status,
        Status::Error(text) if text == "invalid color controls: invalid: hue must be finite"
    ));
    let action = state.prepare_reprocess(Ok(()), name("out.png")).unwrap();
    assert_eq!(action.src, "one.png");
    assert_eq!(action.dst, "out.png");
    assert_eq!(action.dpi, state.capture.dpi);
    assert!(state.validate_color_controls(Ok(()), Ok(())).is_ok());
    state.processing.curves_text = "128:128,0:0".into();
    let colors = state.validate_color_controls(Ok(()), Ok(()));
    assert!(state.prepare_reprocess(colors, name("out.png")).is_none());
    assert!(matches!(
        &state.status,
        Status::Error(text) if text.starts_with("invalid color controls: invalid: curves")
    ));
}

#[test]
fn configurations_are_saved_from_valid_controls() {
    let mut state = surface();
    state.processing.crop_text = "1,2,30,40".into();
    state.processing.levels_black = 12;
    state.processing.curves_text = "0:0,128:160,255:255".into();
    state.pdf_password = "secret".into();
    let saved = state.do_save_config(Ok(())).unwrap();
    assert_eq!(saved.processing.crop, Some([1, 2, 30, 40]));
    assert_eq!(saved.processing.levels_black, 12);
    assert_eq!(saved.processing.curves, Some(vec![[0, 0], [128, 160], [255, 255]]));
    assert_eq!(saved.capture.last_device_id, "mock:flatbed");
    state.finish_config_save(saved, Ok(()));
    assert!(matches!(&state.status, Status::ConfigSaved(path) if path == "/tmp/config.json"));
    assert_eq!(state.config.processing.levels_black, 12);
    state.processing.curves_text = "0:0,255:300".into();
    assert!(state.do_save_config(Ok(())).unwrap_err().starts_with("invalid curves: "));
    state.processing.crop_text = "1,2,0,40".into();
    assert_eq!(
        state.do_save_config(Ok(())).unwrap_err(),
        "crop width and height must be positive"
    );
    state.processing.crop_text = "1,2".into();
    assert!(state.do_save_config(Ok(())).unwrap_err().starts_with("invalid crop: "));
}

#[test]
fn a_broken_configuration_is_replaced_only_after_recovery() {
    let mut state = surface();
    state.config_recovery_required = true;
    state.config_load_error = Some("line 1".into());
    let refusal = state.do_save_config(Ok(())).unwrap_err();
    assert_eq!(
        refusal,
        "configuration was not saved because loading /tmp/config.json failed: line 1. \
         Reset configuration before replacing it"
    );
    state.do_reset_config_recovery();
    assert!(!state.config_recovery_required);
    assert!(state.do_save_config(Ok(())).is_ok());
    state.do_reset_config_recovery();
    assert!(matches!(
        &state.status,
        Status::Message(text) if text == "configuration recovery is not needed"
    ));
}

#[test]
fn batches_gather_pages_in_a_document() {
    let mut state = surface();
    state.output.output_fmt = "pdf".into();
    let start =
        state.start_batch(false, Ok(()), name("doc"), "/tmp/out/batch".into()).unwrap();
    assert_eq!(start.args.pages, 3);
    assert_eq!(start.args.format, "png");
    assert_eq!(start.args.multipage_out.unwrap().path, "doc_multipage.pdf");
    state.output.output_fmt = "jxl".into();
    assert!(state
        .start_batch(false, Ok(()), name("doc"), "/tmp/out/batch".into())
        .is_none());
    assert!(matches!(&state.status, Status::Error(text) if text.contains("JPEG XL")));
}

#[test]
fn closing_waits_for_the_job() {
    let mut state = surface();
    assert_eq!(state.request_close(false), CloseStep::Close);
    assert!(!state.cancel_requested);
    state.job_started(JobKind::Scan);
    assert_eq!(state.request_close(true), CloseStep::Wait);
    assert!(state.cancel_requested);
    assert!(matches!(state.status, Status::Cancelled));
}

#[test]
fn recognition_needs_an_image() {
    let mut state = surface();
    assert!(state.prepare_ocr().is_none());
    state.last_image = Some("one.png".into());
    let action = state.prepare_ocr().unwrap();
    assert_eq!(action.src, "one.png");
    assert_eq!(action.language, "eng");
    assert!(action.offline);
}

#[test]
fn opened_images_have_to_be_there() {
    let image = || ImageBuffer::new(1, 1, PixelFormat::Gray8, vec![1]);
    assert_eq!(open_image_file("a.png", true, image()).unwrap(), "a.png");
    assert!(open_image_file("a.png", false, image()).is_err());
    assert!(open_image_file("a.png", true, Err(ScanError::Image("broken".into()))).is_err());
    let mut state = surface();
    state.do_open_file(Some(Ok("a.png".into())));
    assert_eq!(state.last_image.as_deref(), Some("a.png"));
    assert!(matches!(
        save_image_to(&Extension::Known("pdf".into()), image(), 300),
        Ok(FinalImage::Document(_))
    ));
    assert!(matches!(
        save_image_to(&Extension::Known("png".into()), image(), 300),
        Ok(FinalImage::Encode)
    ));
}

#[test]
fn device_lists_keep_a_selection_that_is_there() {
    let mut state = surface();
    state.refresh_devices(vec!["mock:flatbed".into(), "mock:adf".into()]);
    assert_eq!(state.capture.device, "mock:flatbed");
    state.refresh_devices(vec!["mock:adf".into()]);
    assert_eq!(state.capture.devices, vec!["mock:adf".to_string()]);
    let request = state.exposure_request();
    assert_eq!((request.width, request.height), (160, 120));
}

#[test]
fn device_operations_report_how_they_ended() {
    let mut state = surface();
    let shown = |state: &GuiState| match &state.status {
        Status::Message(text) => text.clone(),
        other => panic!("{other:?}"),
    };
    state.set_device_result("calibrate", Some("unsupported"), Some(false));
    assert_eq!(shown(&state), "calibrate mock:flatbed: unsupported");
    state.set_device_result("focus", None, Some(true));
    assert_eq!(shown(&state), "focus mock:flatbed: ok");
    state.set_device_result("focus", None, Some(false));
    assert_eq!(shown(&state), "focus mock:flatbed: error");
    state.set_device_result("focus", None, None);
    assert_eq!(shown(&state), "focus mock:flatbed: done");
    state.do_exposure("{\"ev\":1}");
    assert_eq!(shown(&state), "exposure mock:flatbed: {\"ev\":1}");
    state.do_profile_scanner(Ok(("/tmp/out/profile.json".into(), true)));
    assert_eq!(shown(&state), "profile scanner IT8 → /tmp/out/profile.json ok=true");
    assert_eq!(state.output.scanner_profile_path, "/tmp/out/profile.json");
    state.do_profile_scanner(Err(ScanError::Image("no target".into())));
    assert!(matches!(&state.status, Status::Error(text) if text == "image: no target"));
}

#[test]
fn crop_texts_are_read_back() {
    for crop in [[1, 2, 3, 4], [-7, 0, 65535, 10], [i32::MIN, i32::MAX, -1, 100]] {
        let [a, b, c, d] = crop;
        assert_eq!(parse_crop_string(&format!("{a},{b},{c},{d}")).unwrap(), Some(crop));
        let spaced = format!("  {a} ,\t{b}, {c}\u{a0},{d}\n");
        assert_eq!(parse_crop_string(&spaced).unwrap(), Some(crop));
    }
    assert!(parse_crop_string("1,2,3").is_err());
    assert!(parse_crop_string("1,2,3,2147483648").is_err());
    let rect = Rect { x: -3, y: 4, width: 5, height: 6 };
    assert_eq!(crop_text(Some(rect)), "-3,4,5,6");
    assert_eq!(crop_text(None), "");
}

#[test]
fn switches_reach_the_pipeline_preferences() {
    let mut state = surface();
    assert!(!state.pipeline_prefs().auto_levels);
    state.processing.auto_levels = true;
    assert!(state.pipeline_prefs().auto_levels);
    state.processing.infrared_clean = "heavy".into();
    state.processing.descreen = true;
    let prefs = state.pipeline_prefs();
    assert_eq!(prefs.infrared_clean.as_deref(), Some("heavy"));
    assert!(prefs.descreen);
}
