//! The command line: options, settings, batches and reports.

use open_scanline::acquisition::{BackendInfo, ScanMode, ScanPagesEnd};
use open_scanline::batch::{
    added_extension, batch_file_extension, batch_request, page_file_name, pdf_destinations,
    prepare_batch_scan, report_batch_completion, requested_outputs, validate_batch_args,
    validate_batch_destinations, write_requested_outputs, BatchOutput, BatchRun, BatchScanArgs,
    Destination, OutputKind, OutputStep,
};
use open_scanline::cli::{
    build_export_options, ocr_engine_from_config, scan_args, Acquisition, ExportOptionOverrides,
    ScanSource,
};
use open_scanline::commands::{
    backend_line, dispatch, operation_exit_code, parse_exit_code, report_sections,
    user_manual_text, InfoModule, RunMode, Startup,
};
use open_scanline::crop::{parse_crop_components, rect_of};
use open_scanline::curves::parse_curve_points;
use open_scanline::error::ScanError;
use open_scanline::export::{ExportOptions, OcrEngine};
use open_scanline::features::{feature_matrix, FeatureProbes};
use open_scanline::host::resolve_host_command;
use open_scanline::image::{Rect, Rotate};
use open_scanline::manufacturers::{
    format_manufacturers_text, list_manufacturers, resolve_manufacturer,
};
use open_scanline::overrides::{
    apply_explicit_bool, crop_option_error, pipeline_with_overrides, FilterOverrides,
    GeometryOverrides, PipelineOverrides,
};
use open_scanline::paths::Extension;
use open_scanline::processing::{PipelinePrefs, Real};
use open_scanline::secrets::{
    clear_pdf_password, read_pdf_password, resolve_pdf_password, PasswordSource,
};
use open_scanline::settings::{
    apply_config_updates, AppConfig, CaptureConfig, ConfigRequest, OutputConfig, ProcessingConfig,
};

fn amount(value: f64) -> Real {
    Real { bits: value.to_bits() }
}

fn config() -> AppConfig {
    AppConfig {
        capture: CaptureConfig {
            last_device_id: "mock:flatbed".into(),
            default_dpi: 300,
            default_width: 640,
            default_height: 480,
            scan_mode: ScanMode::Reflective,
            duplex: false,
            batch_pages: 3,
        },
        output: OutputConfig {
            output_dir: "/tmp/out".into(),
            output_name: "scan".into(),
            output_format: "png".into(),
            multipage: false,
            multipage_format: "pdf".into(),
            save_raw: false,
            contact_sheet: false,
            ocr_engine: "offline".into(),
            ocr_language: "eng".into(),
            language: "en".into(),
        },
        processing: ProcessingConfig {
            rotate: 0,
            flip_h: false,
            flip_v: false,
            crop: None,
            brightness: 0,
            contrast: 0,
            saturation: amount(0.0),
            hue: amount(0.0),
            curves: None,
            desaturate: false,
            levels_black: 0,
            levels_white: 255,
            levels_gamma: amount(1.0),
            invert_colors: false,
            auto_deskew: false,
            deskew_angle: amount(0.0),
            auto_orient: false,
            auto_crop: false,
            white_balance: false,
            auto_levels: false,
            sharpen_amount: amount(0.0),
            infrared_clean: None,
            descreen: false,
            descreen_dpi: 150,
            restore_colors: false,
            restore_fading: false,
            grain_reduction: None,
            flatten: false,
            hole_punch: false,
            colorize_mode: None,
            film_type: None,
        },
    }
}

#[test]
fn explicit_false_and_off_values_override_configured_pipeline_preferences() {
    let configured = PipelinePrefs {
        descreen: true,
        flatten: true,
        infrared_clean: Some("medium".into()),
        grain_reduction: Some("light".into()),
        film_type: Some("negative".into()),
        colorize_mode: Some("auto".into()),
        ..PipelinePrefs::default()
    };
    let overrides = PipelineOverrides {
        filters: FilterOverrides {
            infrared_clean: Some("off".into()),
            descreen: Some(false),
            film_type: Some("none".into()),
            grain_reduction: Some("off".into()),
            flatten: Some(false),
            colorize_mode: Some("off".into()),
            ..FilterOverrides::default()
        },
        ..PipelineOverrides::default()
    };

    let pipeline = pipeline_with_overrides(&configured, &overrides).unwrap();

    assert!(!pipeline.descreen);
    assert!(!pipeline.flatten);
    assert!(pipeline.infrared_clean.is_none());
    assert!(pipeline.grain_reduction.is_none());
    assert!(pipeline.film_type.is_none());
    assert!(pipeline.colorize_mode.is_none());
}

#[test]
fn manual_describes_current_product_scope() {
    let manual = user_manual_text("1.0.0");

    for stale_claim in ["prototype", "optional later", "Desktop UI shell"] {
        assert!(
            !manual.contains(stale_claim),
            "manual still contains stale claim: {stale_claim}"
        );
    }
    assert!(manual.contains("local Rust application"));
    assert!(manual.contains("Built-in offline OCR or optional Tesseract OCR"));
    assert!(manual.contains("to PNG, JPEG, TIFF, WebP, BMP, GIF, or PDF"));
    assert!(manual.contains("Desktop GUI (default gui feature and desktop session)"));
    assert!(manual.contains("--pdf-searchable"));
    assert!(manual.contains("--pdf-password-file PATH"));
    assert!(manual.contains("UNSAFE/DEPRECATED"));
    assert!(manual.contains("--allow-unlisted-escl"));
}

#[test]
fn omitted_options_inherit() {
    let configured = PipelinePrefs { brightness: 7, flip_h: true, ..PipelinePrefs::default() };
    let same = pipeline_with_overrides(&configured, &PipelineOverrides::default()).unwrap();
    assert_eq!(same.brightness, 7);
    assert!(same.flip_h);
    assert!(apply_explicit_bool(true, None));
    assert!(!apply_explicit_bool(true, Some(false)));
    let overrides = PipelineOverrides {
        geometry: GeometryOverrides { crop: Some("1,2,x,4".into()), ..GeometryOverrides::default() },
        ..PipelineOverrides::default()
    };
    let error = pipeline_with_overrides(&configured, &overrides).unwrap_err();
    assert!(!crop_option_error(error).is_empty());
    let overrides = PipelineOverrides {
        geometry: GeometryOverrides { crop: Some("1,2,3,4".into()), ..GeometryOverrides::default() },
        ..PipelineOverrides::default()
    };
    let cropped = pipeline_with_overrides(&configured, &overrides).unwrap().crop.unwrap();
    assert_eq!((cropped.x, cropped.y, cropped.width, cropped.height), (1, 2, 3, 4));
}

#[test]
fn crops_are_four_integers() {
    assert_eq!(parse_crop_components("1, -2, 3, 4").unwrap(), [1, -2, 3, 4]);
    assert!(parse_crop_components("1,2,3").is_err());
    assert!(parse_crop_components("1,2,3,99999999999").is_err());
    assert!(parse_crop_components("1,2,3,").is_err());
    assert!(rect_of([1, 2, 0, 4]).is_none());
    let rect: Rect = rect_of([1, 2, 3, 4]).unwrap();
    assert_eq!((rect.width, rect.height), (3, 4));
}

#[test]
fn passwords_on_the_command_line_are_opted_into() {
    assert!(resolve_pdf_password(Some("secret".into()), false, false).is_err());
    assert!(matches!(
        resolve_pdf_password(Some("secret".into()), false, true),
        Ok(PasswordSource::Argument(Some(text))) if text == "secret"
    ));
    assert!(matches!(resolve_pdf_password(None, true, false), Ok(PasswordSource::File)));
    assert!(matches!(
        resolve_pdf_password(None, false, false),
        Ok(PasswordSource::Argument(None))
    ));
    let mut password = Some("secret".to_string());
    clear_pdf_password(&mut password);
    assert!(password.map_or(true, |text| text.is_empty()));
}

#[test]
fn password_files_lose_one_line_ending() {
    assert_eq!(read_pdf_password(Ok(b"secret\r\n".to_vec())).unwrap(), "secret");
    assert_eq!(read_pdf_password(Ok(b"secret\n\n".to_vec())).unwrap(), "secret\n");
    assert_eq!(read_pdf_password(Ok("pässword".as_bytes().to_vec())).unwrap(), "pässword");
    assert!(read_pdf_password(Ok(vec![0xff, 0xfe])).is_err());
    assert!(read_pdf_password(Ok(b"\n".to_vec())).is_err());
    assert!(read_pdf_password(Err("denied".into())).is_err());
    assert!(read_pdf_password(Ok(vec![b'x'; 5000])).is_err());
}

#[test]
fn settings_change_only_where_asked() {
    let nothing = || ConfigRequest {
        init: false,
        show: false,
        set_output_dir: None,
        set_dpi: None,
        set_device: None,
    };
    assert!(!ConfigRequest { show: true, ..nothing() }.should_write());
    assert!(ConfigRequest { init: true, ..nothing() }.should_write());
    let mut own = config();
    apply_config_updates(&mut own, nothing());
    assert_eq!(own.capture.default_dpi, 300);
    apply_config_updates(
        &mut own,
        ConfigRequest { set_dpi: Some(600), set_device: Some("mock:adf".into()), ..nothing() },
    );
    assert_eq!(own.capture.default_dpi, 600);
    assert_eq!(own.capture.last_device_id, "mock:adf");
    assert_eq!(own.output.output_dir, "/tmp/out");
}

#[test]
fn export_options_merge_configuration_and_flags() {
    assert!(matches!(ocr_engine_from_config("tesseract"), Ok(OcrEngine::Tesseract)));
    assert!(ocr_engine_from_config("magic").is_err());
    let overrides = ExportOptionOverrides {
        pdf_searchable: true,
        ocr_language: Some("deu".into()),
        ocr_engine: None,
        scanner_profile: None,
    };
    let export = build_export_options(&config(), overrides, Ok(Some("pw".into())), Ok(())).unwrap();
    assert!(export.searchable_pdf);
    assert_eq!(export.ocr_language, "deu");
    assert_eq!(export.pdf_password.as_deref(), Some("pw"));
}

#[test]
fn scan_arguments_default_to_the_configuration() {
    let args = scan_args(
        Acquisition {
            device: None,
            out: "a.png".into(),
            width: None,
            height: Some(100),
            seed: 4,
            dpi: None,
            source: Some(ScanSource::Adf),
            duplex: None,
            invert: Some(true),
            raw_out: None,
        },
        &config(),
        PipelinePrefs::default(),
    );
    assert_eq!((args.width, args.height), (640, 100));
    assert_eq!(args.dpi, 300);
    assert_eq!(args.mode, ScanMode::Document);
    assert!(args.invert_colors);
}

#[test]
fn exit_codes_tell_cancellation_apart() {
    assert_eq!(operation_exit_code(0, false), 0);
    assert_eq!(operation_exit_code(1, false), 1);
    assert_eq!(operation_exit_code(1, true), 130);
    assert_eq!(parse_exit_code(true), 2);
    assert_eq!(parse_exit_code(false), 0);
    assert!(matches!(dispatch(RunMode::Plugin, false), Startup::Plugin));
    assert!(matches!(dispatch(RunMode::Normal, false), Startup::Gui));
    assert!(matches!(dispatch(RunMode::Normal, true), Startup::Command));
    assert!(report_sections(InfoModule::All).len() > 1);
    assert_eq!(report_sections(InfoModule::Ocr).len(), 1);
    let line = backend_line(&BackendInfo {
        id: "escl".into(),
        name: "eSCL".into(),
        available: true,
    });
    assert!(line.contains("escl"));
}

fn output(path: &str, extension: Extension) -> Option<BatchOutput> {
    Some(BatchOutput { path: path.into(), extension, in_out_dir: false })
}

fn batch() -> BatchScanArgs {
    BatchScanArgs {
        device: "mock:adf".into(),
        out_dir: "/tmp/batch".into(),
        pages: 2,
        width: 10,
        height: 10,
        dpi: 300,
        ..BatchScanArgs::default()
    }
}

#[test]
fn batches_are_checked_before_they_run() {
    assert!(validate_batch_args(&batch()).is_ok());
    assert!(validate_batch_args(&BatchScanArgs { pages: 0, ..batch() }).is_err());
    assert!(validate_batch_args(&BatchScanArgs { pages: 1001, ..batch() }).is_err());
    let odd = BatchScanArgs { pages: 3, duplex: true, mode: ScanMode::Document, ..batch() };
    assert!(validate_batch_args(&odd).is_err());
    let even = BatchScanArgs { pages: 4, duplex: true, mode: ScanMode::Document, ..batch() };
    assert!(validate_batch_args(&even).is_ok());
    assert!(matches!(
        prepare_batch_scan(&batch(), &ExportOptions::default(), true, Ok(()), Ok(())),
        Err(ScanError::Cancelled(_))
    ));
    assert_eq!(
        prepare_batch_scan(&batch(), &ExportOptions::default(), false, Ok(()), Ok(())).unwrap(),
        batch_file_extension("png").unwrap()
    );
    assert!(batch_file_extension("pdf").is_err());
}

#[test]
fn page_names_are_distinct_and_ordered() {
    assert_eq!(page_file_name(1, "png"), "page_001.png");
    assert_ne!(page_file_name(10, "png"), page_file_name(1, "png"));
    assert_ne!(page_file_name(12345, "png"), page_file_name(1234, "png"));
}

#[test]
fn batch_outputs_are_listed_and_planned() {
    let args = BatchScanArgs {
        multipage_pdf: output("doc", Extension::Missing),
        contact_sheet: output("sheet.bmp", Extension::Known("bmp".into())),
        ..batch()
    };
    assert_eq!(pdf_destinations(&args), 1);
    let outputs = requested_outputs(&args);
    assert_eq!(outputs.len(), 2);
    assert_eq!(added_extension(OutputKind::Multipage, &Extension::Missing), Some("tif"));
    assert_eq!(added_extension(OutputKind::ContactSheet, &Extension::Missing), Some("bmp"));
    assert_eq!(added_extension(OutputKind::Multipage, &Extension::Known("pdf".into())), None);
    let steps = write_requested_outputs(&args, &ExportOptions::default(), Vec::new()).unwrap();
    assert!(steps.iter().any(|step| matches!(step, OutputStep::Pdf { .. })));
    assert!(steps.iter().any(|step| matches!(step, OutputStep::ContactSheet { .. })));
    assert!(!OutputKind::Tiff.label().is_empty());
}

#[test]
fn batch_destinations_are_distinct() {
    let place = |same: bool| Destination {
        kind: OutputKind::Pdf,
        extension: Extension::Known("pdf".into()),
        shown: "/tmp/doc.pdf".into(),
        leaf: Ok(()),
        same_as_earlier: Vec::new(),
        same_as_page: vec![Ok(same)],
    };
    let extensions = vec!["png".to_string(), "tif".to_string(), "tiff".to_string()];
    assert!(validate_batch_destinations(&vec![Ok(())], &vec![place(false)], &extensions).is_ok());
    assert!(validate_batch_destinations(&vec![Ok(())], &vec![place(true)], &extensions).is_err());
    let mut second = place(false);
    second.same_as_earlier = vec![Ok(true)];
    let refused =
        validate_batch_destinations(&vec![Ok(())], &vec![place(false), second], &extensions);
    assert!(refused.unwrap_err().message().contains("destination aliases"));
    let broken = vec![Err(ScanError::Invalid("symlink".into()))];
    assert!(validate_batch_destinations(&broken, &vec![place(false)], &extensions).is_err());
}

#[test]
fn a_batch_run_gathers_pages_and_ends_whole() {
    let args = batch();
    let request = batch_request(&args, "mock:adf");
    assert_eq!(request.device_id, "mock:adf");
    assert_eq!((request.width, request.height), (10, 10));
    let mut run = BatchRun::new(&args);
    let progress = run.begin_page(false).unwrap();
    assert_eq!((progress.done, progress.total), (0, 2));
    assert!(matches!(run.begin_page(true), Err(ScanError::Cancelled(_))));
    run.keep_text(Some("one".into())).unwrap();
    assert_eq!(run.next_page_name("png"), "page_001.png");
    run.keep_path("/tmp/batch/page_001.png".into());
    assert_eq!(run.next_page_name("png"), "page_002.png");
    run.keep_text(None).unwrap();
    run.keep_path("/tmp/batch/page_002.png".into());
    let pages = run.finish(2, ScanPagesEnd::LimitReached, false).unwrap();
    assert_eq!(pages.paths.len(), 2);
    assert_eq!(pages.searchable_text, vec!["one".to_string()]);
    assert!(report_batch_completion(2).message.contains('2'));
    let empty = BatchRun::new(&args);
    assert!(empty.finish(0, ScanPagesEnd::FeederExhausted, false).is_err());
}

#[test]
fn makers_are_resolved_by_name_and_by_vendor() {
    let makers = list_manufacturers();
    assert!(!makers.is_empty());
    let first = &makers[0];
    let found = resolve_manufacturer(&first.canonical_name);
    assert!(found.manufacturer.is_some());
    assert!(makers.iter().any(|m| m.id == found.manufacturer.as_ref().unwrap().id));
    let nothing = resolve_manufacturer("no such maker at all");
    assert!(nothing.manufacturer.is_none());
    // Short tokens have to stand as a word, and letters beyond ASCII belong to words.
    assert_eq!(resolve_manufacturer("an hp unit").manufacturer.unwrap().id, "hp");
    assert!(resolve_manufacturer("éhpé").manufacturer.is_none());
    assert!(format_manufacturers_text(&makers).contains(&first.canonical_name));
}

#[test]
fn features_report_their_probes() {
    let none = FeatureProbes { wia: false, sane: false, cjxl: false, tesseract: false, gui: false };
    let matrix = feature_matrix(none);
    assert!(matrix.iter().any(|capability| capability.available));
    assert!(matrix.iter().any(|capability| !capability.available));
    let all = FeatureProbes { wia: true, sane: true, cjxl: true, tesseract: true, gui: true };
    assert!(
        feature_matrix(all).iter().filter(|capability| capability.available).count()
            > matrix.iter().filter(|capability| capability.available).count()
    );
}

#[test]
fn the_host_builds_a_command() {
    assert_eq!(
        resolve_host_command("plugin", Some("/tmp/a.png"), Some("/tmp/c.json")),
        vec!["--config", "/tmp/c.json", "plugin", "--out", "/tmp/a.png"]
    );
    assert_eq!(resolve_host_command("gui", Some("/tmp/a.png"), None), vec!["gui"]);
    assert_eq!(resolve_host_command("info", None, None), vec!["info"]);
}

#[test]
fn tone_curves_are_read_from_text() {
    assert_eq!(
        parse_curve_points("0:0,128:160,255:255").unwrap(),
        Some(vec![[0, 0], [128, 160], [255, 255]])
    );
    assert_eq!(parse_curve_points(" 0 : 10 , 255 : 3 ").unwrap(), Some(vec![[0, 10], [255, 3]]));
    assert_eq!(parse_curve_points("").unwrap(), None);
    assert_eq!(parse_curve_points("  ").unwrap(), None);
    for text in ["0:0,255:300", "128:128,0:0", "0:0", "0:0,0:9", "0,255:255", "a:0,255:255", "-1:0,9:9"]
    {
        assert!(matches!(parse_curve_points(text), Err(ScanError::Invalid(_))), "{text}");
    }
}

#[test]
fn configured_processing_reaches_the_pipeline() {
    let mut configured = config();
    configured.processing.rotate = 270;
    configured.processing.crop = Some([1, 2, 30, 40]);
    configured.processing.curves = Some(vec![[0, 0], [255, 200]]);
    configured.processing.invert_colors = true;
    configured.processing.brightness = -7;
    configured.processing.film_type = Some("negative".into());
    let prefs = configured.to_pipeline_prefs();
    assert_eq!(prefs.rotate, Rotate::R270);
    assert_eq!(prefs.crop, Some(Rect { x: 1, y: 2, width: 30, height: 40 }));
    assert_eq!(prefs.curves, Some(vec![[0, 0], [255, 200]]));
    assert!(prefs.invert);
    assert_eq!(prefs.brightness, -7);
    assert_eq!(prefs.film_type.as_deref(), Some("negative"));
    assert_eq!(prefs.levels_white, 255);
    configured.processing.crop = Some([0, 0, 0, 40]);
    assert_eq!(configured.to_pipeline_prefs().crop, None);
}

#[test]
fn every_maker_is_resolved_by_its_number_and_its_name() {
    for entry in list_manufacturers() {
        for vid in &entry.usb_vids {
            for query in [vid.clone(), vid.to_uppercase(), format!(" {vid}\n")] {
                let found = resolve_manufacturer(&query);
                assert_eq!(found.status, "ok");
                assert_eq!(found.matched_by.as_deref(), Some("vid"));
                assert_eq!(found.message, format!("matched USB VID {vid}"));
                assert_eq!(found.manufacturer.unwrap().id, entry.id);
            }
        }
        let name = &entry.canonical_name;
        for query in [name.clone(), name.to_lowercase(), name.to_uppercase()] {
            let found = resolve_manufacturer(&query);
            assert_eq!(found.status, "ok");
            assert_eq!(found.matched_by.as_deref(), Some("name_token"));
            assert_eq!(found.manufacturer.unwrap().id, entry.id);
        }
    }
}
