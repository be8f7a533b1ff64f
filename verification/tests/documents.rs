//! PDF documents and exports.

use open_scanline::cancellation::PollPoint;
use open_scanline::error::ScanError;
use open_scanline::export::{
    collect_searchable_pages, export_uses_pdf_features, multipage_pdf_options,
    prepare_export_options, prepare_multipage_export, searchable_text_request, Container,
    ExportOptions, OcrEngine,
};
use open_scanline::image::{ImageBuffer, PixelFormat};
use open_scanline::paths::{extension_of_name, Extension};
use open_scanline::pdf::document::{
    accept_random_bytes, random_bytes, save_multipage_pdf_with_cancellation,
    save_pdf_from_paths_with_options_and_transform,
    save_pdf_from_paths_with_options_and_transform_and_cancellation, save_pdf_with_options,
    save_pdf_with_options_and_cancellation, PdfObject, PdfOperation,
};
use open_scanline::pdf::limits::{
    accept_prepared_password, check_pdf_cancellation, checked_pdf_image_stream_aggregate,
    checked_pdf_searchable_text_total_with_limits, validate_pdf_options, validate_pdf_password,
    PdfOptions, MAX_PDF_RETAINED_IMAGE_STREAM_BYTES,
};
use open_scanline::pdf::searchable::{
    character_code, character_codes, cid_to_gid_map, encode_searchable_text,
    searchable_to_unicode_cmap, unicode_pdf_string,
};
use open_scanline::pdf::syntax::PdfToken;
use std::cell::Cell;

fn page(value: u8) -> ImageBuffer {
    ImageBuffer::new(2, 1, PixelFormat::Rgb8, vec![value; 6]).unwrap()
}

#[test]
fn documents_hold_their_pages_in_order() {
    let document = save_pdf_with_options(
        &vec![page(1), page(2)],
        &PdfOptions { dpi: 150, title: "Two".into(), password: None, searchable_pages: None },
    )
    .unwrap();
    assert_eq!(document.version, "1.5");
    assert_eq!(document.identifier.len(), 16);
    assert!(document.encryption.is_none());
    let kids = match &document.objects[0] {
        PdfObject::Pages { kids } => kids.clone(),
        _ => panic!("the first object lists the pages"),
    };
    assert_eq!(kids.len(), 2);
    for kid in kids {
        match &document.objects[(kid - 1) as usize] {
            PdfObject::Page { parent, image, contents, width, font, .. } => {
                assert_eq!(*parent, 1);
                assert_eq!((width.pixels, width.dpi), (2, 150));
                assert!(font.is_none());
                assert!(matches!(
                    &document.objects[(*image - 1) as usize],
                    PdfObject::Image { width: 2, height: 1, .. }
                ));
                assert!(matches!(
                    &document.objects[(*contents - 1) as usize],
                    PdfObject::Content(_)
                ));
            }
            _ => panic!("a kid is a page"),
        }
    }
    assert!(matches!(
        &document.objects[(document.root - 1) as usize],
        PdfObject::Catalog { pages: 1 }
    ));
    assert!(matches!(&document.objects[(document.info - 1) as usize], PdfObject::Info { .. }));
}

#[test]
fn image_streams_are_compressed_where_that_helps() {
    let even = ImageBuffer::new(64, 64, PixelFormat::Gray8, vec![200; 64 * 64]).unwrap();
    let document = save_pdf_with_options(&vec![even], &PdfOptions::default()).unwrap();
    let stored = document.objects.iter().find_map(|object| match object {
        PdfObject::Image { content, deflated, .. } => Some((content.len(), *deflated)),
        _ => None,
    });
    let (size, deflated) = stored.unwrap();
    assert!(deflated);
    assert!(size < 64 * 64 * 3);
}

#[test]
fn passwords_encrypt_and_randomness_is_fresh() {
    let options = PdfOptions { password: Some("secret".into()), ..PdfOptions::default() };
    let first = save_pdf_with_options(&vec![page(1)], &options).unwrap();
    let second = save_pdf_with_options(&vec![page(1)], &options).unwrap();
    assert_eq!(first.version, "2.0");
    let (one, two) = (first.encryption.unwrap(), second.encryption.unwrap());
    assert_eq!(one.password, "secret");
    assert_eq!(one.key.len(), 32);
    assert_ne!(one.key, two.key);
    assert_ne!(first.identifier, second.identifier);
    assert_eq!(random_bytes("fixture", 20).unwrap().len(), 20);
    assert_eq!(
        accept_random_bytes("fixture", Err("empty".into())).unwrap_err().message(),
        "could not generate secure fixture: empty"
    );
}

#[test]
fn searchable_text_is_drawn_invisibly() {
    let options = PdfOptions {
        searchable_pages: Some(vec!["ab a".into()]),
        ..PdfOptions::default()
    };
    let document = save_pdf_with_options(&vec![page(1)], &options).unwrap();
    let shown = document.objects.iter().find_map(|object| match object {
        PdfObject::Content(operations) => operations.iter().find_map(|operation| match operation {
            PdfOperation::ShowText(bytes) => Some(bytes.clone()),
            _ => None,
        }),
        _ => None,
    });
    let table = character_codes(&vec!["ab a".into()]).unwrap();
    assert_eq!(shown.unwrap(), encode_searchable_text("ab a", &table).unwrap());
}

#[test]
fn searchable_text_reads_back_through_its_codes() {
    let table = character_codes(&vec!["héllo".into(), "öl".into()]).unwrap();
    let bytes = encode_searchable_text("hö", &table).unwrap();
    assert_eq!(bytes.len(), 4);
    let read: String = bytes
        .chunks(2)
        .map(|pair| table[usize::from(u16::from_be_bytes([pair[0], pair[1]])) - 1])
        .collect();
    assert_eq!(read, "hö");
    assert!(character_code(&table, 'z').is_none());
    assert!(encode_searchable_text("z", &table).is_err());
    assert_eq!(cid_to_gid_map(2).len(), 6);
    let cmap = String::from_utf8(searchable_to_unicode_cmap(&table)).unwrap();
    assert!(cmap.contains("beginbfchar") || cmap.contains("beginbfrange"));
}

#[test]
fn titles_are_utf_16() {
    assert_eq!(unicode_pdf_string("A€"), vec![0xfe, 0xff, 0x00, 0x41, 0x20, 0xac]);
}

#[test]
fn cancellation_stops_publication() {
    let options = PdfOptions::default();
    assert!(matches!(
        save_pdf_with_options_and_cancellation(&vec![page(1)], &options, |_| true),
        Err(ScanError::Cancelled(_))
    ));
    assert!(matches!(
        save_multipage_pdf_with_cancellation(2, |i| Ok(page(i as u8)), &options, |_| true),
        Err(ScanError::Cancelled(_))
    ));
    assert!(check_pdf_cancellation(true).is_err());
    assert!(check_pdf_cancellation(false).is_ok());
}

#[test]
fn stored_pages_are_published_only_past_every_poll() {
    let options = PdfOptions::default();
    let mut points = vec![PollPoint::Begin];
    for i in 0..2 {
        points.extend([PollPoint::Page(i), PollPoint::Loaded(i), PollPoint::Transformed(i)]);
    }
    points.push(PollPoint::End);
    for (k, stop) in points.iter().enumerate() {
        let (seen, transforms) = (Cell::new(0), Cell::new(0));
        let keep = |image: &ImageBuffer| {
            transforms.set(transforms.get() + 1);
            Ok(image.clone())
        };
        let poll = |point: PollPoint| {
            let at: usize = seen.get();
            assert_eq!(point, points[at]);
            seen.set(at + 1);
            point == *stop
        };
        let load = |i: usize| Ok(page(i as u8));
        let r = save_pdf_from_paths_with_options_and_transform_and_cancellation(
            2, load, &options, keep, poll,
        );
        assert!(matches!(r, Err(ScanError::Cancelled(_))));
        assert_eq!(seen.get(), k + 1);
        assert_eq!(transforms.get(), k / 3);
    }
}

#[test]
fn pages_are_loaded_and_transformed_one_by_one() {
    let options = PdfOptions::default();
    let document = save_pdf_from_paths_with_options_and_transform(
        2,
        |i| Ok(page(i as u8)),
        &options,
        |image: &ImageBuffer| Ok(image.clone()),
    )
    .unwrap();
    assert!(matches!(&document.objects[0], PdfObject::Pages { kids } if kids.len() == 2));
    let error = save_pdf_from_paths_with_options_and_transform(
        2,
        |i| if i == 1 { Err(ScanError::Io("missing".into())) } else { Ok(page(0)) },
        &options,
        |image: &ImageBuffer| Ok(image.clone()),
    )
    .unwrap_err();
    assert_eq!(error.message(), "io: missing");
}

#[test]
fn limits_are_exact() {
    assert_eq!(
        checked_pdf_image_stream_aggregate(MAX_PDF_RETAINED_IMAGE_STREAM_BYTES - 1, 1).unwrap(),
        MAX_PDF_RETAINED_IMAGE_STREAM_BYTES
    );
    assert!(checked_pdf_image_stream_aggregate(MAX_PDF_RETAINED_IMAGE_STREAM_BYTES, 1).is_err());
    assert_eq!(checked_pdf_searchable_text_total_with_limits(2, "é", 0, 2, 4).unwrap(), 4);
    assert!(checked_pdf_searchable_text_total_with_limits(0, "abc", 0, 2, 10).is_err());
    assert!(checked_pdf_searchable_text_total_with_limits(3, "é", 0, 2, 4).is_err());
    assert!(validate_pdf_options(1, &PdfOptions::default()).is_ok());
    let empty = PdfOptions { password: Some(String::new()), ..PdfOptions::default() };
    assert!(validate_pdf_options(1, &empty).is_err());
    let options = PdfOptions { searchable_pages: Some(Vec::new()), ..PdfOptions::default() };
    assert!(validate_pdf_options(1, &options).is_err());
}

#[test]
fn passwords_are_prepared_before_they_are_measured() {
    assert!(validate_pdf_password("secret").is_ok());
    assert!(validate_pdf_password("").is_err());
    // A soft hyphen is mapped to nothing, so nothing is left of this one.
    assert!(validate_pdf_password("\u{00ad}").is_err());
    // Control characters are prohibited.
    assert!(validate_pdf_password("a\u{0007}b").is_err());
    assert!(validate_pdf_password(&"x".repeat(127)).is_ok());
    assert!(validate_pdf_password(&"x".repeat(128)).is_err());
    assert!(accept_prepared_password(Ok("x".into())).is_ok());
    assert!(accept_prepared_password(Err("prohibited".into())).is_err());
}

#[test]
fn pdf_features_need_a_pdf_destination() {
    let plain = ExportOptions::default();
    assert!(!export_uses_pdf_features(&plain));
    assert!(prepare_export_options(&Extension::Known("png".into()), &plain, Ok(())).is_ok());
    let searchable = ExportOptions { searchable_pdf: true, ..ExportOptions::default() };
    assert!(export_uses_pdf_features(&searchable));
    assert!(prepare_export_options(&Extension::Known("png".into()), &searchable, Ok(())).is_err());
    assert!(prepare_export_options(&Extension::Known("PDF".into()), &searchable, Ok(())).is_ok());
    assert!(prepare_export_options(
        &Extension::Known("pdf".into()),
        &searchable,
        Err(ScanError::Invalid("language".into()))
    )
    .is_err());
    assert!(matches!(
        prepare_multipage_export(&Extension::Known("tiff".into()), &plain, Ok(())),
        Ok(Container::Tiff)
    ));
    assert!(matches!(
        prepare_multipage_export(&Extension::Known("pdf".into()), &searchable, Ok(())),
        Ok(Container::Pdf)
    ));
    assert!(prepare_multipage_export(&Extension::Known("png".into()), &plain, Ok(())).is_err());
}

#[test]
fn recognition_is_asked_for_only_where_it_is_used() {
    assert!(searchable_text_request(&ExportOptions::default()).is_none());
    let options = ExportOptions {
        searchable_pdf: true,
        ocr_language: "deu".into(),
        ocr_engine: OcrEngine::Tesseract,
        ..ExportOptions::default()
    };
    let request = searchable_text_request(&options).unwrap();
    assert_eq!(request.language, "deu");
    assert!(!request.offline);
    let pages = collect_searchable_pages(2, |i| Ok(format!("page {i}"))).unwrap();
    assert_eq!(pages, vec!["page 0".to_string(), "page 1".to_string()]);
    let pdf = multipage_pdf_options(200, &options, pages);
    assert_eq!(pdf.dpi, 200);
    assert_eq!(pdf.searchable_pages.unwrap().len(), 2);
}

#[test]
fn extensions_are_read_from_names() {
    assert_eq!(extension_of_name("a.b.PNG").lower().as_deref(), Some("png"));
    assert!(extension_of_name(".hidden").is_missing());
    assert!(extension_of_name("..").is_missing());
    assert!(extension_of_name("none").is_missing());
    assert!(extension_of_name("x.TIF").same_as("tif"));
}

/// A small reader of object syntax.
fn rendered(tokens: &[PdfToken]) -> String {
    let mut out = String::new();
    for token in tokens {
        let text = match token {
            PdfToken::Open => "<<".to_string(),
            PdfToken::Close => ">>".to_string(),
            PdfToken::OpenList => "[".to_string(),
            PdfToken::CloseList => "]".to_string(),
            PdfToken::Name(name) => format!("/{name}"),
            PdfToken::Integer(number) => number.to_string(),
            PdfToken::Length(length) => format!("{}px@{}", length.pixels, length.dpi),
            PdfToken::Hundredths(number) => format!("{number}%"),
            PdfToken::Text(text) => format!("({text})"),
            PdfToken::Literal(bytes) => format!("(#{})", bytes.len()),
            PdfToken::Hexadecimal(bytes) => format!("<#{}>", bytes.len()),
            PdfToken::Reference(number) => format!("{number}R"),
        };
        out.push_str(&text);
        out.push(' ');
    }
    out.trim_end().to_string()
}

/// Whether brackets match.
fn nested(tokens: &[PdfToken]) -> bool {
    let mut open = Vec::new();
    for token in tokens {
        match token {
            PdfToken::Open => open.push(true),
            PdfToken::OpenList => open.push(false),
            PdfToken::Close => {
                if open.pop() != Some(true) {
                    return false;
                }
            }
            PdfToken::CloseList => {
                if open.pop() != Some(false) {
                    return false;
                }
            }
            _ => {}
        }
    }
    open.is_empty()
}

#[test]
fn objects_are_written_as_dictionaries() {
    let images = vec![ImageBuffer::new(2, 1, PixelFormat::Rgb8, vec![1, 2, 3, 4, 5, 6]).unwrap()];
    let options = PdfOptions {
        dpi: 300,
        searchable_pages: Some(vec!["hi".to_string()]),
        ..PdfOptions::default()
    };
    let document = save_pdf_with_options(&images, &options).unwrap();
    let written: Vec<String> =
        document.objects.iter().map(|object| rendered(&object.syntax(1234))).collect();
    assert!(document.objects.iter().all(|object| nested(&object.syntax(1234))));
    assert_eq!(written[0], "<< /Type /Pages /Kids [ 10R ] /Count 1 >>");
    assert_eq!(written[1], "<< >>");
    assert_eq!(
        written[2],
        "<< /Length1 1234 /Filter /Crypt /DecodeParms << /Name /Identity >> >>"
    );
    assert_eq!(
        written[3],
        "<< /Type /FontDescriptor /FontName /Cantarell-Regular /Flags 4 /FontBBox [ 0 0 1000 1000 ] \
         /ItalicAngle 0 /Ascent 880 /Descent -120 /CapHeight 700 /StemV 80 /FontFile2 3R >>"
    );
    assert_eq!(
        written[5],
        "<< /Type /Font /Subtype /CIDFontType2 /BaseFont /Cantarell-Regular /CIDSystemInfo << \
         /Registry (Adobe) /Ordering (Identity) /Supplement 0 >> /FontDescriptor 4R /DW 1000 \
         /CIDToGIDMap 5R >>"
    );
    assert_eq!(
        written[6],
        "<< /Type /Font /Subtype /Type0 /BaseFont /Cantarell-Regular /Encoding /Identity-H \
         /DescendantFonts [ 6R ] /ToUnicode 2R >>"
    );
    assert_eq!(
        written[7],
        "<< /Type /XObject /Subtype /Image /Width 2 /Height 1 /ColorSpace /DeviceRGB \
         /BitsPerComponent 8 >>"
    );
    assert_eq!(
        written[9],
        "<< /Type /Page /Parent 1R /MediaBox [ 0 0 2px@300 1px@300 ] /Resources << /XObject << \
         /Im0 8R >> /Font << /F1 7R >> /ExtGState << /GS1 << /Type /ExtGState /ca 1% /CA 1% >> >> \
         >> /Contents 9R >>"
    );
    assert_eq!(written[10], "<< /Type /Catalog /Pages 1R >>");
    assert!(written[11].ends_with("/Producer (open-scanline) >>"));
    assert_eq!(
        rendered(&document.trailer()),
        "<< /Root 11R /Info 12R /ID [ (#16) (#16) ] >>"
    );
    let content = match &document.objects[8] {
        PdfObject::Content(operations) => operations
            .iter()
            .map(|operation| {
                format!("{} {}", rendered(&operation.operands()), operation.operator())
                    .trim_start()
                    .to_string()
            })
            .collect::<Vec<_>>(),
        other => panic!("{other:?}"),
    };
    assert_eq!(
        content,
        vec![
            "q", "2px@300 0 0 1px@300 0 0 cm", "/Im0 Do", "Q", "BT", "/F1 10 Tf", "/GS1 gs",
            "0 Tr", "1 1 Td", "<#4> Tj", "ET",
        ]
    );
}
