//! Images: buffers, geometry, automatic processing, formats, previews and TIFF documents.

use open_scanline::acquisition::{
    apply_flat_dark_cal, parse_file_device_id, reject_single_page_duplex, validate_page_limit,
    validate_scan_dpi, FileDeviceSession, FileScanStep, ScanMode, ScanRequest,
};
use open_scanline::cancellation::PollPoint;
use open_scanline::error::ScanError;
use open_scanline::formats::{detect_format_bytes, is_png_magic};
use open_scanline::geometry::{crop, flip_horizontal, flip_vertical, rotate};
use open_scanline::image::{
    checked_image_len, image_to_luma8, ImageBuffer, PixelFormat, Rect, Rotate, MAX_IMAGE_BYTES,
};
use open_scanline::preview::{image_buffer_to_rgba, preview_texture_needs_reload};
use open_scanline::processing::{
    apply_auto_crop, apply_auto_crop_with_params, apply_orientation_with_degrees, auto_crop_bounds,
    detect_orientation, invert,
};
use open_scanline::tiff::{
    append_page_to_multipage, append_to_tiff, check_tiff_cancellation,
    checked_tiff_frame_aggregate, load_tiff_frames, save_multipage_tiff,
    save_multipage_tiff_from_paths_with_transform,
    save_multipage_tiff_from_paths_with_transform_and_cancellation,
    save_multipage_tiff_with_cancellation,
    write_multipage_tiff_rgb, AppendTarget, RgbFrame, TiffPageLayout, TiffStreamWriter,
    TIFF_HEADER_SIZE, TIFF_IFD_ENTRY_COUNT, TIFF_IFD_SIZE, TIFF_WORD_ALIGNMENT,
};

use std::cell::Cell;

const PNG_MAGIC: &[u8] = &[0x89, b'P', b'N', b'G', 0x0d, 0x0a, 0x1a, 0x0a];
const JPEG_MAGIC: &[u8] = &[0xff, 0xd8, 0xff];

#[test]
fn png_magic_helpers() {
    assert!(is_png_magic(PNG_MAGIC));
    assert!(!is_png_magic(b"notapng!"));
    assert_eq!(detect_format_bytes(PNG_MAGIC), Some("png"));
    assert_eq!(detect_format_bytes(JPEG_MAGIC), Some("jpeg"));
    assert_eq!(detect_format_bytes(b"II"), Some("tiff"));
    assert_eq!(detect_format_bytes(b"MM"), Some("tiff"));
    assert_eq!(
        detect_format_bytes(b"II\x2a\x00\x00\x00\x00\x00"),
        Some("tiff")
    );
    assert_eq!(detect_format_bytes(b"GIF87a......"), Some("gif"));
    assert_eq!(detect_format_bytes(b"GIF89a......"), Some("gif"));
    assert_eq!(detect_format_bytes(b"BM.........."), Some("bmp"));
    assert_eq!(detect_format_bytes(b"RIFF....WEBP"), Some("webp"));
    assert_eq!(detect_format_bytes(b"%PDF-1.5"), Some("pdf"));
    assert_eq!(detect_format_bytes(b"\xff\x0a"), Some("jxl"));
    assert_eq!(
        detect_format_bytes(b"\0\0\0\x0cJXL \r\n\x87\n"),
        Some("jxl")
    );
    assert_eq!(detect_format_bytes(b"RIFF....WAVE"), None);
    assert_eq!(detect_format_bytes(b"not a known container"), None);
}

#[test]
fn image_buffer_to_rgba_for_preview_surface() {
    let image = ImageBuffer::new(2, 1, PixelFormat::Rgb8, vec![255, 0, 0, 0, 255, 0]).unwrap();
    let (width, height, rgba) = image_buffer_to_rgba(&image).unwrap();
    assert_eq!((width, height), (2, 1));
    assert_eq!(rgba.len(), 8);
    assert_eq!(&rgba[..4], &[255, 0, 0, 255]);
    assert_eq!(&rgba[4..], &[0, 255, 0, 255]);
}

#[test]
fn layout_rejects_classic_tiff_offset_overflow_without_allocating() {
    let err = TiffPageLayout::new(u32::MAX - TIFF_IFD_SIZE + 1, 0, true).unwrap_err();
    assert!(matches!(
        err,
        ScanError::Image(message) if message == "TIFF layout exceeds classic TIFF offset limit"
    ));
}

#[test]
fn frame_aggregate_limit_rejects_before_decoder_allocation() {
    let error = checked_tiff_frame_aggregate(MAX_IMAGE_BYTES, 1, 1).unwrap_err();
    assert!(matches!(
        error,
        ScanError::Image(message)
            if message == "TIFF decoded frame aggregate exceeds the image safety limit"
    ));
}

#[test]
fn writer_rejects_aggregate_classic_tiff_overflow_before_rgb_conversion() {
    let (mut writer, header) = TiffStreamWriter::new();
    writer.next_ifd_at = u32::MAX - TIFF_IFD_SIZE + 1;

    let error = writer
        .write_image(
            &ImageBuffer::new(1, 1, PixelFormat::Gray8, vec![7]).unwrap(),
            true,
            None,
        )
        .unwrap_err();

    assert!(matches!(
        error,
        ScanError::Image(message) if message == "TIFF layout exceeds classic TIFF offset limit"
    ));
    assert_eq!(header.len() as u64, u64::from(TIFF_HEADER_SIZE));
}

fn read_u16(bytes: &[u8], at: u32) -> u16 {
    let at = at as usize;
    u16::from_le_bytes([bytes[at], bytes[at + 1]])
}

fn read_u32(bytes: &[u8], at: u32) -> u32 {
    let at = at as usize;
    u32::from_le_bytes([bytes[at], bytes[at + 1], bytes[at + 2], bytes[at + 3]])
}

fn read_ifd(bytes: &[u8], at: u32) -> (Vec<(u16, u32)>, u32) {
    let count = u32::from(read_u16(bytes, at));
    let entries = (0..count)
        .map(|i| {
            let entry = at + 2 + 12 * i;
            (read_u16(bytes, entry), read_u32(bytes, entry + 8))
        })
        .collect();
    (entries, read_u32(bytes, at + 2 + 12 * count))
}

fn entry_value(entries: &[(u16, u32)], tag: u16) -> u32 {
    entries.iter().find(|(own, _)| *own == tag).unwrap().1
}

fn frame(width: u32, height: u32, data: Vec<u8>) -> RgbFrame {
    RgbFrame { width, height, data }
}

#[test]
fn rgb_multipage_writer_uses_aligned_ifds_and_preserves_page_pixels() {
    let frames = vec![frame(1, 1, vec![1, 2, 3]), frame(2, 1, vec![4, 5, 6, 7, 8, 9])];

    let bytes = write_multipage_tiff_rgb(&frames, Some(300)).unwrap();

    assert_eq!(&bytes[..4], b"II\x2a\0");
    let mut ifd_at = read_u32(&bytes, 4);
    for (page_index, expected_next_link) in [true, false].into_iter().enumerate() {
        assert_eq!(ifd_at % TIFF_WORD_ALIGNMENT, 0);
        let (entries, next_ifd_at) = read_ifd(&bytes, ifd_at);
        assert_eq!(entries.len(), TIFF_IFD_ENTRY_COUNT as usize);
        assert_eq!(
            entries.iter().map(|(tag, _)| *tag).collect::<Vec<_>>(),
            vec![256, 257, 258, 259, 262, 273, 277, 278, 279, 282, 283, 296]
        );
        for tag in [258, 273, 282, 283] {
            assert_eq!(entry_value(&entries, tag) % TIFF_WORD_ALIGNMENT, 0);
        }
        for tag in [282, 283] {
            let offset = entry_value(&entries, tag);
            assert_eq!(read_u32(&bytes, offset), 300);
            assert_eq!(read_u32(&bytes, offset + 4), 1);
        }
        if expected_next_link {
            assert_ne!(next_ifd_at, 0);
            assert_eq!(next_ifd_at % TIFF_WORD_ALIGNMENT, 0);
            let strip_offset = entry_value(&entries, 273);
            let strip_len = entry_value(&entries, 279);
            assert_eq!(bytes[(strip_offset + strip_len) as usize], 0);
            ifd_at = next_ifd_at;
        } else {
            assert_eq!(next_ifd_at, 0, "page {page_index} must terminate the chain");
        }
    }
    let read = load_tiff_frames(&bytes).unwrap();
    assert_eq!(read.len(), 2);
    for (got, want) in read.iter().zip(&frames) {
        assert_eq!((got.width, got.height), (want.width, want.height));
        assert_eq!(got.data, want.data);
    }
}

#[test]
fn transformed_pages_are_all_written() {
    let pages: Vec<ImageBuffer> = (0..48u8)
        .map(|index| ImageBuffer::new(1, 1, PixelFormat::Rgb8, vec![index, 2, 3]).unwrap())
        .collect();
    let load = |index: usize| Ok(pages[index].clone());
    let brighten = |image: &ImageBuffer| {
        let data = image.data.iter().map(|value| value + 10).collect();
        ImageBuffer::new(1, 1, PixelFormat::Rgb8, data)
    };
    let bytes =
        save_multipage_tiff_from_paths_with_transform(pages.len(), load, Some(300), brighten)
            .unwrap();
    let frames = load_tiff_frames(&bytes).unwrap();
    assert_eq!(frames.len(), pages.len());
    for (index, frame) in frames.iter().enumerate() {
        assert_eq!(frame.data, vec![index as u8 + 10, 12, 13]);
    }
    let fail = |image: &ImageBuffer| {
        if image.data[0] == 1 {
            Err(ScanError::Image("transform failed".into()))
        } else {
            Ok(image.clone())
        }
    };
    let error = save_multipage_tiff_from_paths_with_transform(pages.len(), load, Some(300), fail)
        .unwrap_err();
    assert!(error.message().contains("transform failed"));
    let missing = |index: usize| {
        if index == 2 {
            Err(ScanError::Io("page is gone".into()))
        } else {
            Ok(pages[index].clone())
        }
    };
    let error = save_multipage_tiff_from_paths_with_transform(pages.len(), missing, None, brighten)
        .unwrap_err();
    assert!(error.message().contains("page is gone"));
    assert!(matches!(
        save_multipage_tiff_from_paths_with_transform(0, load, None, brighten),
        Err(ScanError::Invalid(_))
    ));
}

#[test]
fn transformed_pages_stop_at_the_cancellation() {
    // Publication of three pages polls once at the start, three times for each page and once at the
    // end; a page is transformed between its second poll and its third.
    let mut points = vec![PollPoint::Begin];
    for i in 0..3 {
        points.extend([PollPoint::Page(i), PollPoint::Loaded(i), PollPoint::Transformed(i)]);
    }
    points.push(PollPoint::End);
    for stop_at in 0..11usize {
        let (polled, loaded, transformed) = (Cell::new(0), Cell::new(0), Cell::new(0));
        let load = |_: usize| {
            loaded.set(loaded.get() + 1);
            ImageBuffer::new(1, 1, PixelFormat::Rgb8, vec![1, 2, 3])
        };
        let keep = |image: &ImageBuffer| {
            transformed.set(transformed.get() + 1);
            Ok(image.clone())
        };
        let poll = |point: PollPoint| {
            let k: usize = polled.get();
            assert_eq!(point, points[k]);
            polled.set(k + 1);
            k >= stop_at
        };
        let error = save_multipage_tiff_from_paths_with_transform_and_cancellation(
            3, load, None, keep, poll,
        )
        .unwrap_err();
        assert!(matches!(error, ScanError::Cancelled(_)));
        assert!(error.message().contains("TIFF publication cancelled"));
        assert_eq!(polled.get(), stop_at + 1);
        assert_eq!(loaded.get(), (stop_at + 1) / 3);
        assert_eq!(transformed.get(), stop_at / 3);
    }
    let whole = save_multipage_tiff_from_paths_with_transform_and_cancellation(
        3,
        |_: usize| ImageBuffer::new(1, 1, PixelFormat::Rgb8, vec![1, 2, 3]),
        None,
        |image: &ImageBuffer| Ok(image.clone()),
        |_| false,
    );
    assert_eq!(load_tiff_frames(&whole.unwrap()).unwrap().len(), 3);
}

#[test]
fn a_cancellation_in_the_first_transform_ends_publication() {
    let cancelled = Cell::new(false);
    let transforms = Cell::new(0);
    let error = save_multipage_tiff_from_paths_with_transform_and_cancellation(
        2,
        |i: usize| ImageBuffer::new(1, 1, PixelFormat::Rgb8, vec![i as u8, 2, 3]),
        Some(300),
        |image: &ImageBuffer| {
            transforms.set(transforms.get() + 1);
            cancelled.set(true);
            Ok(image.clone())
        },
        |_| cancelled.get(),
    )
    .unwrap_err();
    assert!(matches!(error, ScanError::Cancelled(_)));
    assert_eq!(transforms.get(), 1);
}

#[test]
fn images_are_published_only_past_every_poll() {
    let page = ImageBuffer::new(1, 1, PixelFormat::Rgb8, vec![1, 2, 3]).unwrap();
    let images = vec![page.clone(), page];
    let points = [PollPoint::Begin, PollPoint::Page(0), PollPoint::Page(1), PollPoint::End];
    for stop in points {
        let seen = Cell::new(0);
        let poll = |point: PollPoint| {
            let k: usize = seen.get();
            assert_eq!(point, points[k]);
            seen.set(k + 1);
            point == stop
        };
        assert!(matches!(
            save_multipage_tiff_with_cancellation(&images, None, poll),
            Err(ScanError::Cancelled(_))
        ));
    }
    assert!(save_multipage_tiff_with_cancellation(&images, None, |_| false).is_ok());
}

#[test]
fn written_documents_are_loaded_and_grow() {
    let first = ImageBuffer::new(2, 1, PixelFormat::Rgb8, vec![1, 2, 3, 4, 5, 6]).unwrap();
    let second = ImageBuffer::new(1, 2, PixelFormat::Gray8, vec![7, 8]).unwrap();
    let document = save_multipage_tiff(&vec![first, second.clone()], Some(300)).unwrap();
    assert_eq!(&document[..4], b"II*\0");
    let frames = load_tiff_frames(&document).unwrap();
    assert_eq!((frames[0].width, frames[0].height), (2, 1));
    assert_eq!(frames[0].data, vec![1, 2, 3, 4, 5, 6]);
    assert_eq!(frames[1].data, vec![7, 7, 7, 8, 8, 8]);
    let grown = append_to_tiff(&document, &second, None).unwrap();
    let after = load_tiff_frames(&grown).unwrap();
    assert_eq!(after.len(), 3);
    assert_eq!(after[..2], frames[..]);
    assert_eq!(after[2].data, vec![7, 7, 7, 8, 8, 8]);
}

/// A document of one planar RGB page with a strip for each row, of which only one is listed.
fn planar_page(length: u32, big: bool, little: bool) -> Vec<u8> {
    let two = |v: u16| if little { v.to_le_bytes() } else { v.to_be_bytes() }.to_vec();
    let four = |v: u32| if little { v.to_le_bytes() } else { v.to_be_bytes() }.to_vec();
    let eight = |v: u64| if little { v.to_le_bytes() } else { v.to_be_bytes() }.to_vec();
    let mut out = if little { b"II".to_vec() } else { b"MM".to_vec() };
    let entries: [(u16, u16, u32); 10] = [
        (256, 4, 1),
        (257, 4, length),
        (258, 3, 8),
        (259, 3, 1),
        (262, 3, 2),
        (273, 4, 8),
        (277, 3, 3),
        (278, 4, 1),
        (279, 4, 1),
        (284, 3, 2),
    ];
    if big {
        out.extend([two(43), two(8), two(0), eight(16), eight(10)].concat());
    } else {
        out.extend([two(42), four(8), two(10)].concat());
    }
    for (tag, kind, value) in entries {
        out.extend([two(tag), two(kind)].concat());
        out.extend(if big { eight(1) } else { four(1) });
        let mut field = if kind == 3 { two(value as u16) } else { four(value) };
        field.resize(if big { 8 } else { 4 }, 0);
        out.extend(field);
    }
    out.extend(if big { eight(0) } else { four(0) });
    out
}

#[test]
fn pages_of_absurd_sizes_are_refused_before_they_are_decoded() {
    for (big, little) in [(false, true), (false, false), (true, true), (true, false)] {
        let error = load_tiff_frames(&planar_page(u32::MAX, big, little)).unwrap_err();
        assert_eq!(
            error.message(),
            "invalid: image dimensions exceed the 65535-pixel per-axis safety limit"
        );
        for length in [2, 65_536, 1_000_000_000] {
            let error = load_tiff_frames(&planar_page(length, big, little)).unwrap_err();
            assert!(error.message().contains("TIFF decode failed"), "{}", error.message());
        }
    }
    assert!(load_tiff_frames(b"").is_err());
    assert!(load_tiff_frames(b"II*\0\xff\xff\xff\xff").is_err());
}

#[test]
fn cancelled_documents_are_not_written() {
    let pages = vec![
        ImageBuffer::new(1, 1, PixelFormat::Gray8, vec![9]).unwrap(),
        ImageBuffer::new(1, 1, PixelFormat::Gray8, vec![8]).unwrap(),
    ];
    assert!(matches!(
        save_multipage_tiff_with_cancellation(&pages, None, |_| true),
        Err(ScanError::Cancelled(_))
    ));
    assert!(matches!(check_tiff_cancellation(true), Err(ScanError::Cancelled(_))));
    assert!(check_tiff_cancellation(false).is_ok());
    assert!(save_multipage_tiff(&pages, None).is_ok());
    assert!(save_multipage_tiff(&Vec::new(), None).is_err());
}

#[test]
fn appended_pages_stand_behind_those_that_were_there() {
    let first = ImageBuffer::new(1, 1, PixelFormat::Gray8, vec![7]).unwrap();
    let second = ImageBuffer::new(1, 1, PixelFormat::Rgba8, vec![4, 5, 6, 200]).unwrap();
    let document = save_multipage_tiff(&vec![first], Some(150)).unwrap();
    let grown = append_to_tiff(&document, &second, Some(150)).unwrap();
    let frames = load_tiff_frames(&grown).unwrap();
    assert_eq!(frames.len(), 2);
    assert_eq!(frames[0].data, vec![7, 7, 7]);
    assert_eq!(frames[1].data, vec![4, 5, 6]);
}

#[test]
fn gray_pages_of_other_writers_are_expanded() {
    // A little-endian document of one page: 2 x 1 pixels, 8-bit gray, one strip.
    let mut document = b"II\x2a\0\x08\0\0\0".to_vec();
    let entries: [(u16, u16, u32, u32); 8] = [
        (256, 4, 1, 2),
        (257, 4, 1, 1),
        (258, 3, 1, 8),
        (259, 3, 1, 1),
        (262, 3, 1, 1),
        (273, 4, 1, 110),
        (278, 4, 1, 1),
        (279, 4, 1, 2),
    ];
    document.extend_from_slice(&(entries.len() as u16).to_le_bytes());
    for (tag, typ, count, value) in entries {
        document.extend_from_slice(&tag.to_le_bytes());
        document.extend_from_slice(&typ.to_le_bytes());
        document.extend_from_slice(&count.to_le_bytes());
        document.extend_from_slice(&value.to_le_bytes());
    }
    document.extend_from_slice(&[0, 0, 0, 0]);
    assert_eq!(document.len(), 110);
    document.extend_from_slice(&[10, 20]);
    let frames = load_tiff_frames(&document).unwrap();
    assert_eq!(frames.len(), 1);
    assert_eq!((frames[0].width, frames[0].height), (2, 1));
    assert_eq!(frames[0].data, vec![10, 10, 10, 20, 20, 20]);
}

#[test]
fn what_is_no_tiff_is_refused() {
    let error = load_tiff_frames(b"not a document").unwrap_err();
    assert!(matches!(error, ScanError::Image(message) if message.starts_with("TIFF decode failed: ")));
}

#[test]
fn containers_are_chosen_by_format_then_by_extension() {
    assert!(matches!(append_page_to_multipage(Some(" .TIFF "), None), Ok(AppendTarget::Tiff)));
    assert!(matches!(append_page_to_multipage(None, Some("PDF")), Ok(AppendTarget::Pdf)));
    assert!(matches!(append_page_to_multipage(None, None), Ok(AppendTarget::Tiff)));
    assert_eq!(
        append_page_to_multipage(Some("png"), None).unwrap_err().message(),
        "invalid: append_page_to_multipage supports TIFF or PDF, not 'png'"
    );
}

#[test]
fn buffers_need_enough_bytes() {
    assert!(ImageBuffer::new(2, 2, PixelFormat::Rgb8, vec![0; 11]).is_err());
    assert!(ImageBuffer::new(0, 2, PixelFormat::Rgb8, Vec::new()).is_err());
    assert!(ImageBuffer::new(2, 2, PixelFormat::Rgb8, vec![0; 12]).is_ok());
    assert_eq!(checked_image_len(3, 4, 3).unwrap(), 36);
    assert!(checked_image_len(65_536, 1, 1).is_err());
    assert!(checked_image_len(65_535, 65_535, 4).is_err());
}

#[test]
fn luma_weighs_the_channels() {
    let image = ImageBuffer::new(2, 1, PixelFormat::Rgb8, vec![255, 0, 0, 255, 255, 255]).unwrap();
    let (width, height, luma) = image_to_luma8(&image);
    assert_eq!((width, height), (2, 1));
    assert_eq!(luma, vec![76, 255]);
}

#[test]
fn rotations_add_up() {
    let image = ImageBuffer::new(2, 3, PixelFormat::Gray8, vec![1, 2, 3, 4, 5, 6]).unwrap();
    let quarter = rotate(&image, Rotate::R90).unwrap();
    assert_eq!((quarter.width, quarter.height), (3, 2));
    let half = rotate(&quarter, Rotate::R90).unwrap();
    assert_eq!(half.data, rotate(&image, Rotate::R180).unwrap().data);
    let whole = rotate(&rotate(&half, Rotate::R90).unwrap(), Rotate::R90).unwrap();
    assert_eq!(whole.data, image.data);
    for degrees in [0, 90, 180, 270] {
        assert_eq!(Rotate::from_degrees(degrees).degrees(), degrees);
    }
}

#[test]
fn crops_stay_within_the_image() {
    let image = ImageBuffer::new(3, 2, PixelFormat::Gray8, vec![1, 2, 3, 4, 5, 6]).unwrap();
    let inner = crop(&image, Rect::new(1, 0, 2, 2)).unwrap();
    assert_eq!(inner.data, vec![2, 3, 5, 6]);
}

#[test]
fn content_is_found_and_kept() {
    let mut data = vec![255u8; 100];
    data[3 * 10 + 4] = 0;
    data[6 * 10 + 7] = 10;
    let image = ImageBuffer::new(10, 10, PixelFormat::Gray8, data).unwrap();
    let found = auto_crop_bounds(&image, 240, 0);
    assert_eq!(
        (found.rect.x, found.rect.y, found.rect.width, found.rect.height),
        (4, 3, 4, 4)
    );
    let cropped = apply_auto_crop(&image).unwrap();
    assert_eq!((cropped.width, cropped.height), (8, 8));
    let blank = ImageBuffer::new(4, 4, PixelFormat::Gray8, vec![255; 16]).unwrap();
    assert_eq!(apply_auto_crop(&blank).unwrap().data, blank.data);
}

#[test]
fn orientation_is_a_quarter_turn() {
    let image = ImageBuffer::new(4, 4, PixelFormat::Gray8, vec![255; 16]).unwrap();
    let found = detect_orientation(&image);
    assert!([0, 90, 180, 270].contains(&found.degrees));
    let turned = apply_orientation_with_degrees(&image, Some(90)).unwrap();
    assert_eq!((turned.width, turned.height), (4, 4));
}

#[test]
fn rows_are_compared_by_their_rounded_means() {
    let gray = |width: u32, data: Vec<u8>| {
        let height = data.len() as u32 / width;
        ImageBuffer::new(width, height, PixelFormat::Gray8, data).unwrap()
    };
    for (top, bottom, degrees) in
        [(1, 25, 180), (0, 24, 0), (0, 25, 180), (2, 26, 0), (3, 27, 0), (4, 27, 0)]
    {
        let image = gray(3, vec![top, 0, 0, 0, 0, 0, bottom, 0, 0]);
        let found = detect_orientation(&image);
        let is_below = f64::from(top) / 3.0 < f64::from(bottom) / 3.0 - 8.0;
        assert_eq!(found.degrees == 180, is_below, "{top} {bottom}");
        assert_eq!(found.degrees, degrees, "{top} {bottom}");
    }
}

#[test]
fn textures_are_reloaded_when_the_file_changes() {
    assert!(preview_texture_needs_reload(Some("p.png"), Some((2, 9)), Some("p.png"), Some((1, 9))));
    assert!(!preview_texture_needs_reload(Some("p.png"), Some((2, 9)), Some("p.png"), Some((2, 9))));
    assert!(preview_texture_needs_reload(Some("p.png"), Some((2, 9)), Some("other.png"), Some((2, 9))));
}

#[test]
fn calibration_uses_its_tables() {
    let image = ImageBuffer::new(2, 1, PixelFormat::Gray8, vec![10, 20]).unwrap();
    let doubled: Vec<u8> = (0..=255u16).map(|v| (v * 2).min(255) as u8).collect();
    let calibrated = apply_flat_dark_cal(&image, &vec![doubled]).unwrap();
    assert_eq!(calibrated.data, vec![20, 40]);
    assert_eq!(apply_flat_dark_cal(&image, &Vec::new()).unwrap().data, image.data);
}

#[test]
fn file_devices_round_trip_and_scan() {
    assert_eq!(parse_file_device_id("file:/tmp/page.png"), "/tmp/page.png");
    let mut session = FileDeviceSession::new("/tmp/page.png".into());
    let request = ScanRequest { width: 2, height: 2, ..Default::default() };
    assert!(matches!(session.begin_scan(&request), Ok(FileScanStep::Load)));
    let image = ImageBuffer::new(2, 2, PixelFormat::Gray8, vec![1, 2, 3, 4]).unwrap();
    session.load(true, Ok(image)).unwrap();
    assert!(matches!(session.begin_scan(&request), Ok(FileScanStep::Ready)));
    assert_eq!(session.scan(&request).unwrap().data, vec![1, 2, 3, 4]);
    let wide = ScanRequest { width: 4, height: 1, ..Default::default() };
    let page = session.scan(&wide).unwrap();
    assert_eq!((page.width, page.height), (4, 1));
    let duplex = ScanRequest { width: 2, height: 2, duplex: true, ..Default::default() };
    assert!(session.scan(&duplex).is_err());
    session.cancel();
    assert!(matches!(session.begin_scan(&request), Err(ScanError::Cancelled(_))));
    assert!(matches!(
        session.scan(&request),
        Err(ScanError::Cancelled(text)) if text == "scan cancelled"
    ));
    session.close();
    assert!(session.begin_scan(&request).is_err());
    assert!(matches!(session.scan(&request), Err(ScanError::Other(text)) if text == "session closed"));
    assert!(!matches!(session.scan(&duplex), Err(ScanError::Other(_))));
}

#[test]
fn resizing_to_its_own_size_changes_nothing() {
    let image = ImageBuffer::new(2, 2, PixelFormat::Gray8, vec![1, 2, 3, 4]).unwrap();
    let same = FileDeviceSession::resize_nearest(&image, 2, 2).unwrap();
    assert_eq!(same.data, image.data);
    let grown = FileDeviceSession::resize_nearest(&image, 4, 2).unwrap();
    assert_eq!(grown.data, vec![1, 1, 2, 2, 3, 3, 4, 4]);
}

#[test]
fn requests_are_checked() {
    assert!(validate_scan_dpi(300, 300).is_ok());
    assert!(validate_scan_dpi(10, 300).is_err());
    assert!(validate_page_limit(1).is_ok());
    assert!(validate_page_limit(0).is_err());
    let duplex = ScanRequest { duplex: true, mode: ScanMode::Document, ..Default::default() };
    assert!(reject_single_page_duplex(&duplex).is_err());
    assert!(reject_single_page_duplex(&ScanRequest::default()).is_ok());
}

#[test]
fn flips_and_inversion_undo_themselves() {
    let image = ImageBuffer::new(2, 2, PixelFormat::Gray8, vec![1, 2, 3, 4]).unwrap();
    let mirrored = flip_horizontal(&image).unwrap();
    assert_eq!(mirrored.data, vec![2, 1, 4, 3]);
    assert_eq!(flip_horizontal(&mirrored).unwrap().data, image.data);
    let overturned = flip_vertical(&image).unwrap();
    assert_eq!(overturned.data, vec![3, 4, 1, 2]);
    assert_eq!(flip_vertical(&overturned).unwrap().data, image.data);
    assert_eq!(flip_vertical(&mirrored).unwrap().data, rotate(&image, Rotate::R180).unwrap().data);
    let clear = ImageBuffer::new(1, 1, PixelFormat::Rgba8, vec![0, 10, 255, 7]).unwrap();
    assert_eq!(invert(&clear).data, vec![255, 245, 0, 7]);
    assert_eq!(invert(&invert(&clear)).data, clear.data);
}

#[test]
fn cropping_to_content_again_changes_nothing() {
    let mut data = vec![255u8; 12 * 9];
    data[3 * 12 + 4] = 0;
    data[5 * 12 + 8] = 10;
    let image = ImageBuffer::new(12, 9, PixelFormat::Gray8, data).unwrap();
    for (threshold, margin) in [(240, 2), (240, 0), (5, 1), (0, 3), (-1, 0), (300, 1), (240, 50)] {
        let once = apply_auto_crop_with_params(&image, threshold, margin).unwrap();
        let twice = apply_auto_crop_with_params(&once, threshold, margin).unwrap();
        assert_eq!((twice.width, twice.height, &twice.data), (once.width, once.height, &once.data));
    }
    let tight = apply_auto_crop_with_params(&image, 240, 0).unwrap();
    assert_eq!((tight.width, tight.height), (5, 3));
    assert_eq!(apply_auto_crop_with_params(&image, 0, 0).unwrap().data, image.data);
}
