//! Film profiles and conversions.

use open_scanline::film::{convert_film, get_film_profile, list_film_profiles, FilmCurves, FilmProfile};
use open_scanline::image::{ImageBuffer, PixelFormat};

fn clamp_u8(v: f64) -> u8 {
    v.round().clamp(0.0, 255.0) as u8
}

fn hundredths(v: u32) -> f64 {
    f64::from(v) / 100.0
}

fn gain_table(part: f64, mean: f64) -> Vec<u8> {
    let gain = if part > 1e-6 { mean / part } else { 1.0 };
    (0..=255u8).map(|v| clamp_u8(f64::from(v) * gain)).collect()
}

fn curves_of(profile: &FilmProfile) -> FilmCurves {
    let identity: Vec<u8> = (0..=255u8).collect();
    let (red, green, blue) = match profile.orange_mask {
        Some((r, g, b)) => {
            let (r, g, b) = (hundredths(r), hundredths(g), hundredths(b));
            let mean = (r + g + b) / 3.0;
            (gain_table(r, mean), gain_table(g, mean), gain_table(b, mean))
        }
        None => (identity.clone(), identity.clone(), identity.clone()),
    };
    let contrast = hundredths(profile.contrast);
    let gamma = hundredths(profile.gamma);
    let gamma = if gamma <= 0.0 { 1.0 } else { gamma };
    let tone = (0..=255u8)
        .map(|v| {
            let t = (f64::from(v) / 255.0 - 0.5) * contrast + 0.5;
            clamp_u8(t.clamp(0.0, 1.0).powf(1.0 / gamma) * 255.0)
        })
        .collect();
    FilmCurves { red, green, blue, tone }
}

fn convert(image: &ImageBuffer, id: &str) -> Vec<u8> {
    let profile = get_film_profile(id).unwrap();
    convert_film(image, id, &curves_of(&profile)).unwrap().data
}

#[test]
fn catalog_has_at_least_50() {
    let list = list_film_profiles();
    assert!(list.len() >= 50, "got {}", list.len());
    assert!(get_film_profile("kodak_portra_400").is_ok());
}

#[test]
fn catalog_order_and_representative_data_are_stable() {
    let catalog = list_film_profiles();
    assert_eq!(catalog[0].id, "generic_color_negative");
    assert_eq!(
        catalog[0].orange_mask.map(|(r, g, b)| (hundredths(r), hundredths(g), hundredths(b))),
        Some((1.15, 0.62, 0.45))
    );
    assert_eq!(catalog[20].id, "generic_slide");
    assert_eq!(catalog[20].kind, "slide");
    assert_eq!(catalog[28].id, "generic_bw_negative");
    assert_eq!(catalog[28].kind, "bw_negative");
    assert_eq!(catalog.last().unwrap().id, "fuji_neopan_400");
}

#[test]
fn color_negative_characterizes_rgb_and_rgba_processing() {
    let rgb = ImageBuffer::new(1, 1, PixelFormat::Rgb8, vec![200, 100, 50]).unwrap();
    let rgba = ImageBuffer::new(1, 1, PixelFormat::Rgba8, vec![200, 100, 50, 100]).unwrap();

    assert_eq!(convert(&rgb, "generic_color_negative"), vec![21, 194, 255]);
    assert_eq!(convert(&rgba, "generic_color_negative"), vec![21, 194, 255, 100]);
}

#[test]
fn slide_characterizes_rgb_rgba_and_gray_processing() {
    let rgb = ImageBuffer::new(1, 1, PixelFormat::Rgb8, vec![0, 128, 255]).unwrap();
    let rgba = ImageBuffer::new(1, 1, PixelFormat::Rgba8, vec![12, 64, 192, 33]).unwrap();
    let gray = ImageBuffer::new(2, 1, PixelFormat::Gray8, vec![10, 200]).unwrap();

    assert_eq!(convert(&rgb, "generic_slide"), vec![0, 128, 255]);
    assert_eq!(convert(&rgba, "generic_slide"), vec![12, 64, 192, 33]);
    assert_eq!(convert(&gray, "generic_slide"), vec![10, 200]);
}

#[test]
fn bw_negative_characterizes_rgb_rgba_and_gray_processing() {
    let rgb = ImageBuffer::new(1, 1, PixelFormat::Rgb8, vec![200, 100, 50]).unwrap();
    let rgba = ImageBuffer::new(1, 1, PixelFormat::Rgba8, vec![200, 100, 50, 17]).unwrap();
    let gray = ImageBuffer::new(2, 1, PixelFormat::Gray8, vec![200, 100]).unwrap();

    assert_eq!(convert(&rgb, "generic_bw_negative"), vec![131, 131, 131]);
    assert_eq!(convert(&rgba, "generic_bw_negative"), vec![131, 131, 131, 17]);
    assert_eq!(convert(&gray, "generic_bw_negative"), vec![41, 161]);
}

#[test]
fn every_film_profile_preserves_rgba_alpha() {
    for profile in list_film_profiles() {
        let image = ImageBuffer::new(
            2,
            1,
            PixelFormat::Rgba8,
            vec![200, 100, 50, 17, 12, 64, 192, 231],
        )
        .unwrap();
        let output = convert_film(&image, &profile.id, &curves_of(&profile)).unwrap();
        assert_eq!(
            output.data.chunks_exact(4).map(|pixel| pixel[3]).collect::<Vec<_>>(),
            vec![17, 231],
            "{} changed alpha",
            profile.id
        );
    }
}

#[test]
fn unknown_film_profiles_are_named() {
    let error = get_film_profile("no_such_film").unwrap_err();
    assert_eq!(error.message(), "invalid: film profile not found: no_such_film");
}
