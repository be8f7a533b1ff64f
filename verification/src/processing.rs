//! Processing plans, and the auto-crop and cardinal-orientation algorithms.

use crate::error::{outcome_view, Failure, ScanError};
use crate::geometry::{
    crop, cropped, lemma_place, lemma_remapped_at, lemma_smaller, lemma_wf, rotate, rotated, Mapping,
};
use crate::image::{image_to_luma8, luma_plane, ImageBuffer, Picture, PixelFormat, Rect, Rotate};
use vstd::prelude::*;

verus! {

// ---------------------------------------------------------------------------
// Plans
// ---------------------------------------------------------------------------

/// A binary64 number by its bits.
#[derive(Debug, Clone, Copy, PartialEq, Eq, Structural)]
pub struct Real {
    pub bits: u64,
}

/// The bits of 1.
pub const ONE_BITS: u64 = 0x3FF0_0000_0000_0000;

/// Zero.
pub open spec fn real_zero() -> Real {
    Real { bits: 0 }
}

/// One.
pub open spec fn real_one() -> Real {
    Real { bits: ONE_BITS }
}

/// Scan / pipeline preference bundle.
#[derive(Debug, PartialEq, Eq)]
pub struct PipelinePrefs {
    pub rotate: Rotate,
    pub flip_h: bool,
    pub flip_v: bool,
    /// Optional post-acquisition crop.
    pub crop: Option<Rect>,
    pub brightness: i32,
    pub contrast: i32,
    pub desaturate: bool,
    pub levels_black: i32,
    pub levels_white: i32,
    pub levels_gamma: Real,
    pub auto_deskew: bool,
    pub deskew_angle: Real,
    pub auto_orient: bool,
    pub auto_crop: bool,
    pub white_balance: bool,
    pub sharpen_amount: Real,
    pub invert: bool,
    pub auto_levels: bool,
    pub saturation: Real,
    pub hue: Real,
    pub curves: Option<Vec<[i32; 2]>>,
    pub infrared_clean: Option<String>,
    pub descreen: bool,
    pub descreen_dpi: i32,
    pub restore_colors: bool,
    pub restore_fading: bool,
    pub grain_reduction: Option<String>,
    pub flatten: bool,
    pub hole_punch: bool,
    pub colorize_mode: Option<String>,
    pub film_type: Option<String>,
}

/// A preference bundle with its texts and curves as sequences.
pub struct Prefs {
    pub rotate: Rotate,
    pub flip_h: bool,
    pub flip_v: bool,
    pub crop: Option<Rect>,
    pub brightness: i32,
    pub contrast: i32,
    pub desaturate: bool,
    pub levels_black: i32,
    pub levels_white: i32,
    pub levels_gamma: Real,
    pub auto_deskew: bool,
    pub deskew_angle: Real,
    pub auto_orient: bool,
    pub auto_crop: bool,
    pub white_balance: bool,
    pub sharpen_amount: Real,
    pub invert: bool,
    pub auto_levels: bool,
    pub saturation: Real,
    pub hue: Real,
    pub curves: Option<Seq<(int, int)>>,
    pub infrared_clean: Option<Seq<char>>,
    pub descreen: bool,
    pub descreen_dpi: i32,
    pub restore_colors: bool,
    pub restore_fading: bool,
    pub grain_reduction: Option<Seq<char>>,
    pub flatten: bool,
    pub hole_punch: bool,
    pub colorize_mode: Option<Seq<char>>,
    pub film_type: Option<Seq<char>>,
}

/// The text in an option.
pub open spec fn opt_text(o: Option<String>) -> Option<Seq<char>> {
    match o {
        Some(text) => Some(text@),
        None => None,
    }
}

/// The points that a vector holds.
pub open spec fn pairs_of(points: Seq<[i32; 2]>) -> Seq<(int, int)> {
    points.map_values(|p: [i32; 2]| (p[0] as int, p[1] as int))
}

/// The points in an option.
pub open spec fn opt_points(o: Option<Vec<[i32; 2]>>) -> Option<Seq<(int, int)>> {
    match o {
        Some(points) => Some(pairs_of(points@)),
        None => None,
    }
}

/// Copies an optional text.
pub fn copy_opt(o: &Option<String>) -> (r: Option<String>)
    ensures
        opt_text(r) == opt_text(*o),
{
    match o {
        Some(text) => Some(text.clone()),
        None => None,
    }
}

/// Copies optional points.
pub fn copy_points(o: &Option<Vec<[i32; 2]>>) -> (r: Option<Vec<[i32; 2]>>)
    ensures
        opt_points(r) == opt_points(*o),
{
    match o {
        Some(points) => Some(vstd::slice::slice_to_vec(points.as_slice())),
        None => None,
    }
}

impl View for PipelinePrefs {
    type V = Prefs;

    open spec fn view(&self) -> Prefs {
        Prefs {
            rotate: self.rotate,
            flip_h: self.flip_h,
            flip_v: self.flip_v,
            crop: self.crop,
            brightness: self.brightness,
            contrast: self.contrast,
            desaturate: self.desaturate,
            levels_black: self.levels_black,
            levels_white: self.levels_white,
            levels_gamma: self.levels_gamma,
            auto_deskew: self.auto_deskew,
            deskew_angle: self.deskew_angle,
            auto_orient: self.auto_orient,
            auto_crop: self.auto_crop,
            white_balance: self.white_balance,
            sharpen_amount: self.sharpen_amount,
            invert: self.invert,
            auto_levels: self.auto_levels,
            saturation: self.saturation,
            hue: self.hue,
            curves: opt_points(self.curves),
            infrared_clean: opt_text(self.infrared_clean),
            descreen: self.descreen,
            descreen_dpi: self.descreen_dpi,
            restore_colors: self.restore_colors,
            restore_fading: self.restore_fading,
            grain_reduction: opt_text(self.grain_reduction),
            flatten: self.flatten,
            hole_punch: self.hole_punch,
            colorize_mode: opt_text(self.colorize_mode),
            film_type: opt_text(self.film_type),
        }
    }
}

/// The plan that changes nothing.
pub open spec fn plain_prefs() -> Prefs {
    Prefs {
        rotate: Rotate::R0,
        flip_h: false,
        flip_v: false,
        crop: None,
        brightness: 0,
        contrast: 0,
        desaturate: false,
        levels_black: 0,
        levels_white: 255,
        levels_gamma: real_one(),
        auto_deskew: false,
        deskew_angle: real_zero(),
        auto_orient: false,
        auto_crop: false,
        white_balance: false,
        sharpen_amount: real_zero(),
        invert: false,
        auto_levels: false,
        saturation: real_zero(),
        hue: real_zero(),
        curves: None,
        infrared_clean: None,
        descreen: false,
        descreen_dpi: 75,
        restore_colors: false,
        restore_fading: false,
        grain_reduction: None,
        flatten: false,
        hole_punch: false,
        colorize_mode: None,
        film_type: None,
    }
}

impl Default for PipelinePrefs {
    fn default() -> (r: Self)
        ensures
            r@ == plain_prefs(),
    {
        PipelinePrefs {
            rotate: Rotate::R0,
            flip_h: false,
            flip_v: false,
            crop: None,
            brightness: 0,
            contrast: 0,
            desaturate: false,
            levels_black: 0,
            levels_white: 255,
            levels_gamma: Real { bits: ONE_BITS },
            auto_deskew: false,
            deskew_angle: Real { bits: 0 },
            auto_orient: false,
            auto_crop: false,
            white_balance: false,
            sharpen_amount: Real { bits: 0 },
            invert: false,
            auto_levels: false,
            saturation: Real { bits: 0 },
            hue: Real { bits: 0 },
            curves: None,
            infrared_clean: None,
            descreen: false,
            descreen_dpi: 75,
            restore_colors: false,
            restore_fading: false,
            grain_reduction: None,
            flatten: false,
            hole_punch: false,
            colorize_mode: None,
            film_type: None,
        }
    }
}

impl Clone for PipelinePrefs {
    fn clone(&self) -> (r: Self)
        ensures
            r@ == self@,
    {
        PipelinePrefs {
            rotate: self.rotate,
            flip_h: self.flip_h,
            flip_v: self.flip_v,
            crop: self.crop,
            brightness: self.brightness,
            contrast: self.contrast,
            desaturate: self.desaturate,
            levels_black: self.levels_black,
            levels_white: self.levels_white,
            levels_gamma: self.levels_gamma,
            auto_deskew: self.auto_deskew,
            deskew_angle: self.deskew_angle,
            auto_orient: self.auto_orient,
            auto_crop: self.auto_crop,
            white_balance: self.white_balance,
            sharpen_amount: self.sharpen_amount,
            invert: self.invert,
            auto_levels: self.auto_levels,
            saturation: self.saturation,
            hue: self.hue,
            curves: copy_points(&self.curves),
            infrared_clean: copy_opt(&self.infrared_clean),
            descreen: self.descreen,
            descreen_dpi: self.descreen_dpi,
            restore_colors: self.restore_colors,
            restore_fading: self.restore_fading,
            grain_reduction: copy_opt(&self.grain_reduction),
            flatten: self.flatten,
            hole_punch: self.hole_punch,
            colorize_mode: copy_opt(&self.colorize_mode),
            film_type: copy_opt(&self.film_type),
        }
    }
}

// ---------------------------------------------------------------------------
// Auto-crop
// ---------------------------------------------------------------------------

/// A content rectangle. Where content was found, `areas` holds its area and the image's, from which
/// the confidence follows; without content the confidence is zero.
#[derive(Debug)]
pub struct AutoCropResult {
    pub rect: Rect,
    pub areas: Option<(u32, u32)>,
    pub method: String,
}

/// Whether the pixel in column `x` of row `y` is darker than a threshold.
pub open spec fn is_dark(p: Picture, threshold: int, x: int, y: int) -> bool {
    luma_plane(p)[y * p.width + x] < threshold
}

/// The threshold as a byte.
pub open spec fn clamp_byte(v: int) -> int {
    if v < 0 {
        0
    } else if v > 255 {
        255
    } else {
        v
    }
}

/// Whether no pixel is darker than the threshold.
pub open spec fn is_blank(p: Picture, threshold: int) -> bool {
    forall|x: int, y: int|
        0 <= x < p.width && 0 <= y < p.height ==> !#[trigger] is_dark(p, threshold, x, y)
}

/// Columns `x0` to `x1` and rows `y0` to `y1` bound the dark pixels: none lies outside, and each
/// side is touched.
pub open spec fn bounds_dark(
    p: Picture,
    threshold: int,
    x0: int,
    y0: int,
    x1: int,
    y1: int,
) -> bool {
    &&& forall|x: int, y: int|
        0 <= x < p.width && 0 <= y < p.height && #[trigger] is_dark(p, threshold, x, y) ==> x0 <= x
            <= x1 && y0 <= y <= y1
    &&& exists|y: int| 0 <= y < p.height && #[trigger] is_dark(p, threshold, x0, y)
    &&& exists|y: int| 0 <= y < p.height && #[trigger] is_dark(p, threshold, x1, y)
    &&& exists|x: int| 0 <= x < p.width && #[trigger] is_dark(p, threshold, x, y0)
    &&& exists|x: int| 0 <= x < p.width && #[trigger] is_dark(p, threshold, x, y1)
    &&& 0 <= x0 < p.width
    &&& 0 <= x1 < p.width
    &&& 0 <= y0 < p.height
    &&& 0 <= y1 < p.height
}

/// The larger of two numbers.
pub open spec fn larger(a: int, b: int) -> int {
    if a > b {
        a
    } else {
        b
    }
}

/// The smaller of two numbers.
pub open spec fn smaller(a: int, b: int) -> int {
    if a < b {
        a
    } else {
        b
    }
}

/// The rectangle that bounds given columns and rows, widened by a margin within the image.
pub open spec fn widened(
    p: Picture,
    margin: int,
    x0: int,
    y0: int,
    x1: int,
    y1: int,
) -> Rect {
    let left = larger(x0 - margin, 0);
    let top = larger(y0 - margin, 0);
    let right = smaller(x1 + margin, p.width - 1);
    let bottom = smaller(y1 + margin, p.height - 1);
    Rect {
        x: left as i32,
        y: top as i32,
        width: larger(right - left + 1, 1) as u32,
        height: larger(bottom - top + 1, 1) as u32,
    }
}

/// The rectangle is the content's bounding box at a threshold, widened by a margin.
pub open spec fn is_content_rect(p: Picture, threshold: int, margin: int, rect: Rect) -> bool {
    exists|x0: int, y0: int, x1: int, y1: int|
        #[trigger] bounds_dark(p, clamp_byte(threshold), x0, y0, x1, y1) && rect == widened(
            p,
            margin,
            x0,
            y0,
            x1,
            y1,
        )
}

/// The lowest margin for which the rectangle's width can be computed.
pub const MIN_MARGIN: i32 = -1_073_741_824;

/// The highest margin for which the rectangle's far edge can be computed.
pub const MAX_MARGIN: i32 = 2_147_418_113;

/// Content-aware bounding box.
pub fn auto_crop_bounds(image: &ImageBuffer, threshold: i32, margin: i32) -> (r: AutoCropResult)
    requires
        image@.wf(),
        MIN_MARGIN <= margin <= MAX_MARGIN,
    ensures
        is_blank(image@, clamp_byte(threshold as int)) ==> r.rect == (Rect {
            x: 0,
            y: 0,
            width: image.width,
            height: image.height,
        }) && r.areas is None && r.method@ == "full-frame-empty"@,
        !is_blank(image@, clamp_byte(threshold as int)) ==> is_content_rect(
            image@,
            threshold as int,
            margin as int,
            r.rect,
        ) && r.areas == Some(
            ((r.rect.width * r.rect.height) as u32, (image.width * image.height) as u32),
        ) && r.method@ == "luma-threshold-bbox"@,
{
    let (width, height, gray) = image_to_luma8(image);
    let limit: u8 = if threshold < 0 {
        0
    } else if threshold > 255 {
        255
    } else {
        threshold as u8
    };
    proof {
        lemma_wf(image@);
        lemma_plane(image@);
    }
    let ghost p = image@;
    let w: usize = width as usize;
    let h: usize = height as usize;
    let mut found = false;
    let mut min_x: usize = w;
    let mut min_y: usize = h;
    let mut max_x: usize = 0;
    let mut max_y: usize = 0;
    let mut y: usize = 0;
    while y < h
        invariant
            p == image@,
            p.wf(),
            w == p.width,
            h == p.height,
            0 < w <= 65535,
            0 < h <= 65535,
            limit == clamp_byte(threshold as int),
            gray@ == luma_plane(p),
            gray@.len() == w * h,
            w * h <= 536870912,
            y <= h,
            forall|a: int, b: int|
                0 <= a < w && 0 <= b < y && #[trigger] is_dark(p, limit as int, a, b) ==> found
                    && min_x <= a <= max_x && min_y <= b <= max_y,
            found ==> bounds_dark_within(
                p,
                limit as int,
                min_x as int,
                min_y as int,
                max_x as int,
                max_y as int,
            ),
        decreases h - y,
    {
        let mut x: usize = 0;
        while x < w
            invariant
                p == image@,
                p.wf(),
                w == p.width,
                h == p.height,
                0 < w <= 65535,
                0 < h <= 65535,
                limit == clamp_byte(threshold as int),
                gray@ == luma_plane(p),
                gray@.len() == w * h,
                w * h <= 536870912,
                y < h,
                x <= w,
                forall|a: int, b: int|
                    0 <= a < w && (0 <= b < y || b == y && a < x) && #[trigger] is_dark(
                        p,
                        limit as int,
                        a,
                        b,
                    ) ==> found && min_x <= a <= max_x && min_y <= b <= max_y,
                found ==> bounds_dark_within(
                    p,
                    limit as int,
                    min_x as int,
                    min_y as int,
                    max_x as int,
                    max_y as int,
                ),
            decreases w - x,
        {
            proof {
                lemma_place(w as int, h as int, 1, x as int, y as int, 0);
            }
            if gray[y * w + x] < limit {
                assert(is_dark(p, limit as int, x as int, y as int));
                if !found {
                    min_x = x;
                    max_x = x;
                    min_y = y;
                    max_y = y;
                    found = true;
                } else {
                    if x < min_x {
                        min_x = x;
                    }
                    if x > max_x {
                        max_x = x;
                    }
                    if y < min_y {
                        min_y = y;
                    }
                    if y > max_y {
                        max_y = y;
                    }
                }
            }
            x += 1;
        }
        y += 1;
    }
    if !found {
        return AutoCropResult {
            rect: Rect::new(0, 0, width, height),
            areas: None,
            method: "full-frame-empty".to_owned(),
        };
    }
    proof {
        assert(bounds_dark(
            p,
            limit as int,
            min_x as int,
            min_y as int,
            max_x as int,
            max_y as int,
        ));
        let b = choose|b: int| 0 <= b < h && #[trigger] is_dark(p, limit as int, min_x as int, b);
        assert(is_dark(p, limit as int, min_x as int, b));
    }
    let left: i32 = if min_x as i32 - margin > 0 {
        min_x as i32 - margin
    } else {
        0
    };
    let top: i32 = if min_y as i32 - margin > 0 {
        min_y as i32 - margin
    } else {
        0
    };
    let right: i32 = if max_x as i32 + margin < width as i32 - 1 {
        max_x as i32 + margin
    } else {
        width as i32 - 1
    };
    let bottom: i32 = if max_y as i32 + margin < height as i32 - 1 {
        max_y as i32 + margin
    } else {
        height as i32 - 1
    };
    let crop_width: u32 = if right - left + 1 > 1 {
        (right - left + 1) as u32
    } else {
        1
    };
    let crop_height: u32 = if bottom - top + 1 > 1 {
        (bottom - top + 1) as u32
    } else {
        1
    };
    let rect = Rect::new(left, top, crop_width, crop_height);
    proof {
        assert(rect == widened(
            p,
            margin as int,
            min_x as int,
            min_y as int,
            max_x as int,
            max_y as int,
        ));
        assert(crop_width * crop_height <= 65535 * 65535) by (nonlinear_arith)
            requires
                crop_width <= 65535,
                crop_height <= 65535,
        ;
    }
    AutoCropResult {
        rect,
        areas: Some((crop_width * crop_height, width * height)),
        method: "luma-threshold-bbox".to_owned(),
    }
}

/// Columns and rows that dark pixels touch on each side.
spec fn bounds_dark_within(
    p: Picture,
    threshold: int,
    x0: int,
    y0: int,
    x1: int,
    y1: int,
) -> bool {
    &&& exists|y: int| 0 <= y < p.height && #[trigger] is_dark(p, threshold, x0, y)
    &&& exists|y: int| 0 <= y < p.height && #[trigger] is_dark(p, threshold, x1, y)
    &&& exists|x: int| 0 <= x < p.width && #[trigger] is_dark(p, threshold, x, y0)
    &&& exists|x: int| 0 <= x < p.width && #[trigger] is_dark(p, threshold, x, y1)
    &&& 0 <= x0 <= x1 < p.width
    &&& 0 <= y0 <= y1 < p.height
}

/// The luma plane of an acceptable picture has one byte per pixel.
pub proof fn lemma_plane(p: Picture)
    requires
        p.wf(),
    ensures
        luma_plane(p).len() == p.width * p.height,
{
    lemma_wf(p);
    let n = p.width * p.height;
    if p.pixel_format != PixelFormat::Gray8 {
        let b = p.pixel_format.spec_bpp();
        assert((n * b) / b == n) by (nonlinear_arith)
            requires
                b > 0,
                n >= 0,
        ;
    }
}

/// The bounds of the dark pixels are unique.
pub proof fn content_bounds_are_unique(
    p: Picture,
    threshold: int,
    a: (int, int, int, int),
    b: (int, int, int, int),
)
    requires
        bounds_dark(p, threshold, a.0, a.1, a.2, a.3),
        bounds_dark(p, threshold, b.0, b.1, b.2, b.3),
    ensures
        a == b,
{
}

/// With a margin that is not negative, the content rectangle lies inside the image and every dark
/// pixel lies inside the rectangle.
pub proof fn content_rect_holds_content(
    p: Picture,
    threshold: int,
    margin: int,
    rect: Rect,
    x: int,
    y: int,
)
    requires
        p.wf(),
        0 <= margin,
        is_content_rect(p, threshold, margin, rect),
        0 <= x < p.width,
        0 <= y < p.height,
    ensures
        0 <= rect.x,
        0 <= rect.y,
        0 < rect.width,
        0 < rect.height,
        rect.x + rect.width <= p.width,
        rect.y + rect.height <= p.height,
        is_dark(p, clamp_byte(threshold), x, y) ==> rect.x <= x < rect.x + rect.width && rect.y <= y
            < rect.y + rect.height,
{
    let (x0, y0, x1, y1) = choose|x0: int, y0: int, x1: int, y1: int|
        #[trigger] bounds_dark(p, clamp_byte(threshold), x0, y0, x1, y1) && rect == widened(
            p,
            margin,
            x0,
            y0,
            x1,
            y1,
        );
    lemma_wf(p);
    let b = choose|b: int| 0 <= b < p.height && #[trigger] is_dark(p, clamp_byte(threshold), x0, b);
    assert(x0 <= x1);
    let c = choose|c: int| 0 <= c < p.width && #[trigger] is_dark(p, clamp_byte(threshold), c, y0);
    assert(y0 <= y1);
}

/// A content rectangle is exact: it reaches the margin beyond every dark pixel as far as the picture
/// goes, and on each side it ends there for one of them.
#[verifier::spinoff_prover]
#[verifier::rlimit(60)]
pub proof fn content_rects_are_exact(
    p: Picture,
    threshold: int,
    margin: int,
    rect: Rect,
)
    requires
        p.wf(),
        0 <= margin,
        is_content_rect(p, threshold, margin, rect),
    ensures
        forall|x: int, y: int|
            0 <= x < p.width && 0 <= y < p.height && #[trigger] is_dark(p, clamp_byte(threshold), x, y)
                ==> {
                &&& rect.x <= x - margin || rect.x == 0
                &&& rect.y <= y - margin || rect.y == 0
                &&& x + margin < rect.x + rect.width || rect.x + rect.width == p.width
                &&& y + margin < rect.y + rect.height || rect.y + rect.height == p.height
            },
        exists|x: int, y: int|
            0 <= x < p.width && 0 <= y < p.height && #[trigger] is_dark(p, clamp_byte(threshold), x, y)
                && (rect.x == x - margin || (rect.x == 0 && x <= margin)),
        exists|x: int, y: int|
            0 <= x < p.width && 0 <= y < p.height && #[trigger] is_dark(p, clamp_byte(threshold), x, y)
                && (rect.y == y - margin || (rect.y == 0 && y <= margin)),
        exists|x: int, y: int|
            0 <= x < p.width && 0 <= y < p.height && #[trigger] is_dark(p, clamp_byte(threshold), x, y)
                && (rect.x + rect.width == x + margin + 1 || (rect.x + rect.width == p.width && x
                + margin + 1 >= p.width)),
        exists|x: int, y: int|
            0 <= x < p.width && 0 <= y < p.height && #[trigger] is_dark(p, clamp_byte(threshold), x, y)
                && (rect.y + rect.height == y + margin + 1 || (rect.y + rect.height == p.height && y
                + margin + 1 >= p.height)),
{
    let t = clamp_byte(threshold);
    let (x0, y0, x1, y1) = choose|x0: int, y0: int, x1: int, y1: int|
        #[trigger] bounds_dark(p, t, x0, y0, x1, y1) && rect == widened(p, margin, x0, y0, x1, y1);
    lemma_wf(p);
    let a = choose|y: int| 0 <= y < p.height && #[trigger] is_dark(p, t, x0, y);
    let b = choose|y: int| 0 <= y < p.height && #[trigger] is_dark(p, t, x1, y);
    let c = choose|x: int| 0 <= x < p.width && #[trigger] is_dark(p, t, x, y0);
    let d = choose|x: int| 0 <= x < p.width && #[trigger] is_dark(p, t, x, y1);
    assert(x0 <= x1 && y0 <= y1);
    assert(is_dark(p, t, x0, a));
    assert(is_dark(p, t, x1, b));
    assert(is_dark(p, t, c, y0));
    assert(is_dark(p, t, d, y1));
}

/// The picture cropped to its content, where the rectangle found is smaller than the picture.
pub open spec fn auto_cropped(p: Picture, rect: Rect) -> Result<Picture, Failure> {
    if rect.width == p.width && rect.height == p.height {
        Ok(p)
    } else {
        cropped(p, rect)
    }
}

/// Whether a picture cropped to its content at a threshold with a margin gives an outcome. A picture
/// without content is left as it is.
pub open spec fn is_auto_crop(
    p: Picture,
    threshold: int,
    margin: int,
    outcome: Result<Picture, Failure>,
) -> bool {
    if is_blank(p, clamp_byte(threshold)) {
        outcome == Ok::<Picture, Failure>(p)
    } else {
        exists|rect: Rect|
            #[trigger] is_content_rect(p, threshold, margin, rect) && outcome == auto_cropped(
                p,
                rect,
            )
    }
}

/// Applies auto-crop at threshold 240 with a margin of 2 pixels.
pub fn apply_auto_crop(image: &ImageBuffer) -> (r: Result<ImageBuffer, ScanError>)
    requires
        image@.wf(),
    ensures
        r is Ok,
        is_auto_crop(image@, 240, 2, outcome_view(r)),
        r->Ok_0@.wf(),
{
    let r = apply_auto_crop_with_params(image, 240, 2);
    proof {
        if !is_blank(image@, 240) {
            let rect = choose|rect: Rect|
                #[trigger] is_content_rect(image@, 240, 2, rect) && outcome_view(r) == auto_cropped(
                    image@,
                    rect,
                );
            lemma_wf(image@);
            content_rect_holds_content(image@, 240, 2, rect, 0, 0);
        }
    }
    r
}

/// Applies auto-crop at a threshold with a margin.
pub fn apply_auto_crop_with_params(image: &ImageBuffer, threshold: i32, margin: i32) -> (r: Result<
    ImageBuffer,
    ScanError,
>)
    requires
        image@.wf(),
        MIN_MARGIN <= margin <= MAX_MARGIN,
    ensures
        is_auto_crop(image@, threshold as int, margin as int, outcome_view(r)),
        r is Ok ==> r->Ok_0@.wf(),
{
    let result = auto_crop_bounds(image, threshold, margin);
    if result.rect.width == image.width && result.rect.height == image.height {
        return Ok(image.clone());
    }
    crop(image, result.rect)
}

/// A pixel of a crop is as dark as the pixel that it was taken from.
proof fn lemma_crop_keeps_dark(p: Picture, q: Picture, rect: Rect, threshold: int, x: int, y: int)
    requires
        p.wf(),
        cropped(p, rect) == Ok::<Picture, Failure>(q),
        0 <= x < q.width,
        0 <= y < q.height,
    ensures
        is_dark(q, threshold, x, y) == is_dark(p, threshold, rect.x + x, rect.y + y),
{
    let b = p.pixel_format.spec_bpp();
    let m = Mapping::Crop { left: rect.x as u32, top: rect.y as u32 };
    lemma_wf(p);
    lemma_smaller(p, q.width as int, q.height as int);
    lemma_plane(p);
    lemma_plane(q);
    assert forall|c: int| 0 <= c < b implies #[trigger] q.at(x, y, c) == p.at(
        rect.x + x,
        rect.y + y,
        c,
    ) by {
        lemma_remapped_at(p, m, q, x, y, c);
    }
    lemma_place(p.width as int, p.height as int, b, rect.x + x, rect.y + y, 0);
    lemma_place(q.width as int, q.height as int, b, x, y, 0);
    assert(q.at(x, y, 0) == p.at(rect.x + x, rect.y + y, 0));
    if p.pixel_format != PixelFormat::Gray8 {
        assert(q.at(x, y, 1) == p.at(rect.x + x, rect.y + y, 1));
        assert(q.at(x, y, 2) == p.at(rect.x + x, rect.y + y, 2));
    }
}

/// Cropping a picture to its content twice, at one threshold and with one margin that is not
/// negative, is cropping it once.
pub proof fn auto_crop_is_idempotent(
    p: Picture,
    threshold: int,
    margin: int,
    once: Picture,
    twice: Result<Picture, Failure>,
)
    requires
        p.wf(),
        0 <= margin,
        is_auto_crop(p, threshold, margin, Ok(once)),
        is_auto_crop(once, threshold, margin, twice),
    ensures
        twice == Ok::<Picture, Failure>(once),
{
    let t = clamp_byte(threshold);
    if !is_blank(p, t) {
        let rect = choose|rect: Rect|
            #[trigger] is_content_rect(p, threshold, margin, rect) && Ok::<Picture, Failure>(once)
                == auto_cropped(p, rect);
        let (x0, y0, x1, y1) = choose|x0: int, y0: int, x1: int, y1: int|
            #[trigger] bounds_dark(p, t, x0, y0, x1, y1) && rect == widened(
                p,
                margin,
                x0,
                y0,
                x1,
                y1,
            );
        lemma_wf(p);
        content_rect_holds_content(p, threshold, margin, rect, 0, 0);
        let (left, top) = if once == p {
            (0int, 0int)
        } else {
            (rect.x as int, rect.y as int)
        };
        let a = (x0 - left, y0 - top, x1 - left, y1 - top);
        assert(bounds_dark(once, t, a.0, a.1, a.2, a.3)) by {
            if once != p {
                lemma_crop_bounds(p, threshold, margin, rect, once, (x0, y0, x1, y1));
            }
        }
        let dark = choose|y: int| 0 <= y < once.height && #[trigger] is_dark(once, t, a.0, y);
        assert(is_dark(once, t, a.0, dark));
        let again = choose|again: Rect|
            #[trigger] is_content_rect(once, threshold, margin, again) && twice == auto_cropped(
                once,
                again,
            );
        let (u0, v0, u1, v1) = choose|u0: int, v0: int, u1: int, v1: int|
            #[trigger] bounds_dark(once, t, u0, v0, u1, v1) && again == widened(
                once,
                margin,
                u0,
                v0,
                u1,
                v1,
            );
        content_bounds_are_unique(once, t, a, (u0, v0, u1, v1));
    }
}

/// Nothing is darker than a threshold that is not positive, so that such a crop changes nothing.
pub proof fn auto_crop_needs_a_threshold(
    p: Picture,
    threshold: int,
    margin: int,
    outcome: Result<Picture, Failure>,
)
    requires
        threshold <= 0,
        is_auto_crop(p, threshold, margin, outcome),
    ensures
        outcome == Ok::<Picture, Failure>(p),
{
    assert(is_blank(p, clamp_byte(threshold)));
}

/// The bounds of the dark pixels of a crop to content are those of the whole picture, counted from
/// the crop's corner.
proof fn lemma_crop_bounds(
    p: Picture,
    threshold: int,
    margin: int,
    rect: Rect,
    q: Picture,
    a: (int, int, int, int),
)
    requires
        p.wf(),
        0 <= margin,
        bounds_dark(p, clamp_byte(threshold), a.0, a.1, a.2, a.3),
        rect == widened(p, margin, a.0, a.1, a.2, a.3),
        cropped(p, rect) == Ok::<Picture, Failure>(q),
    ensures
        bounds_dark(
            q,
            clamp_byte(threshold),
            a.0 - rect.x,
            a.1 - rect.y,
            a.2 - rect.x,
            a.3 - rect.y,
        ),
{
    let t = clamp_byte(threshold);
    let left = rect.x as int;
    let top = rect.y as int;
    lemma_wf(p);
    assert forall|x: int, y: int|
        0 <= x < q.width && 0 <= y < q.height implies #[trigger] is_dark(q, t, x, y) == is_dark(
        p,
        t,
        left + x,
        top + y,
    ) by {
        lemma_crop_keeps_dark(p, q, rect, t, x, y);
    }
    let by0 = choose|y: int| 0 <= y < p.height && #[trigger] is_dark(p, t, a.0, y);
    let by1 = choose|y: int| 0 <= y < p.height && #[trigger] is_dark(p, t, a.2, y);
    let bx0 = choose|x: int| 0 <= x < p.width && #[trigger] is_dark(p, t, x, a.1);
    let bx1 = choose|x: int| 0 <= x < p.width && #[trigger] is_dark(p, t, x, a.3);
    assert(a.0 <= bx0 <= a.2 && a.1 <= by0 <= a.3);
    assert(is_dark(q, t, a.0 - left, by0 - top));
    assert(is_dark(q, t, a.2 - left, by1 - top));
    assert(is_dark(q, t, bx0 - left, a.1 - top));
    assert(is_dark(q, t, bx1 - left, a.3 - top));
}

// ---------------------------------------------------------------------------
// Inversion
// ---------------------------------------------------------------------------

/// The picture with every color taken from white; how opaque a pixel is stays.
pub open spec fn inverted(p: Picture) -> Picture {
    let bpp = p.pixel_format.spec_bpp();
    Picture {
        data: Seq::new(
            p.data.len(),
            |k: int|
                if k % bpp < 3 {
                    (255 - p.data[k]) as u8
                } else {
                    p.data[k]
                },
        ),
        ..p
    }
}

/// Takes every color from white.
pub fn invert(image: &ImageBuffer) -> (r: ImageBuffer)
    requires
        image@.wf(),
    ensures
        r@ == inverted(image@),
        r@.wf(),
{
    let bpp: usize = image.bpp();
    let total: usize = image.data.len();
    let mut data: Vec<u8> = Vec::new();
    let mut k: usize = 0;
    while k < total
        invariant
            k <= total,
            total == image.data@.len(),
            bpp == image@.pixel_format.spec_bpp(),
            0 < bpp,
            data@ == inverted(image@).data.take(k as int),
        decreases total - k,
    {
        let v: u8 = image.data[k];
        if k % bpp < 3 {
            data.push(255 - v);
        } else {
            data.push(v);
        }
        k += 1;
        assert(data@ =~= inverted(image@).data.take(k as int));
    }
    assert(data@ =~= inverted(image@).data);
    ImageBuffer { width: image.width, height: image.height, pixel_format: image.pixel_format, data }
}

/// Inversion undoes itself.
pub proof fn inversion_undoes_itself(p: Picture)
    ensures
        inverted(inverted(p)) == p,
{
    assert(inverted(inverted(p)).data =~= p.data);
}

// ---------------------------------------------------------------------------
// Orientation
// ---------------------------------------------------------------------------

/// A cardinal orientation. The confidence is the dominant gradient energy over the total, plus a
/// tenth where the page was found upside down; it is zero where `total` is zero.
#[derive(Debug)]
pub struct OrientationResult {
    pub degrees: i32,
    pub dominant: u64,
    pub total: u64,
    pub upside_down: bool,
    pub method: String,
}

/// The distance of two bytes.
pub open spec fn byte_distance(a: u8, b: u8) -> int {
    if a > b {
        a - b
    } else {
        b - a
    }
}

/// The gradient energy of row `y` in columns 1 to `x - 1`, between neighbours `step` bytes away.
pub open spec fn row_energy(plane: Seq<u8>, w: int, step: int, y: int, x: int) -> int
    decreases x,
{
    if x <= 1 {
        0
    } else {
        let i = y * w + x - 1;
        row_energy(plane, w, step, y, x - 1) + byte_distance(plane[i + step], plane[i - step])
    }
}

/// The gradient energy of rows 1 to `y - 1`, without the outermost columns.
pub open spec fn energy(plane: Seq<u8>, w: int, step: int, y: int) -> int
    decreases y,
{
    if y <= 1 {
        0
    } else {
        energy(plane, w, step, y - 1) + row_energy(plane, w, step, y - 1, w - 1)
    }
}

/// The sum of `n` bytes from a start.
pub open spec fn byte_sum(plane: Seq<u8>, start: int, n: int) -> int
    decreases n,
{
    if n <= 0 {
        0
    } else {
        byte_sum(plane, start, n - 1) + plane[start + n - 1]
    }
}

/// The integer nearest to a fraction; of two that are equally near, the even one.
pub open spec fn nearest(num: int, den: int) -> int {
    let below = num / den;
    let rest = num % den;
    if 2 * rest > den || 2 * rest == den && below % 2 == 1 {
        below + 1
    } else {
        below
    }
}

/// The smallest significand of a binary64 number that has all its bits.
pub const FULL_SIGNIFICAND: u64 = 0x10_0000_0000_0000;

/// The binary64 number nearest to a fraction of `unit`, as a significand of 53 bits and the unit of
/// which it is a fraction.
pub open spec fn binary64(num: int, den: int, unit: int) -> (int, int)
    decreases 2 * (FULL_SIGNIFICAND * den) - num,
{
    if num <= 0 || num >= FULL_SIGNIFICAND * den {
        (nearest(num, den), unit)
    } else {
        binary64(2 * num, den, 2 * unit)
    }
}

/// Whether the mean of `n` bytes is less than that of `n` others by more than 8, both means being
/// binary64 numbers.
pub open spec fn is_darker(dark_sum: int, bright_sum: int, n: int) -> bool {
    let dark = binary64(dark_sum, n, 1);
    let bright = binary64(bright_sum, n, 1);
    dark.0 * bright.1 < (bright.0 - 8 * bright.1) * dark.1
}

/// The detected orientation: upright where the horizontal gradient dominates, unless the top row is
/// darker than the bottom row by more than 8 levels on average; else a quarter turn.
pub open spec fn detected_degrees(p: Picture) -> int {
    let plane = luma_plane(p);
    let w = p.width as int;
    let h = p.height as int;
    if w < 3 || h < 3 {
        0
    } else if energy(plane, w, 1, h - 1) < energy(plane, w, w, h - 1) {
        90
    } else if is_darker(byte_sum(plane, 0, w), byte_sum(plane, (h - 1) * w, w), w) {
        180
    } else {
        0
    }
}

fn distance_of(a: u8, b: u8) -> (r: u64)
    ensures
        r == byte_distance(a, b),
        r <= 255,
{
    if a > b {
        (a - b) as u64
    } else {
        (b - a) as u64
    }
}

fn sum_bytes(plane: &Vec<u8>, start: usize, n: usize) -> (r: u64)
    requires
        start + n <= plane@.len(),
        n <= 65535,
    ensures
        r == byte_sum(plane@, start as int, n as int),
{
    let mut total: u64 = 0;
    let mut i: usize = 0;
    let bytes: usize = plane.len();
    while i < n
        invariant
            i <= n,
            n <= 65535,
            bytes == plane@.len(),
            start + n <= bytes,
            total == byte_sum(plane@, start as int, i as int),
            total <= 255 * i,
        decreases n - i,
    {
        total = total + plane[start + i] as u64;
        i += 1;
    }
    total
}

fn energy_of(plane: &Vec<u8>, w: usize, h: usize, step: usize) -> (r: u64)
    requires
        3 <= w <= 65535,
        3 <= h <= 65535,
        step == 1 || step == w,
        plane@.len() == w * h,
        w * h <= 536870912,
    ensures
        r == energy(plane@, w as int, step as int, h - 1),
        r <= 255 * 65535 * 65535,
{
    let mut total: u64 = 0;
    let mut y: usize = 1;
    let bytes: usize = plane.len();
    while y < h - 1
        invariant
            3 <= w <= 65535,
            3 <= h <= 65535,
            step == 1 || step == w,
            bytes == plane@.len(),
            bytes == w * h,
            w * h <= 536870912,
            1 <= y <= h - 1,
            total == energy(plane@, w as int, step as int, y as int),
            total <= (y - 1) * 16711425,
        decreases h - y,
    {
        let mut row: u64 = 0;
        let mut x: usize = 1;
        while x < w - 1
            invariant
                3 <= w <= 65535,
                3 <= h <= 65535,
                step == 1 || step == w,
                bytes == plane@.len(),
                bytes == w * h,
                w * h <= 536870912,
                1 <= y < h - 1,
                1 <= x <= w - 1,
                row == row_energy(plane@, w as int, step as int, y as int, x as int),
                row <= (x - 1) * 255,
            decreases w - x,
        {
            proof {
                lemma_place(w as int, h as int, 1, x as int, y as int, 0);
                lemma_place(w as int, h as int, 1, x as int, y - 1, 0);
                lemma_place(w as int, h as int, 1, x as int, y + 1, 0);
                assert((y - 1) * w + x == y * w + x - w) by (nonlinear_arith);
                assert((y + 1) * w + x == y * w + x + w) by (nonlinear_arith);
            }
            let i: usize = y * w + x;
            row = row + distance_of(plane[i + step], plane[i - step]);
            x += 1;
        }
        total = total + row;
        y += 1;
    }
    total
}

/// The mean of `n` bytes as a binary64 number: a significand and the unit of which it is a fraction.
fn mean_of(sum: u64, n: u64) -> (r: (u128, u128))
    requires
        0 < n <= 65535,
        sum <= 255 * n,
    ensures
        (r.0 as int, r.1 as int) == binary64(sum as int, n as int, 1),
        r.0 <= 2 * FULL_SIGNIFICAND,
        0 < r.1 <= 2 * FULL_SIGNIFICAND * 65535,
{
    let den: u128 = n as u128;
    let full: u128 = FULL_SIGNIFICAND as u128 * den;
    let mut num: u128 = sum as u128;
    let mut unit: u128 = 1;
    while 0 < num && num < full
        invariant
            full == FULL_SIGNIFICAND * den,
            den == n,
            0 < den <= 65535,
            num < 2 * full,
            unit > 0,
            sum > 0 ==> unit <= num,
            sum == 0 ==> unit == 1 && num == 0,
            binary64(num as int, den as int, unit as int) == binary64(sum as int, n as int, 1),
        decreases 2 * full - num,
    {
        num = 2 * num;
        unit = 2 * unit;
    }
    let below: u128 = num / den;
    let rest: u128 = num % den;
    assert(below < 2 * FULL_SIGNIFICAND) by (nonlinear_arith)
        requires
            below == num / den,
            num < 2 * (FULL_SIGNIFICAND * den),
            den > 0,
    ;
    let up = 2 * rest > den || 2 * rest == den && below % 2 == 1;
    (if up {
        below + 1
    } else {
        below
    }, unit)
}

/// Whether the mean of `n` bytes is less than that of `n` others by more than 8.
fn darker(dark_sum: u64, bright_sum: u64, n: u64) -> (r: bool)
    requires
        0 < n <= 65535,
        dark_sum <= 255 * n,
        bright_sum <= 255 * n,
    ensures
        r == is_darker(dark_sum as int, bright_sum as int, n as int),
{
    let (dark, dark_unit) = mean_of(dark_sum, n);
    let (bright, bright_unit) = mean_of(bright_sum, n);
    if bright <= 8 * bright_unit {
        assert(dark * bright_unit >= (bright - 8 * bright_unit) * dark_unit) by (nonlinear_arith)
            requires
                dark >= 0,
                bright_unit > 0,
                dark_unit > 0,
                bright <= 8 * bright_unit,
        ;
        return false;
    }
    let above: u128 = bright - 8 * bright_unit;
    assert(0 <= dark * bright_unit <= 0x20_0000_0000_0000 * 0x20_0000_0000_0000) by (
        nonlinear_arith)
        requires
            0 <= dark <= 0x20_0000_0000_0000,
            0 <= bright_unit <= 0x20_0000_0000_0000,
    ;
    assert(0 <= above * dark_unit <= 0x20_0000_0000_0000 * 0x20_0000_0000_0000_0000) by (
        nonlinear_arith)
        requires
            0 <= above <= 0x20_0000_0000_0000,
            0 <= dark_unit <= 0x20_0000_0000_0000_0000,
    ;
    dark * bright_unit < above * dark_unit
}

/// The cardinal orientation of a page.
pub fn detect_orientation(image: &ImageBuffer) -> (r: OrientationResult)
    requires
        image@.wf(),
    ensures
        r.degrees == detected_degrees(image@),
        image.width < 3 || image.height < 3 ==> r.dominant == 0 && r.total == 0 && !r.upside_down
            && r.method@ == "too-small"@,
        image.width >= 3 && image.height >= 3 ==> ({
            let plane = luma_plane(image@);
            let w = image.width as int;
            let gx = energy(plane, w, 1, image.height - 1);
            let gy = energy(plane, w, w, image.height - 1);
            r.dominant == larger(gx, gy) && r.total == gx + gy + 1 && r.upside_down == (r.degrees
                == 180) && r.method@ == "gradient-energy"@
        }),
{
    let (width, height, gray) = image_to_luma8(image);
    if width < 3 || height < 3 {
        return OrientationResult {
            degrees: 0,
            dominant: 0,
            total: 0,
            upside_down: false,
            method: "too-small".to_owned(),
        };
    }
    proof {
        lemma_wf(image@);
        lemma_plane(image@);
    }
    let w: usize = width as usize;
    let h: usize = height as usize;
    let gx: u64 = energy_of(&gray, w, h, 1);
    let gy: u64 = energy_of(&gray, w, h, w);
    let total: u64 = gx + gy + 1;
    if gx < gy {
        return OrientationResult {
            degrees: 90,
            dominant: gy,
            total,
            upside_down: false,
            method: "gradient-energy".to_owned(),
        };
    }
    proof {
        lemma_place(w as int, h as int, 1, 0, h - 1, 0);
        assert((h - 1) * w + w == w * h) by (nonlinear_arith);
    }
    let top: u64 = sum_bytes(&gray, 0, w);
    let bottom: u64 = sum_bytes(&gray, (h - 1) * w, w);
    proof {
        lemma_sum_bound(gray@, 0, w as int);
        lemma_sum_bound(gray@, (h - 1) * w, w as int);
    }
    let flipped = darker(top, bottom, w as u64);
    OrientationResult {
        degrees: if flipped {
            180
        } else {
            0
        },
        dominant: gx,
        total,
        upside_down: flipped,
        method: "gradient-energy".to_owned(),
    }
}

proof fn lemma_sum_bound(plane: Seq<u8>, start: int, n: int)
    requires
        0 <= n,
    ensures
        0 <= byte_sum(plane, start, n) <= 255 * n,
    decreases n,
{
    if n > 0 {
        lemma_sum_bound(plane, start, n - 1);
    }
}

/// Turns a page upright.
pub fn apply_orientation(image: &ImageBuffer) -> (r: Result<ImageBuffer, ScanError>)
    requires
        image@.wf(),
    ensures
        r is Ok,
        r->Ok_0@ == rotated(image@, Rotate::of_degrees(detected_degrees(image@))),
        r->Ok_0@.wf(),
{
    apply_orientation_with_degrees(image, None)
}

/// Turns a page by an angle, or by the one detected where none is given.
pub fn apply_orientation_with_degrees(image: &ImageBuffer, degrees: Option<i32>) -> (r: Result<
    ImageBuffer,
    ScanError,
>)
    requires
        image@.wf(),
    ensures
        r is Ok,
        r->Ok_0@ == rotated(
            image@,
            Rotate::of_degrees(
                match degrees {
                    Some(angle) => angle as int,
                    None => detected_degrees(image@),
                },
            ),
        ),
        r->Ok_0@.wf(),
{
    let angle: i32 = match degrees {
        Some(angle) => angle,
        None => detect_orientation(image).degrees,
    };
    let turn = Rotate::from_degrees(angle);
    rotate(image, turn)
}

/// Inversion takes each color byte of a pixel from 255 and leaves its alpha.
pub proof fn colors_are_inverted(p: Picture, x: int, y: int, c: int)
    requires
        p.wf(),
        0 <= x < p.width,
        0 <= y < p.height,
        0 <= c < p.pixel_format.spec_bpp(),
    ensures
        inverted(p).width == p.width,
        inverted(p).height == p.height,
        inverted(p).pixel_format == p.pixel_format,
        c < 3 ==> inverted(p).at(x, y, c) + p.at(x, y, c) == 255,
        c == 3 ==> inverted(p).at(x, y, c) == p.at(x, y, c),
{
    lemma_wf(p);
    lemma_place(p.width as int, p.height as int, p.pixel_format.spec_bpp(), x, y, c);
}

proof fn lemma_row_energy_zero(plane: Seq<u8>, w: int, step: int, y: int, x: int)
    requires
        forall|i: int| 1 <= i < x ==> #[trigger] plane[y * w + i + step] == plane[y * w + i - step],
    ensures
        row_energy(plane, w, step, y, x) == 0,
    decreases x,
{
    if x > 1 {
        lemma_row_energy_zero(plane, w, step, y, x - 1);
        let i = x - 1;
        assert(plane[y * w + i + step] == plane[y * w + i - step]);
    }
}

proof fn lemma_row_energy_positive(plane: Seq<u8>, w: int, step: int, y: int, x: int, at: int)
    requires
        1 <= at < x,
        plane[y * w + at + step] != plane[y * w + at - step],
    ensures
        row_energy(plane, w, step, y, x) > 0,
    decreases x,
{
    lemma_row_energy_sign(plane, w, step, y, x - 1);
    if at < x - 1 {
        lemma_row_energy_positive(plane, w, step, y, x - 1, at);
    }
}

proof fn lemma_row_energy_sign(plane: Seq<u8>, w: int, step: int, y: int, x: int)
    ensures
        row_energy(plane, w, step, y, x) >= 0,
    decreases x,
{
    if x > 1 {
        lemma_row_energy_sign(plane, w, step, y, x - 1);
    }
}

proof fn lemma_energy_sign(plane: Seq<u8>, w: int, step: int, y: int)
    ensures
        energy(plane, w, step, y) >= 0,
    decreases y,
{
    if y > 1 {
        lemma_energy_sign(plane, w, step, y - 1);
        lemma_row_energy_sign(plane, w, step, y - 1, w - 1);
    }
}

proof fn lemma_energy_positive(plane: Seq<u8>, w: int, step: int, y: int, x: int, at: int)
    requires
        1 <= x < w - 1,
        1 <= at < y,
        plane[at * w + x + step] != plane[at * w + x - step],
    ensures
        energy(plane, w, step, y) > 0,
    decreases y,
{
    lemma_row_energy_sign(plane, w, step, y - 1, w - 1);
    lemma_energy_sign(plane, w, step, y - 1);
    if at < y - 1 {
        lemma_energy_positive(plane, w, step, y - 1, x, at);
    } else {
        lemma_row_energy_positive(plane, w, step, at, w - 1, x);
    }
}

/// Whether every row of a page is of one gray.
pub open spec fn has_plain_rows(p: Picture) -> bool {
    forall|x: int, y: int|
        0 <= x < p.width && 0 <= y < p.height ==> #[trigger] luma_plane(p)[y * p.width + x]
            == luma_plane(p)[y * p.width]
}

/// Whether every column of a page is of one gray.
pub open spec fn has_plain_columns(p: Picture) -> bool {
    forall|x: int, y: int|
        0 <= x < p.width && 0 <= y < p.height ==> #[trigger] luma_plane(p)[y * p.width + x]
            == luma_plane(p)[x]
}

proof fn lemma_plain_rows(p: Picture, y: int)
    requires
        p.wf(),
        has_plain_rows(p),
        y < p.height,
    ensures
        energy(luma_plane(p), p.width as int, 1, y) == 0,
    decreases y,
{
    if y > 1 {
        let plane = luma_plane(p);
        let w = p.width as int;
        lemma_plain_rows(p, y - 1);
        assert forall|i: int| 1 <= i < w - 1 implies #[trigger] plane[(y - 1) * w + i + 1] == plane[(y
            - 1) * w + i - 1] by {
            assert(plane[(y - 1) * w + (i + 1)] == plane[(y - 1) * w]);
            assert(plane[(y - 1) * w + (i - 1)] == plane[(y - 1) * w]);
        }
        lemma_row_energy_zero(plane, w, 1, y - 1, w - 1);
    }
}

proof fn lemma_plain_columns(p: Picture, y: int)
    requires
        p.wf(),
        has_plain_columns(p),
        y < p.height,
    ensures
        energy(luma_plane(p), p.width as int, p.width as int, y) == 0,
    decreases y,
{
    if y > 1 {
        let plane = luma_plane(p);
        let w = p.width as int;
        lemma_plain_columns(p, y - 1);
        assert forall|i: int| 1 <= i < w - 1 implies #[trigger] plane[(y - 1) * w + i + w] == plane[(y
            - 1) * w + i - w] by {
            assert((y - 1) * w + i + w == y * w + i) by (nonlinear_arith);
            assert((y - 1) * w + i - w == (y - 2) * w + i) by (nonlinear_arith);
            assert(plane[y * w + i] == plane[i]);
            assert(plane[(y - 2) * w + i] == plane[i]);
        }
        lemma_row_energy_zero(plane, w, w, y - 1, w - 1);
    }
}

proof fn lemma_plain_sum(plane: Seq<u8>, start: int, n: int, v: int)
    requires
        forall|i: int| 0 <= i < n ==> #[trigger] plane[start + i] == v,
        0 <= n,
    ensures
        byte_sum(plane, start, n) == v * n,
    decreases n,
{
    if n > 0 {
        lemma_plain_sum(plane, start, n - 1, v);
        assert(plane[start + (n - 1)] == v);
        assert(v * (n - 1) + v == v * n) by (nonlinear_arith);
    } else {
        assert(v * 0 == 0);
    }
}

proof fn lemma_same_sum(plane: Seq<u8>, a: int, b: int, n: int)
    requires
        forall|i: int| 0 <= i < n ==> #[trigger] plane[a + i] == plane[b + i],
    ensures
        byte_sum(plane, a, n) == byte_sum(plane, b, n),
    decreases n,
{
    if n > 0 {
        lemma_same_sum(plane, a, b, n - 1);
        assert(plane[a + (n - 1)] == plane[b + (n - 1)]);
    }
}

proof fn lemma_binary64_unit(num: int, den: int, unit: int)
    requires
        unit > 0,
        den > 0,
    ensures
        binary64(num, den, unit).1 > 0,
    decreases 2 * (FULL_SIGNIFICAND * den) - num,
{
    if num <= 0 || num >= FULL_SIGNIFICAND * den {
    } else {
        lemma_binary64_unit(2 * num, den, 2 * unit);
    }
}

proof fn lemma_whole_mean(m: int, den: int, unit: int)
    requires
        0 <= m,
        den > 0,
        unit > 0,
    ensures
        binary64(m * den, den, unit).0 * unit == m * binary64(m * den, den, unit).1,
    decreases 2 * (FULL_SIGNIFICAND * den) - m * den,
{
    let num = m * den;
    if num <= 0 || num >= FULL_SIGNIFICAND * den {
        assert(num / den == m && num % den == 0) by (nonlinear_arith)
            requires
                num == m * den,
                den > 0,
        ;
    } else {
        assert((2 * m) * den == 2 * num) by (nonlinear_arith)
            requires
                num == m * den,
        ;
        lemma_whole_mean(2 * m, den, 2 * unit);
        let r = binary64(2 * num, den, 2 * unit);
        assert(r.0 * unit == m * r.1) by (nonlinear_arith)
            requires
                r.0 * (2 * unit) == (2 * m) * r.1,
        ;
    }
}

proof fn lemma_plain_darker(t: int, b: int, n: int)
    requires
        0 <= t,
        0 <= b,
        0 < n,
    ensures
        is_darker(t * n, b * n, n) <==> t + 8 < b,
{
    lemma_whole_mean(t, n, 1);
    lemma_whole_mean(b, n, 1);
    lemma_binary64_unit(t * n, n, 1);
    lemma_binary64_unit(b * n, n, 1);
    let dark = binary64(t * n, n, 1);
    let bright = binary64(b * n, n, 1);
    assert(dark.0 * bright.1 < (bright.0 - 8 * bright.1) * dark.1 <==> t + 8 < b) by (
        nonlinear_arith)
        requires
            dark.0 * 1 == t * dark.1,
            bright.0 * 1 == b * bright.1,
            dark.1 > 0,
            bright.1 > 0,
    {
        let u = dark.1 * bright.1;
        assert(u > 0);
        assert(dark.0 * bright.1 == t * u);
        assert((bright.0 - 8 * bright.1) * dark.1 == (b - 8) * u);
        if t + 8 < b {
            assert(t * u < (b - 8) * u);
        } else {
            assert(t * u >= (b - 8) * u);
        }
    }
}

/// A page of plain rows, of which two with one row between them differ, lies on its side.
#[verifier::spinoff_prover]
#[verifier::rlimit(60)]
pub proof fn pages_of_plain_rows_lie_on_their_side(p: Picture, y: int)
    requires
        p.wf(),
        p.width >= 3,
        1 <= y < p.height - 1,
        has_plain_rows(p),
        luma_plane(p)[(y - 1) * p.width] != luma_plane(p)[(y + 1) * p.width],
    ensures
        detected_degrees(p) == 90,
{
    let plane = luma_plane(p);
    let w = p.width as int;
    lemma_plain_rows(p, p.height - 1);
    assert((y - 1) * w + 1 == y * w + 1 - w) by (nonlinear_arith);
    assert((y + 1) * w + 1 == y * w + 1 + w) by (nonlinear_arith);
    assert(plane[(y - 1) * w + 1] == plane[(y - 1) * w]);
    assert(plane[(y + 1) * w + 1] == plane[(y + 1) * w]);
    lemma_energy_positive(plane, w, w, p.height - 1, 1, y);
}

/// A page of plain columns stands upright.
#[verifier::spinoff_prover]
#[verifier::rlimit(60)]
pub proof fn pages_of_plain_columns_stand(p: Picture)
    requires
        p.wf(),
        has_plain_columns(p),
    ensures
        detected_degrees(p) == 0,
{
    let plane = luma_plane(p);
    let w = p.width as int;
    let h = p.height as int;
    if w >= 3 && h >= 3 {
        lemma_wf(p);
        lemma_plain_columns(p, h - 1);
        lemma_energy_sign(plane, w, 1, h - 1);
        assert forall|i: int| 0 <= i < w implies #[trigger] plane[0 + i] == plane[(h - 1) * w + i] by {
            assert(plane[(h - 1) * w + i] == plane[i]);
        }
        lemma_same_sum(plane, 0, (h - 1) * w, w);
        lemma_not_darker(byte_sum(plane, 0, w), w);
    }
}

proof fn lemma_not_darker(sum: int, n: int)
    requires
        0 < n,
    ensures
        !is_darker(sum, sum, n),
{
    lemma_binary64_unit(sum, n, 1);
    let mean = binary64(sum, n, 1);
    assert(mean.0 * mean.1 >= (mean.0 - 8 * mean.1) * mean.1) by (nonlinear_arith)
        requires
            mean.1 > 0,
    ;
}

/// A page that does not lie on its side and whose first and last row are plain stands on its head exactly
/// where the first is darker than the last by more than 8 levels.
#[verifier::spinoff_prover]
#[verifier::rlimit(60)]
pub proof fn dark_tops_stand_on_their_head(p: Picture, top: int, bottom: int)
    requires
        p.wf(),
        p.width >= 3,
        p.height >= 3,
        detected_degrees(p) != 90,
        forall|x: int| 0 <= x < p.width ==> #[trigger] luma_plane(p)[x] == top,
        forall|x: int|
            0 <= x < p.width ==> #[trigger] luma_plane(p)[(p.height - 1) * p.width + x] == bottom,
    ensures
        detected_degrees(p) == 180 <==> top + 8 < bottom,
        detected_degrees(p) == 0 <==> top + 8 >= bottom,
{
    let plane = luma_plane(p);
    let w = p.width as int;
    assert(plane[0] == top && plane[(p.height - 1) * p.width + 0] == bottom);
    assert forall|i: int| 0 <= i < w implies #[trigger] plane[0 + i] == top by {
        assert(plane[i] == top);
    }
    lemma_plain_sum(plane, 0, w, top);
    lemma_plain_sum(plane, (p.height - 1) * w, w, bottom);
    lemma_plain_darker(top, bottom, w);
}

} // verus!
