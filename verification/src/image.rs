//! Pure image values and invariants.

use crate::error::{invalid, outcome_view, Failure, ScanError};
use crate::text::{decimal, push_decimal};
use vstd::prelude::*;
use vstd::string::StringExecFns;

verus! {

/// Product safety ceiling for one decoded, tightly packed image buffer.
pub const MAX_IMAGE_BYTES: usize = 536_870_912;

/// Per-axis ceiling shared by input decoding and generated image buffers.
pub const MAX_IMAGE_DIMENSION: u32 = 65_535;

/// The byte length of a tightly packed image, or why there can be no such image.
pub open spec fn image_len(width: int, height: int, bytes_per_pixel: int) -> Result<
    int,
    Failure,
> {
    if width == 0 || height == 0 {
        Err(Failure::Invalid("image width and height must be positive"@))
    } else if width > MAX_IMAGE_DIMENSION || height > MAX_IMAGE_DIMENSION {
        Err(
            Failure::Invalid(
                "image dimensions exceed the 65535-pixel per-axis safety limit"@,
            ),
        )
    } else if width * height * bytes_per_pixel > usize::MAX {
        Err(Failure::Invalid("image dimensions overflow"@))
    } else if width * height * bytes_per_pixel > MAX_IMAGE_BYTES {
        Err(Failure::Invalid("image buffer exceeds the 536870912-byte safety limit"@))
    } else {
        Ok(width * height * bytes_per_pixel)
    }
}

/// The byte length of a tightly packed image, refused where it passes a safety limit.
pub fn checked_image_len(width: u32, height: u32, bytes_per_pixel: usize) -> (r: Result<
    usize,
    ScanError,
>)
    ensures
        match image_len(width as int, height as int, bytes_per_pixel as int) {
            Ok(len) => r is Ok && r->Ok_0 == len,
            Err(failure) => r is Err && r->Err_0@ == failure,
        },
{
    if width == 0 || height == 0 {
        return Err(invalid("image width and height must be positive"));
    }
    if width > MAX_IMAGE_DIMENSION || height > MAX_IMAGE_DIMENSION {
        return Err(invalid("image dimensions exceed the 65535-pixel per-axis safety limit"));
    }
    proof {
        assert(0 < width * height <= 65535 * 65535) by (nonlinear_arith)
            requires
                0 < width <= 65535,
                0 < height <= 65535,
        ;
    }
    let pixels: usize = (width as usize) * (height as usize);
    match pixels.checked_mul(bytes_per_pixel) {
        None => Err(invalid("image dimensions overflow")),
        Some(bytes) => if bytes > MAX_IMAGE_BYTES {
            Err(invalid("image buffer exceeds the 536870912-byte safety limit"))
        } else {
            Ok(bytes)
        },
    }
}

/// Packed pixel layout for [`ImageBuffer`].
#[derive(Debug, Clone, Copy, PartialEq, Eq, Hash, Structural)]
pub enum PixelFormat {
    Gray8,
    Rgb8,
    Rgba8,
}

impl PixelFormat {
    /// Bytes per pixel.
    pub open spec fn spec_bpp(self) -> int {
        match self {
            PixelFormat::Gray8 => 1,
            PixelFormat::Rgb8 => 3,
            PixelFormat::Rgba8 => 4,
        }
    }

    /// Bytes per pixel.
    pub fn bpp(self) -> (r: usize)
        ensures
            r == self.spec_bpp(),
    {
        match self {
            PixelFormat::Gray8 => 1,
            PixelFormat::Rgb8 => 3,
            PixelFormat::Rgba8 => 4,
        }
    }

    /// The name of the layout.
    pub open spec fn spec_name(self) -> Seq<char> {
        match self {
            PixelFormat::Gray8 => "Gray8"@,
            PixelFormat::Rgb8 => "Rgb8"@,
            PixelFormat::Rgba8 => "Rgba8"@,
        }
    }

    /// The name of the layout.
    pub fn as_str(self) -> (r: &'static str)
        ensures
            self is Gray8 ==> r@ == "Gray8"@,
            self is Rgb8 ==> r@ == "Rgb8"@,
            self is Rgba8 ==> r@ == "Rgba8"@,
            r@ == self.spec_name(),
    {
        match self {
            PixelFormat::Gray8 => "Gray8",
            PixelFormat::Rgb8 => "Rgb8",
            PixelFormat::Rgba8 => "Rgba8",
        }
    }
}

/// Rotation in degrees (clockwise).
#[derive(Debug, Clone, Copy, PartialEq, Eq, Hash, Structural)]
pub enum Rotate {
    R0,
    R90,
    R180,
    R270,
}

impl Default for Rotate {
    fn default() -> (r: Self)
        ensures
            r == Rotate::R0,
    {
        Rotate::R0
    }
}

impl Rotate {
    /// The angle in degrees.
    pub open spec fn spec_degrees(self) -> int {
        match self {
            Rotate::R0 => 0,
            Rotate::R90 => 90,
            Rotate::R180 => 180,
            Rotate::R270 => 270,
        }
    }

    /// The rotation by an angle: a full turn changes nothing, and an angle that is not a
    /// quarter turn does not rotate.
    pub open spec fn of_degrees(degrees: int) -> Rotate {
        if degrees % 360 == 90 {
            Rotate::R90
        } else if degrees % 360 == 180 {
            Rotate::R180
        } else if degrees % 360 == 270 {
            Rotate::R270
        } else {
            Rotate::R0
        }
    }

    /// The rotation by an angle.
    pub fn from_degrees(degrees: i32) -> (r: Self)
        ensures
            r == Rotate::of_degrees(degrees as int),
    {
        let turn: i32 = turn_of(degrees);
        if turn == 90 {
            Rotate::R90
        } else if turn == 180 {
            Rotate::R180
        } else if turn == 270 {
            Rotate::R270
        } else {
            Rotate::R0
        }
    }

    /// The angle in degrees.
    pub fn degrees(self) -> (r: i32)
        ensures
            r == self.spec_degrees(),
    {
        match self {
            Rotate::R0 => 0,
            Rotate::R90 => 90,
            Rotate::R180 => 180,
            Rotate::R270 => 270,
        }
    }

    /// A rotation is found again by its angle.
    pub proof fn degrees_round_trip(self)
        ensures
            Rotate::of_degrees(self.spec_degrees()) == self,
    {
    }
}

/// An angle reduced to one turn, from 0 to 359.
pub fn turn_of(degrees: i32) -> (r: i32)
    ensures
        r == degrees % 360,
        0 <= r < 360,
{
    if degrees >= 0 {
        degrees % 360
    } else if degrees == -2147483648 {
        // -2147483648 == 360 * -5965233 + 232
        232
    } else {
        let rest: i32 = (-degrees) % 360;
        if rest == 0 {
            0
        } else {
            360 - rest
        }
    }
}

/// Axis-aligned rectangle in pixel space.
#[derive(Debug, Clone, Copy, PartialEq, Eq, Hash, Structural)]
pub struct Rect {
    pub x: i32,
    pub y: i32,
    pub width: u32,
    pub height: u32,
}

impl Rect {
    pub fn new(x: i32, y: i32, width: u32, height: u32) -> (r: Self)
        ensures
            r == (Rect { x, y, width, height }),
    {
        Rect { x, y, width, height }
    }
}

/// Tightly packed image buffer (row-major).
#[derive(Debug, PartialEq, Eq)]
pub struct ImageBuffer {
    pub width: u32,
    pub height: u32,
    pub pixel_format: PixelFormat,
    pub data: Vec<u8>,
}

/// An image with its bytes as a sequence.
pub struct Picture {
    pub width: u32,
    pub height: u32,
    pub pixel_format: PixelFormat,
    pub data: Seq<u8>,
}

impl View for ImageBuffer {
    type V = Picture;

    open spec fn view(&self) -> Picture {
        Picture {
            width: self.width,
            height: self.height,
            pixel_format: self.pixel_format,
            data: self.data@,
        }
    }
}

impl Picture {
    /// The image is not empty, keeps the safety limits and holds exactly its pixels.
    pub open spec fn wf(self) -> bool {
        image_len(self.width as int, self.height as int, self.pixel_format.spec_bpp()) == Ok::<
            int,
            Failure,
        >(self.data.len() as int)
    }

    /// The number of pixels.
    pub open spec fn pixels(self) -> int {
        self.width * self.height
    }

    /// The byte of channel `c` of the pixel in column `x` of row `y`.
    pub open spec fn at(self, x: int, y: int, c: int) -> u8 {
        self.data[(y * self.width + x) * self.pixel_format.spec_bpp() + c]
    }
}

impl Clone for ImageBuffer {
    fn clone(&self) -> (r: Self)
        ensures
            r@ == self@,
    {
        let data: Vec<u8> = copy_bytes(&self.data);
        ImageBuffer {
            width: self.width,
            height: self.height,
            pixel_format: self.pixel_format,
            data,
        }
    }
}

/// A vector with the bytes of a slice.
pub fn copy_bytes(bytes: &[u8]) -> (r: Vec<u8>)
    ensures
        r@ == bytes@,
{
    vstd::slice::slice_to_vec(bytes)
}

/// The image that the parts make, or why they make none.
pub open spec fn picture_of(
    width: u32,
    height: u32,
    pixel_format: PixelFormat,
    data: Seq<u8>,
) -> Result<Picture, Failure> {
    match image_len(width as int, height as int, pixel_format.spec_bpp()) {
        Err(failure) => Err(failure),
        Ok(expected) => if data.len() != expected {
            Err(
                Failure::Invalid(
                    "ImageBuffer size mismatch: got "@ + decimal(data.len()) + ", expected "@
                        + decimal(expected as nat),
                ),
            )
        } else {
            Ok(Picture { width, height, pixel_format, data })
        },
    }
}

impl ImageBuffer {
    /// Checks the limits and that the bytes are exactly those of the pixels.
    pub fn new(width: u32, height: u32, pixel_format: PixelFormat, data: Vec<u8>) -> (r: Result<
        Self,
        ScanError,
    >)
        ensures
            outcome_view(r) == picture_of(width, height, pixel_format, data@),
            r is Ok ==> r->Ok_0@.wf(),
    {
        let expected: usize = match checked_image_len(width, height, pixel_format.bpp()) {
            Ok(expected) => expected,
            Err(error) => {
                return Err(error);
            },
        };
        if data.len() != expected {
            let mut text = "ImageBuffer size mismatch: got ".to_owned();
            push_decimal(&mut text, data.len() as u64);
            text.append(", expected ");
            push_decimal(&mut text, expected as u64);
            return Err(ScanError::Invalid(text));
        }
        Ok(ImageBuffer { width, height, pixel_format, data })
    }

    /// Bytes per pixel.
    pub fn bpp(&self) -> (r: usize)
        ensures
            r == self@.pixel_format.spec_bpp(),
    {
        self.pixel_format.bpp()
    }
}

/// The luma of a colour, weighted in 256ths.
pub open spec fn luma(red: u8, green: u8, blue: u8) -> u8 {
    ((77 * red + 150 * green + 29 * blue) / 256) as u8
}

/// The luma of a colour, weighted in 256ths.
pub fn luma_of(red: u8, green: u8, blue: u8) -> (r: u8)
    ensures
        r == luma(red, green, blue),
        r == (77 * red + 150 * green + 29 * blue) / 256,
{
    ((77 * red as u32 + 150 * green as u32 + 29 * blue as u32) / 256) as u8
}

/// The luma of every pixel, in order; the bytes themselves where the image is gray.
pub open spec fn luma_plane(p: Picture) -> Seq<u8> {
    let bpp = p.pixel_format.spec_bpp();
    if p.pixel_format == PixelFormat::Gray8 {
        p.data
    } else {
        Seq::new(
            (p.data.len() as int / bpp) as nat,
            |i: int| luma(p.data[i * bpp], p.data[i * bpp + 1], p.data[i * bpp + 2]),
        )
    }
}

/// The image's size and its luma plane.
pub fn image_to_luma8(image: &ImageBuffer) -> (r: (u32, u32, Vec<u8>))
    ensures
        r.0 == image.width,
        r.1 == image.height,
        r.2@ == luma_plane(image@),
{
    let width = image.width;
    let height = image.height;
    if image.pixel_format == PixelFormat::Gray8 {
        return (width, height, copy_bytes(&image.data));
    }
    let bpp: usize = image.bpp();
    let total: usize = image.data.len();
    let count: usize = total / bpp;
    let mut gray: Vec<u8> = Vec::new();
    let mut i: usize = 0;
    let mut base: usize = 0;
    while i < count
        invariant
            i <= count,
            bpp == image@.pixel_format.spec_bpp(),
            bpp == 3 || bpp == 4,
            image.pixel_format != PixelFormat::Gray8,
            total == image.data@.len(),
            count == total as int / bpp as int,
            base == i * bpp,
            gray@ == luma_plane(image@).take(i as int),
        decreases count - i,
    {
        assert(base + bpp <= total) by (nonlinear_arith)
            requires
                base == i * bpp,
                i + 1 <= count,
                count == total as int / bpp as int,
                bpp > 0,
        ;
        gray.push(luma_of(image.data[base], image.data[base + 1], image.data[base + 2]));
        assert((i + 1) * bpp == i * bpp + bpp) by (nonlinear_arith);
        i += 1;
        base += bpp;
        assert(gray@ =~= luma_plane(image@).take(i as int));
    }
    assert(gray@ =~= luma_plane(image@));
    (width, height, gray)
}

// ---------------------------------------------------------------------------
// Laws
// ---------------------------------------------------------------------------

/// Pixels lie row by row, from the top left on, with their channels together: one byte for gray, red,
/// green and blue for color, and alpha as the fourth.
pub proof fn pixels_lie_row_by_row(p: Picture, x: int, y: int, c: int)
    ensures
        p.pixel_format == PixelFormat::Gray8 ==> p.at(x, y, 0) == p.data[y * p.width + x],
        p.pixel_format == PixelFormat::Rgb8 ==> p.at(x, y, c) == p.data[(y * p.width + x) * 3 + c],
        p.pixel_format == PixelFormat::Rgba8 ==> p.at(x, y, c) == p.data[(y * p.width + x) * 4 + c],
{
}

/// A size is accepted exactly where no side is empty or longer than 65535 pixels and the pixels take
/// no more than 512 MiB, and they take as many bytes as the sides multiply to.
pub proof fn accepted_sizes(width: int, height: int, bytes_per_pixel: int)
    requires
        0 <= width <= u32::MAX,
        0 <= height <= u32::MAX,
        1 <= bytes_per_pixel <= 6,
    ensures
        image_len(width, height, bytes_per_pixel) is Ok <==> 0 < width <= 65535 && 0 < height
            <= 65535 && width * height * bytes_per_pixel <= 512 * 1024 * 1024,
        image_len(width, height, bytes_per_pixel) matches Ok(n) ==> n == width * height
            * bytes_per_pixel,
{
    if 0 < width <= 65535 && 0 < height <= 65535 {
        assert(0 < width * height <= 65535 * 65535) by (nonlinear_arith)
            requires
                0 < width <= 65535,
                0 < height <= 65535,
        ;
    }
}

/// The luma of a pixel lies between the darkest and the brightest of its colors; a gray pixel keeps
/// its own, and a brighter color never makes it darker.
pub proof fn luma_lies_between(red: u8, green: u8, blue: u8, low: u8, high: u8)
    requires
        low <= red <= high,
        low <= green <= high,
        low <= blue <= high,
    ensures
        low <= luma(red, green, blue) <= high,
        luma(low, low, low) == low,
        256 * luma(red, green, blue) <= 77 * red + 150 * green + 29 * blue < 256 * luma(
            red,
            green,
            blue,
        ) + 256,
{
}

/// The luma plane holds one byte for each pixel, at its column and row.
pub proof fn luma_follows_its_pixel(p: Picture, x: int, y: int)
    requires
        p.wf(),
        0 <= x < p.width,
        0 <= y < p.height,
    ensures
        luma_plane(p).len() == p.width * p.height,
        p.pixel_format == PixelFormat::Gray8 ==> luma_plane(p)[y * p.width + x] == p.at(x, y, 0),
        p.pixel_format != PixelFormat::Gray8 ==> luma_plane(p)[y * p.width + x] == (77 * p.at(x, y, 0)
            + 150 * p.at(x, y, 1) + 29 * p.at(x, y, 2)) / 256,
{
    crate::geometry::lemma_wf(p);
    let b = p.pixel_format.spec_bpp();
    let n = p.width * p.height;
    crate::geometry::lemma_place(p.width as int, p.height as int, b, x, y, 0);
    if p.pixel_format != PixelFormat::Gray8 {
        assert((n * b) / b == n) by (nonlinear_arith)
            requires
                b > 0,
                n >= 0,
        ;
    }
}

} // verus!
