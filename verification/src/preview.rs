//! Preview pixels and the preview cache.

use crate::error::{invalid, Failure, ScanError};
use crate::image::{ImageBuffer, Picture, PixelFormat};
use crate::text::same_text;
use vstd::prelude::*;

verus! {

/// The byte at a place of the RGBA pixels: gray is repeated, and alpha is opaque where the image
/// has none.
pub open spec fn rgba_byte(p: Picture, k: int) -> u8 {
    let i = k / 4;
    let c = k % 4;
    match p.pixel_format {
        PixelFormat::Gray8 => if c == 3 {
            255
        } else {
            p.data[i]
        },
        PixelFormat::Rgb8 => if c == 3 {
            255
        } else {
            p.data[i * 3 + c]
        },
        PixelFormat::Rgba8 => p.data[k],
    }
}

/// The RGBA pixels of an image.
pub open spec fn rgba(p: Picture) -> Seq<u8> {
    Seq::new((p.pixels() * 4) as nat, |k: int| rgba_byte(p, k))
}

/// Packs an image as tightly interleaved RGBA8 for preview textures. Only RGBA data of the wrong
/// length is refused.
pub fn image_buffer_to_rgba(image: &ImageBuffer) -> (r: Result<(u32, u32, Vec<u8>), ScanError>)
    requires
        image@.pixels() <= u32::MAX,
        image@.pixels() * 4 <= usize::MAX,
        image.pixel_format == PixelFormat::Gray8 ==> image.data@.len() >= image@.pixels(),
        image.pixel_format == PixelFormat::Rgb8 ==> image.data@.len() >= image@.pixels() * 3,
    ensures
        match r {
            Ok((w, h, bytes)) => w == image.width && h == image.height && bytes@ == rgba(image@)
                && !(image.pixel_format == PixelFormat::Rgba8 && image.data@.len() != image@.pixels()
                * 4),
            Err(error) => error@ == Failure::Invalid("rgba buffer size"@) && image.pixel_format
                == PixelFormat::Rgba8 && image.data@.len() != image@.pixels() * 4,
        },
{
    let w = image.width;
    let h = image.height;
    let n: usize = (w * h) as usize;
    let bytes: usize = image.data.len();
    if image.pixel_format == PixelFormat::Rgba8 && bytes != n * 4 {
        return Err(invalid("rgba buffer size"));
    }
    let ghost p = image@;
    let mut out: Vec<u8> = Vec::new();
    let mut i: usize = 0;
    while i < n
        invariant
            p == image@,
            n == p.pixels(),
            n * 4 <= usize::MAX,
            bytes == p.data.len(),
            p.pixel_format == PixelFormat::Gray8 ==> bytes >= n,
            p.pixel_format == PixelFormat::Rgb8 ==> bytes >= n * 3,
            p.pixel_format == PixelFormat::Rgba8 ==> bytes == n * 4,
            i <= n,
            out@ == rgba(p).take(i * 4),
        decreases n - i,
    {
        match image.pixel_format {
            PixelFormat::Gray8 => {
                let v: u8 = image.data[i];
                out.push(v);
                out.push(v);
                out.push(v);
                out.push(255);
            },
            PixelFormat::Rgb8 => {
                out.push(image.data[i * 3]);
                out.push(image.data[i * 3 + 1]);
                out.push(image.data[i * 3 + 2]);
                out.push(255);
            },
            PixelFormat::Rgba8 => {
                out.push(image.data[i * 4]);
                out.push(image.data[i * 4 + 1]);
                out.push(image.data[i * 4 + 2]);
                out.push(image.data[i * 4 + 3]);
            },
        }
        i += 1;
        assert(out@ =~= rgba(p).take(i * 4));
    }
    assert(out@ =~= rgba(p));
    Ok((w, h, out))
}

/// Whether the preview texture must be rebuilt for a path or file-content change. The fingerprint
/// is that of the file at the path, as it is now.
pub fn preview_texture_needs_reload(
    last_image: Option<&str>,
    fingerprint: Option<(u64, u64)>,
    cached_path: Option<&str>,
    cached_fingerprint: Option<(u64, u64)>,
) -> (r: bool)
    ensures
        r == match last_image {
            None => false,
            Some(path) => match fingerprint {
                None => true,
                Some(now) => !(cached_path is Some && cached_path->0@ == path@ && cached_fingerprint
                    == Some(now)),
            },
        },
{
    let path = match last_image {
        Some(path) => path,
        None => {
            return false;
        },
    };
    let now = match fingerprint {
        Some(now) => now,
        None => {
            return true;
        },
    };
    let same_path = match cached_path {
        Some(cached) => same_text(cached, path),
        None => false,
    };
    let same_print = match cached_fingerprint {
        Some(cached) => cached.0 == now.0 && cached.1 == now.1,
        None => false,
    };
    !(same_path && same_print)
}

/// A preview shows each pixel where it is: gray as three equal colors, and opaque where the picture
/// has no alpha.
pub proof fn previews_show_their_picture(p: Picture, x: int, y: int)
    requires
        p.wf(),
        0 <= x < p.width,
        0 <= y < p.height,
    ensures
        ({
            let k = (y * p.width + x) * 4;
            let bytes = rgba(p);
            &&& bytes.len() == p.width * p.height * 4
            &&& p.pixel_format == PixelFormat::Gray8 ==> bytes[k] == p.at(x, y, 0) && bytes[k + 1]
                == p.at(x, y, 0) && bytes[k + 2] == p.at(x, y, 0) && bytes[k + 3] == 255
            &&& p.pixel_format != PixelFormat::Gray8 ==> bytes[k] == p.at(x, y, 0) && bytes[k + 1]
                == p.at(x, y, 1) && bytes[k + 2] == p.at(x, y, 2)
            &&& p.pixel_format == PixelFormat::Rgb8 ==> bytes[k + 3] == 255
            &&& p.pixel_format == PixelFormat::Rgba8 ==> bytes[k + 3] == p.at(x, y, 3)
        }),
{
    crate::geometry::lemma_wf(p);
    let w = p.width as int;
    let h = p.height as int;
    crate::geometry::lemma_place(w, h, 4, x, y, 0);
    crate::geometry::lemma_place(w, h, 4, x, y, 1);
    crate::geometry::lemma_place(w, h, 4, x, y, 2);
    crate::geometry::lemma_place(w, h, 4, x, y, 3);
}

} // verus!
