//! Pixel rearrangements: cropping, nearest-neighbour scaling and quarter turns.

use crate::error::{invalid, outcome_view, Failure, ScanError};
use crate::image::{checked_image_len, image_len, ImageBuffer, Picture, Rect, Rotate};
use vstd::arithmetic::div_mod::lemma_fundamental_div_mod_converse;
use vstd::prelude::*;

verus! {

/// How each pixel of a result is found in the image it was made from.
#[derive(Debug, Clone, Copy)]
pub enum Mapping {
    /// The rectangle whose upper left corner is given.
    Crop { left: u32, top: u32 },
    /// The nearest pixel towards the upper left.
    Scale,
    /// A quarter turn clockwise.
    Quarter,
    /// A half turn.
    Half,
    /// A quarter turn counterclockwise.
    ThreeQuarters,
    /// Left and right exchanged.
    Mirror,
    /// Top and bottom exchanged.
    Overturn,
}

impl Mapping {
    /// The column and row, in an image of `w` by `h` pixels, of the pixel that stands at
    /// column `x` and row `y` of a result of `w2` by `h2` pixels.
    pub open spec fn source(self, w: int, h: int, w2: int, h2: int, x: int, y: int) -> (int, int) {
        match self {
            Mapping::Crop { left, top } => (left + x, top + y),
            Mapping::Scale => (x * w / w2, y * h / h2),
            Mapping::Quarter => (y, h - 1 - x),
            Mapping::Half => (w - 1 - x, h - 1 - y),
            Mapping::ThreeQuarters => (w - 1 - y, x),
            Mapping::Mirror => (w - 1 - x, y),
            Mapping::Overturn => (x, h - 1 - y),
        }
    }

    /// Whether the result's size fits the mapping, so that every pixel has its source.
    pub open spec fn fits(self, w: int, h: int, w2: int, h2: int) -> bool {
        match self {
            Mapping::Crop { left, top } => left + w2 <= w && top + h2 <= h,
            Mapping::Scale => true,
            Mapping::Quarter | Mapping::ThreeQuarters => w2 == h && h2 == w,
            Mapping::Half | Mapping::Mirror | Mapping::Overturn => w2 == w && h2 == h,
        }
    }
}

/// The bytes of the result of a mapping, row by row.
pub open spec fn remapped(p: Picture, m: Mapping, w2: int, h2: int) -> Seq<u8> {
    let bpp = p.pixel_format.spec_bpp();
    Seq::new(
        (w2 * h2 * bpp) as nat,
        |k: int|
            {
                let i = k / bpp;
                let s = m.source(p.width as int, p.height as int, w2, h2, i % w2, i / w2);
                p.at(s.0, s.1, k % bpp)
            },
    )
}

/// The place of a channel of a pixel lies within the bytes, and tells its row and column.
pub proof fn lemma_place(w: int, h: int, bpp: int, x: int, y: int, c: int)
    requires
        0 <= x < w,
        0 <= y < h,
        0 <= c < bpp,
    ensures
        0 <= (y * w + x) * bpp + c < w * h * bpp,
        0 <= y * w + x < w * h,
        ((y * w + x) * bpp + c) / bpp == y * w + x,
        ((y * w + x) * bpp + c) % bpp == c,
        (y * w + x) / w == y,
        (y * w + x) % w == x,
{
    let i = y * w + x;
    lemma_fundamental_div_mod_converse(i, w, y, x);
    lemma_fundamental_div_mod_converse(i * bpp + c, bpp, i, c);
    assert(0 <= i < w * h) by (nonlinear_arith)
        requires
            i == y * w + x,
            0 <= x < w,
            0 <= y < h,
    ;
    let n = w * h;
    assert(0 <= i * bpp + c < n * bpp) by (nonlinear_arith)
        requires
            0 <= i < n,
            0 <= c < bpp,
    ;
}

/// The sizes of an acceptable image are small.
pub proof fn lemma_wf(p: Picture)
    requires
        p.wf(),
    ensures
        0 < p.width <= 65535,
        0 < p.height <= 65535,
        p.data.len() == p.width * p.height * p.pixel_format.spec_bpp(),
        p.data.len() <= 536870912,
        p.width * p.height <= 536870912,
{
    let n = p.width * p.height;
    let b = p.pixel_format.spec_bpp();
    assert(n <= n * b) by (nonlinear_arith)
        requires
            n >= 0,
            b >= 1,
    ;
    assert(n >= 0) by (nonlinear_arith)
        requires
            n == p.width * p.height,
            p.width > 0,
            p.height > 0,
    ;
}

/// A fitting mapping takes every pixel from within the image.
pub proof fn lemma_source(m: Mapping, w: int, h: int, w2: int, h2: int, x: int, y: int)
    requires
        m.fits(w, h, w2, h2),
        0 < w,
        0 < h,
        0 <= x < w2,
        0 <= y < h2,
    ensures
        0 <= m.source(w, h, w2, h2, x, y).0 < w,
        0 <= m.source(w, h, w2, h2, x, y).1 < h,
{
    if m is Scale {
        assert(0 <= x * w / w2 < w) by (nonlinear_arith)
            requires
                0 <= x < w2,
                0 < w,
        ;
        assert(0 <= y * h / h2 < h) by (nonlinear_arith)
            requires
                0 <= y < h2,
                0 < h,
        ;
    }
}

/// What stands at a place of the result of a mapping.
pub proof fn lemma_remapped_at(p: Picture, m: Mapping, q: Picture, x: int, y: int, c: int)
    requires
        q.pixel_format == p.pixel_format,
        q.data == remapped(p, m, q.width as int, q.height as int),
        0 <= x < q.width,
        0 <= y < q.height,
        0 <= c < p.pixel_format.spec_bpp(),
    ensures
        q.at(x, y, c) == ({
            let s = m.source(
                p.width as int,
                p.height as int,
                q.width as int,
                q.height as int,
                x,
                y,
            );
            p.at(s.0, s.1, c)
        }),
{
    lemma_place(q.width as int, q.height as int, p.pixel_format.spec_bpp(), x, y, c);
}

/// Moves every pixel by a mapping.
pub fn remap(image: &ImageBuffer, m: Mapping, w2: u32, h2: u32) -> (r: Result<
    ImageBuffer,
    ScanError,
>)
    requires
        image@.wf(),
        m.fits(image.width as int, image.height as int, w2 as int, h2 as int),
    ensures
        outcome_view(r) == match image_len(
            w2 as int,
            h2 as int,
            image.pixel_format.spec_bpp(),
        ) {
            Ok(_len) => Ok(
                Picture {
                    width: w2,
                    height: h2,
                    pixel_format: image.pixel_format,
                    data: remapped(image@, m, w2 as int, h2 as int),
                },
            ),
            Err(failure) => Err(failure),
        },
        r is Ok ==> r->Ok_0@.wf(),
{
    let bpp: usize = image.bpp();
    let total: usize = match checked_image_len(w2, h2, bpp) {
        Ok(total) => total,
        Err(error) => {
            return Err(error);
        },
    };
    proof {
        lemma_wf(image@);
    }
    let w: usize = image.width as usize;
    let h: usize = image.height as usize;
    let width: usize = w2 as usize;
    let height: usize = h2 as usize;
    let ghost goal = remapped(image@, m, w2 as int, h2 as int);
    let mut out: Vec<u8> = Vec::new();
    let mut y: usize = 0;
    while y < height
        invariant
            image@.wf(),
            w == image.width,
            h == image.height,
            w <= 65535,
            h <= 65535,
            width == w2,
            height == h2,
            0 < width <= 65535,
            0 < height <= 65535,
            bpp == image.pixel_format.spec_bpp(),
            1 <= bpp <= 4,
            total == width * height * bpp,
            m.fits(w as int, h as int, width as int, height as int),
            goal == remapped(image@, m, w2 as int, h2 as int),
            y <= height,
            out@.len() == y * width * bpp,
            out@ == goal.take(out@.len() as int),
        decreases height - y,
    {
        let mut x: usize = 0;
        assert((y * width + 0) * bpp == y * width * bpp);
        while x < width
            invariant
                image@.wf(),
                w == image.width,
                h == image.height,
                w <= 65535,
                h <= 65535,
                width == w2,
                height == h2,
                0 < width <= 65535,
                0 < height <= 65535,
                bpp == image.pixel_format.spec_bpp(),
                1 <= bpp <= 4,
                total == width * height * bpp,
                m.fits(w as int, h as int, width as int, height as int),
                goal == remapped(image@, m, w2 as int, h2 as int),
                y < height,
                x <= width,
                out@.len() == (y * width + x) * bpp,
                out@ == goal.take(out@.len() as int),
            decreases width - x,
        {
            proof {
                lemma_wf(image@);
                lemma_source(
                    m,
                    w as int,
                    h as int,
                    width as int,
                    height as int,
                    x as int,
                    y as int,
                );
                assert(x * w <= 65535 * 65535) by (nonlinear_arith)
                    requires
                        x <= 65535,
                        w <= 65535,
                ;
                assert(y * h <= 65535 * 65535) by (nonlinear_arith)
                    requires
                        y <= 65535,
                        h <= 65535,
                ;
            }
            let source: (usize, usize) = match m {
                Mapping::Crop { left, top } => (left as usize + x, top as usize + y),
                Mapping::Scale => (x * w / width, y * h / height),
                Mapping::Quarter => (y, h - 1 - x),
                Mapping::Half => (w - 1 - x, h - 1 - y),
                Mapping::ThreeQuarters => (w - 1 - y, x),
                Mapping::Mirror => (w - 1 - x, y),
                Mapping::Overturn => (x, h - 1 - y),
            };
            let sx: usize = source.0;
            let sy: usize = source.1;
            let mut c: usize = 0;
            proof {
                lemma_place(w as int, h as int, bpp as int, sx as int, sy as int, 0);
                assert(sy * w <= 65535 * 65535) by (nonlinear_arith)
                    requires
                        sy <= 65535,
                        w <= 65535,
                ;
            }
            let start: usize = (sy * w + sx) * bpp;
            while c < bpp
                invariant
                    image@.wf(),
                    w == image.width,
                    h == image.height,
                    width == w2,
                    height == h2,
                    bpp == image.pixel_format.spec_bpp(),
                    1 <= bpp <= 4,
                    goal == remapped(image@, m, w2 as int, h2 as int),
                    x < width,
                    y < height,
                    sx < w,
                    sy < h,
                    (sx as int, sy as int) == m.source(
                        w as int,
                        h as int,
                        width as int,
                        height as int,
                        x as int,
                        y as int,
                    ),
                    start == (sy * w + sx) * bpp,
                    c <= bpp,
                    out@.len() == (y * width + x) * bpp + c,
                    out@ == goal.take(out@.len() as int),
                decreases bpp - c,
            {
                let ghost k = out@.len() as int;
                proof {
                    lemma_wf(image@);
                    lemma_place(w as int, h as int, bpp as int, sx as int, sy as int, c as int);
                    lemma_place(
                        width as int,
                        height as int,
                        bpp as int,
                        x as int,
                        y as int,
                        c as int,
                    );
                }
                let bytes: usize = image.data.len();
                assert(start + c < bytes);
                out.push(image.data[start + c]);
                assert(out@ =~= goal.take(k + 1));
                c += 1;
            }
            assert((y * width + x) * bpp + bpp == (y * width + (x + 1)) * bpp) by (nonlinear_arith);
            x += 1;
        }
        assert((y * width + width) * bpp == (y + 1) * width * bpp) by (nonlinear_arith);
        y += 1;
    }
    assert(height * width * bpp == width * height * bpp) by (nonlinear_arith);
    assert(out@ =~= goal);
    ImageBuffer::new(w2, h2, image.pixel_format, out)
}

/// The part of a picture within a rectangle; a rectangle that is empty or reaches outside the
/// picture is refused.
pub open spec fn cropped(p: Picture, rect: Rect) -> Result<Picture, Failure> {
    if rect.width == 0 || rect.height == 0 || rect.x < 0 || rect.y < 0 || rect.x + rect.width
        > p.width || rect.y + rect.height > p.height {
        Err(Failure::Invalid("crop rectangle must lie inside the image"@))
    } else {
        Ok(
            Picture {
                width: rect.width,
                height: rect.height,
                pixel_format: p.pixel_format,
                data: remapped(
                    p,
                    Mapping::Crop { left: rect.x as u32, top: rect.y as u32 },
                    rect.width as int,
                    rect.height as int,
                ),
            },
        )
    }
}

/// The part of an image within a rectangle.
pub fn crop(image: &ImageBuffer, rect: Rect) -> (r: Result<ImageBuffer, ScanError>)
    requires
        image@.wf(),
    ensures
        outcome_view(r) == cropped(image@, rect),
        r is Ok ==> r->Ok_0@.wf(),
{
    if rect.width == 0 || rect.height == 0 || rect.x < 0 || rect.y < 0 || rect.x as u64
        + rect.width as u64 > image.width as u64 || rect.y as u64 + rect.height as u64
        > image.height as u64 {
        return Err(invalid("crop rectangle must lie inside the image"));
    }
    proof {
        lemma_wf(image@);
        lemma_smaller(image@, rect.width as int, rect.height as int);
    }
    remap(
        image,
        Mapping::Crop { left: rect.x as u32, top: rect.y as u32 },
        rect.width,
        rect.height,
    )
}

/// A smaller size of the same format is acceptable.
pub proof fn lemma_smaller(p: Picture, w2: int, h2: int)
    requires
        p.wf(),
        0 < w2 <= p.width,
        0 < h2 <= p.height,
    ensures
        image_len(w2, h2, p.pixel_format.spec_bpp()) == Ok::<int, Failure>(
            w2 * h2 * p.pixel_format.spec_bpp(),
        ),
{
    lemma_wf(p);
    let b = p.pixel_format.spec_bpp();
    let w = p.width as int;
    let h = p.height as int;
    assert(w2 * h2 <= w * h) by (nonlinear_arith)
        requires
            0 < w2 <= w,
            0 < h2 <= h,
    ;
    let n2 = w2 * h2;
    let n = w * h;
    assert(n2 * b <= n * b) by (nonlinear_arith)
        requires
            n2 <= n,
            b >= 1,
    ;
}

/// The picture turned clockwise.
pub open spec fn rotated(p: Picture, turn: Rotate) -> Picture {
    let w = p.width as int;
    let h = p.height as int;
    match turn {
        Rotate::R0 => p,
        Rotate::R90 => Picture {
            width: p.height,
            height: p.width,
            pixel_format: p.pixel_format,
            data: remapped(p, Mapping::Quarter, h, w),
        },
        Rotate::R180 => Picture { data: remapped(p, Mapping::Half, w, h), ..p },
        Rotate::R270 => Picture {
            width: p.height,
            height: p.width,
            pixel_format: p.pixel_format,
            data: remapped(p, Mapping::ThreeQuarters, h, w),
        },
    }
}

/// Turning keeps an acceptable picture acceptable.
pub proof fn lemma_rotated_wf(p: Picture, turn: Rotate)
    requires
        p.wf(),
    ensures
        rotated(p, turn).wf(),
        rotated(p, turn).pixel_format == p.pixel_format,
{
    lemma_wf(p);
    let w = p.width as int;
    let h = p.height as int;
    let b = p.pixel_format.spec_bpp();
    assert(w * h == h * w) by (nonlinear_arith);
}

/// Turns an image clockwise.
pub fn rotate(image: &ImageBuffer, turn: Rotate) -> (r: Result<ImageBuffer, ScanError>)
    requires
        image@.wf(),
    ensures
        r is Ok,
        r->Ok_0@ == rotated(image@, turn),
        r->Ok_0@.wf(),
{
    proof {
        lemma_wf(image@);
        lemma_rotated_wf(image@, turn);
    }
    match turn {
        Rotate::R0 => Ok(image.clone()),
        Rotate::R90 => remap(image, Mapping::Quarter, image.height, image.width),
        Rotate::R180 => remap(image, Mapping::Half, image.width, image.height),
        Rotate::R270 => remap(image, Mapping::ThreeQuarters, image.height, image.width),
    }
}

/// The picture with left and right exchanged.
pub open spec fn mirrored(p: Picture) -> Picture {
    Picture { data: remapped(p, Mapping::Mirror, p.width as int, p.height as int), ..p }
}

/// The picture with top and bottom exchanged.
pub open spec fn overturned(p: Picture) -> Picture {
    Picture { data: remapped(p, Mapping::Overturn, p.width as int, p.height as int), ..p }
}

/// Exchanges left and right.
pub fn flip_horizontal(image: &ImageBuffer) -> (r: Result<ImageBuffer, ScanError>)
    requires
        image@.wf(),
    ensures
        r is Ok,
        r->Ok_0@ == mirrored(image@),
        r->Ok_0@.wf(),
{
    proof {
        lemma_wf(image@);
    }
    remap(image, Mapping::Mirror, image.width, image.height)
}

/// Exchanges top and bottom.
pub fn flip_vertical(image: &ImageBuffer) -> (r: Result<ImageBuffer, ScanError>)
    requires
        image@.wf(),
    ensures
        r is Ok,
        r->Ok_0@ == overturned(image@),
        r->Ok_0@.wf(),
{
    proof {
        lemma_wf(image@);
    }
    remap(image, Mapping::Overturn, image.width, image.height)
}

/// Two acceptable pictures of one size and format with the same pixels are the same.
pub proof fn lemma_same_pixels(a: Picture, b: Picture)
    requires
        a.wf(),
        b.wf(),
        a.width == b.width,
        a.height == b.height,
        a.pixel_format == b.pixel_format,
        forall|x: int, y: int, c: int|
            0 <= x < a.width && 0 <= y < a.height && 0 <= c < a.pixel_format.spec_bpp()
                ==> #[trigger] a.at(x, y, c) == b.at(x, y, c),
    ensures
        a == b,
{
    lemma_wf(a);
    lemma_wf(b);
    let w = a.width as int;
    let h = a.height as int;
    let bpp = a.pixel_format.spec_bpp();
    assert forall|k: int| 0 <= k < a.data.len() implies a.data[k] == b.data[k] by {
        let i = k / bpp;
        let c = k % bpp;
        let y = i / w;
        let x = i % w;
        let n = w * h;
        assert(0 <= i < n && k == i * bpp + c && 0 <= c < bpp) by (nonlinear_arith)
            requires
                0 <= k < n * bpp,
                i == k / bpp,
                c == k % bpp,
                bpp > 0,
        ;
        assert(0 <= y < h && i == y * w + x && 0 <= x < w) by (nonlinear_arith)
            requires
                0 <= i < n,
                n == w * h,
                y == i / w,
                x == i % w,
                w > 0,
        ;
        assert(a.at(x, y, c) == b.at(x, y, c));
    }
    assert(a.data =~= b.data);
}

/// Turning clockwise by two angles is turning by their sum.
#[verifier::spinoff_prover]
#[verifier::rlimit(60)]
pub proof fn rotations_add(p: Picture, first: Rotate, second: Rotate)
    requires
        p.wf(),
    ensures
        rotated(rotated(p, first), second) == rotated(
            p,
            Rotate::of_degrees(first.spec_degrees() + second.spec_degrees()),
        ),
{
    let one = rotated(p, first);
    let two = rotated(one, second);
    let sum = Rotate::of_degrees(first.spec_degrees() + second.spec_degrees());
    let whole = rotated(p, sum);
    lemma_rotated_wf(p, first);
    lemma_rotated_wf(one, second);
    lemma_rotated_wf(p, sum);
    lemma_sum_of_turns(first, second);
    assert(two.width == whole.width && two.height == whole.height);
    assert forall|x: int, y: int, c: int|
        0 <= x < two.width && 0 <= y < two.height && 0 <= c < two.pixel_format.spec_bpp()
        implies #[trigger] two.at(x, y, c) == whole.at(x, y, c) by {
        let s = turned_from(one, second, x, y, c);
        let t = turned_from(p, first, s.0, s.1, c);
        let u = turned_from(p, sum, x, y, c);
        assert(t == u);
    }
    lemma_same_pixels(two, whole);
}

/// A flip undoes itself, and the two flips together are a half turn.
pub proof fn flips_undo_themselves(p: Picture)
    requires
        p.wf(),
    ensures
        mirrored(mirrored(p)) == p,
        overturned(overturned(p)) == p,
        overturned(mirrored(p)) == rotated(p, Rotate::R180),
{
    lemma_wf(p);
    lemma_flipped_twice(p, Mapping::Mirror, Mapping::Mirror, p);
    lemma_flipped_twice(p, Mapping::Overturn, Mapping::Overturn, p);
    lemma_rotated_wf(p, Rotate::R180);
    let half = rotated(p, Rotate::R180);
    assert forall|x: int, y: int, c: int|
        0 <= x < p.width && 0 <= y < p.height && 0 <= c < p.pixel_format.spec_bpp()
        implies #[trigger] half.at(x, y, c) == p.at(p.width - 1 - x, p.height - 1 - y, c) by {
        lemma_remapped_at(p, Mapping::Half, half, x, y, c);
    }
    lemma_flipped_twice(p, Mapping::Mirror, Mapping::Overturn, half);
}

proof fn lemma_flipped_twice(p: Picture, first: Mapping, second: Mapping, goal: Picture)
    requires
        p.wf(),
        first is Mirror || first is Overturn,
        second is Mirror || second is Overturn,
        goal.wf(),
        goal.width == p.width,
        goal.height == p.height,
        goal.pixel_format == p.pixel_format,
        forall|x: int, y: int, c: int|
            0 <= x < p.width && 0 <= y < p.height && 0 <= c < p.pixel_format.spec_bpp() ==> ({
                let w = p.width as int;
                let h = p.height as int;
                let s = second.source(w, h, w, h, x, y);
                let t = first.source(w, h, w, h, s.0, s.1);
                #[trigger] goal.at(x, y, c) == p.at(t.0, t.1, c)
            }),
    ensures
        ({
            let w = p.width as int;
            let h = p.height as int;
            let one = Picture { data: remapped(p, first, w, h), ..p };
            Picture { data: remapped(one, second, w, h), ..one } == goal
        }),
{
    let w = p.width as int;
    let h = p.height as int;
    let one = Picture { data: remapped(p, first, w, h), ..p };
    let two = Picture { data: remapped(one, second, w, h), ..one };
    lemma_wf(p);
    assert forall|x: int, y: int, c: int|
        0 <= x < two.width && 0 <= y < two.height && 0 <= c < two.pixel_format.spec_bpp()
        implies #[trigger] two.at(x, y, c) == goal.at(x, y, c) by {
        let s = second.source(w, h, w, h, x, y);
        lemma_remapped_at(one, second, two, x, y, c);
        lemma_source(second, w, h, w, h, x, y);
        lemma_remapped_at(p, first, one, s.0, s.1, c);
    }
    lemma_same_pixels(two, goal);
}

/// The sum of two turns, in quarters.
proof fn lemma_sum_of_turns(first: Rotate, second: Rotate)
    ensures
        Rotate::of_degrees(first.spec_degrees() + second.spec_degrees()) == match (first, second) {
            (Rotate::R0, turn) => turn,
            (turn, Rotate::R0) => turn,
            (Rotate::R90, Rotate::R90) => Rotate::R180,
            (Rotate::R90, Rotate::R180) => Rotate::R270,
            (Rotate::R180, Rotate::R90) => Rotate::R270,
            (Rotate::R180, Rotate::R270) => Rotate::R90,
            (Rotate::R270, Rotate::R180) => Rotate::R90,
            (Rotate::R270, Rotate::R270) => Rotate::R180,
            _ => Rotate::R0,
        },
{
}

/// Where the pixel at a place of a turned picture came from.
proof fn turned_from(p: Picture, turn: Rotate, x: int, y: int, c: int) -> (s: (int, int))
    requires
        p.wf(),
        0 <= x < rotated(p, turn).width,
        0 <= y < rotated(p, turn).height,
        0 <= c < p.pixel_format.spec_bpp(),
    ensures
        s == match turn {
            Rotate::R0 => (x, y),
            Rotate::R90 => (y, p.height - 1 - x),
            Rotate::R180 => (p.width - 1 - x, p.height - 1 - y),
            Rotate::R270 => (p.width - 1 - y, x),
        },
        rotated(p, turn).at(x, y, c) == p.at(s.0, s.1, c),
        0 <= s.0 < p.width,
        0 <= s.1 < p.height,
{
    let q = rotated(p, turn);
    match turn {
        Rotate::R0 => (x, y),
        Rotate::R90 => {
            lemma_remapped_at(p, Mapping::Quarter, q, x, y, c);
            (y, p.height - 1 - x)
        },
        Rotate::R180 => {
            lemma_remapped_at(p, Mapping::Half, q, x, y, c);
            (p.width - 1 - x, p.height - 1 - y)
        },
        Rotate::R270 => {
            lemma_remapped_at(p, Mapping::ThreeQuarters, q, x, y, c);
            (p.width - 1 - y, x)
        },
    }
}

// ---------------------------------------------------------------------------
// Laws
// ---------------------------------------------------------------------------

/// A crop has the size of its rectangle, and each of its pixels is the one that lies as far from the
/// corner of the rectangle in the picture.
pub proof fn crops_show_their_rectangle(p: Picture, rect: Rect, q: Picture, x: int, y: int, c: int)
    requires
        p.wf(),
        cropped(p, rect) == Ok::<Picture, Failure>(q),
        0 <= x < q.width,
        0 <= y < q.height,
        0 <= c < p.pixel_format.spec_bpp(),
    ensures
        q.width == rect.width,
        q.height == rect.height,
        q.pixel_format == p.pixel_format,
        0 <= rect.x + x < p.width,
        0 <= rect.y + y < p.height,
        q.at(x, y, c) == p.at(rect.x + x, rect.y + y, c),
{
    let m = Mapping::Crop { left: rect.x as u32, top: rect.y as u32 };
    lemma_remapped_at(p, m, q, x, y, c);
}

/// A crop is made exactly where its rectangle is not empty and lies inside the picture.
pub proof fn crops_lie_inside(p: Picture, rect: Rect)
    ensures
        cropped(p, rect) is Ok <==> 0 < rect.width && 0 < rect.height && 0 <= rect.x && 0 <= rect.y
            && rect.x + rect.width <= p.width && rect.y + rect.height <= p.height,
{
}

/// A quarter turn clockwise moves the pixel in column `x` of row `y` to column `height - 1 - y` of row
/// `x`, a half turn to the opposite place, and three quarters back to row `width - 1 - x` of column
/// `y`.
pub proof fn turns_move_pixels_clockwise(p: Picture, x: int, y: int, c: int)
    requires
        p.wf(),
        0 <= x < p.width,
        0 <= y < p.height,
        0 <= c < p.pixel_format.spec_bpp(),
    ensures
        rotated(p, Rotate::R0) == p,
        rotated(p, Rotate::R90).width == p.height && rotated(p, Rotate::R90).height == p.width,
        rotated(p, Rotate::R180).width == p.width && rotated(p, Rotate::R180).height == p.height,
        rotated(p, Rotate::R270).width == p.height && rotated(p, Rotate::R270).height == p.width,
        rotated(p, Rotate::R90).at(p.height - 1 - y, x, c) == p.at(x, y, c),
        rotated(p, Rotate::R180).at(p.width - 1 - x, p.height - 1 - y, c) == p.at(x, y, c),
        rotated(p, Rotate::R270).at(y, p.width - 1 - x, c) == p.at(x, y, c),
{
    let a = turned_from(p, Rotate::R90, p.height - 1 - y, x, c);
    let b = turned_from(p, Rotate::R180, p.width - 1 - x, p.height - 1 - y, c);
    let d = turned_from(p, Rotate::R270, y, p.width - 1 - x, c);
}

/// A horizontal flip exchanges columns and a vertical flip exchanges rows.
pub proof fn flips_exchange_sides(p: Picture, x: int, y: int, c: int)
    requires
        p.wf(),
        0 <= x < p.width,
        0 <= y < p.height,
        0 <= c < p.pixel_format.spec_bpp(),
    ensures
        mirrored(p).width == p.width && mirrored(p).height == p.height,
        overturned(p).width == p.width && overturned(p).height == p.height,
        mirrored(p).at(p.width - 1 - x, y, c) == p.at(x, y, c),
        overturned(p).at(x, p.height - 1 - y, c) == p.at(x, y, c),
{
    lemma_remapped_at(p, Mapping::Mirror, mirrored(p), p.width - 1 - x, y, c);
    lemma_remapped_at(p, Mapping::Overturn, overturned(p), x, p.height - 1 - y, c);
}

} // verus!
