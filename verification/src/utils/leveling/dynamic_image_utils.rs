//! Pixel geometry and pixel edits of the rank card images.

use vstd::prelude::*;

verus! {

/// How far column `x` lies inside the rounded corner zone of width `radius`.
pub open spec fn corner_dx(x: int, width: int, radius: int) -> int {
    if x < radius {
        radius - x
    } else if x >= width - radius {
        x - (width - radius - 1)
    } else {
        0
    }
}

/// Whether a pixel stays visible once the corners are rounded with `radius`.
pub open spec fn corner_keeps(x: int, y: int, width: int, height: int, radius: int) -> bool {
    corner_dx(x, width, radius) * corner_dx(x, width, radius) + corner_dx(y, height, radius) * corner_dx(
        y,
        height,
        radius,
    ) <= radius * radius
}

/// Whether pixel `(x, y)` of a `width` by `height` image survives rounding the corners
/// with `radius`.
pub fn keeps_pixel(x: u32, y: u32, width: u32, height: u32, radius: u32) -> (r: bool)
    requires
        x < width,
        y < height,
        radius * radius <= u32::MAX,
        corner_dx(x as int, width as int, radius as int) * corner_dx(x as int, width as int, radius as int)
            + corner_dx(y as int, height as int, radius as int) * corner_dx(y as int, height as int, radius as int)
            <= u32::MAX,
    ensures
        r == corner_keeps(x as int, y as int, width as int, height as int, radius as int),
{
    let dx: u32 = if x < radius {
        radius - x
    } else if x >= width - radius {
        x - (width - radius - 1)
    } else {
        0
    };
    let dy: u32 = if y < radius {
        radius - y
    } else if y >= height - radius {
        y - (height - radius - 1)
    } else {
        0
    };
    assert(dx * dx >= 0 && dy * dy >= 0) by (nonlinear_arith);
    dx * dx + dy * dy <= radius * radius
}

/// The offset that centres an overlay on a base image.
pub fn centered_offset(base_width: u32, base_height: u32, overlay_width: u32, overlay_height: u32) -> (r: (u32, u32))
    requires
        overlay_width <= base_width,
        overlay_height <= base_height,
    ensures
        r.0 == (base_width - overlay_width) / 2,
        r.1 == (base_height - overlay_height) / 2,
{
    ((base_width - overlay_width) / 2, (base_height - overlay_height) / 2)
}

/// An RGBA image: `width * height` pixels, row by row.
#[derive(Debug, Clone)]
pub struct PixelBuffer {
    pub width: u32,
    pub height: u32,
    pub pixels: Vec<[u8; 4]>,
}

impl PixelBuffer {
    /// The buffer holds one pixel per position.
    pub open spec fn wf(&self) -> bool {
        self.pixels@.len() == self.width * self.height
    }
}

/// The picture that `image::guess_format` and `image::load` read from `bytes`, as
/// RGBA: its width, its height and its pixels row by row; `None` when the format is
/// not recognised or the bytes do not decode.
pub uninterp spec fn decoded_rgba(bytes: Seq<u8>) -> Option<(u32, u32, Seq<[u8; 4]>)>;

/// `image::guess_format` on the bytes, `image::load` in that format, then
/// `to_rgba8`: the decoded picture as RGBA pixels, one per position, or `None` when
/// either call fails.
#[verifier::external_body]
fn decode_rgba(bytes: &Vec<u8>) -> (r: Option<PixelBuffer>)
    ensures
        match r {
            Some(b) => decoded_rgba(bytes@) == Some((b.width, b.height, b.pixels@)) && b.wf(),
            None => decoded_rgba(bytes@) is None,
        },
{
    let format = match image::guess_format(bytes) {
        Ok(f) => f,
        Err(_) => return None,
    };
    match image::load(std::io::Cursor::new(bytes), format) {
        Ok(picture) => {
            let rgba = picture.to_rgba8();
            Some(PixelBuffer { width: rgba.width(), height: rgba.height(), pixels: rgba.pixels().map(|p| p.0).collect() })
        },
        Err(_) => None,
    }
}

/// The picture held by downloaded `bytes`, in whatever format they are, as RGBA
/// pixels; `None` when the format is not recognised or the bytes do not decode.
pub fn picture_from_bytes(bytes: &Vec<u8>) -> (r: Option<PixelBuffer>)
    ensures
        match r {
            Some(b) => decoded_rgba(bytes@) == Some((b.width, b.height, b.pixels@)) && b.wf(),
            None => decoded_rgba(bytes@) is None,
        },
{
    decode_rgba(bytes)
}

proof fn lemma_corner_dx_bound(x: int, width: int, radius: int)
    requires
        0 <= x < width,
        0 <= radius,
    ensures
        0 <= corner_dx(x, width, radius) <= radius,
{
}

proof fn lemma_position(i: int, w: int, h: int)
    requires
        0 < w,
        0 <= i < w * h,
    ensures
        0 <= i % w < w,
        0 <= i / w < h,
{
    assert(0 <= i % w < w) by (nonlinear_arith)
        requires
            0 < w,
            0 <= i,
    ;
    assert(i / w < h) by (nonlinear_arith)
        requires
            0 < w,
            0 <= i < w * h,
    ;
    assert(0 <= i / w) by (nonlinear_arith)
        requires
            0 < w,
            0 <= i,
    ;
}

/// Makes the corners of `image` transparent: a pixel at column `x` and row `y` (index
/// `y * width + x`) keeps its colour when `corner_keeps` holds and becomes `[0, 0, 0, 0]`
/// otherwise.
pub fn add_rounded_corners(image: PixelBuffer, radius: u32) -> (r: PixelBuffer)
    requires
        image.wf(),
        image.width == 0 || image.height == 0 || 2 * radius * radius <= u32::MAX,
    ensures
        r.wf(),
        r.width == image.width,
        r.height == image.height,
        forall|i: int| 0 <= i < image.pixels@.len() ==> #[trigger] r.pixels@[i] == (if corner_keeps(
            i % (image.width as int),
            i / (image.width as int),
            image.width as int,
            image.height as int,
            radius as int,
        ) {
            image.pixels@[i]
        } else {
            [0u8, 0u8, 0u8, 0u8]
        }),
{
    let width = image.width;
    let height = image.height;
    let ghost before = image.pixels@;
    let mut pixels = image.pixels;
    let n = pixels.len();
    let mut i: usize = 0;
    while i < n
        invariant
            n == before.len(),
            n == width * height,
            pixels@.len() == n,
            i <= n,
            width == 0 || height == 0 || 2 * radius * radius <= u32::MAX,
            forall|j: int| i <= j < n ==> pixels@[j] == before[j],
            forall|j: int| 0 <= j < i ==> #[trigger] pixels@[j] == (if corner_keeps(
                j % (width as int),
                j / (width as int),
                width as int,
                height as int,
                radius as int,
            ) {
                before[j]
            } else {
                [0u8, 0u8, 0u8, 0u8]
            }),
        decreases n - i,
    {
        assert(width > 0 && height > 0) by (nonlinear_arith)
            requires
                0 <= i < n,
                n == width * height,
        ;
        proof {
            lemma_position(i as int, width as int, height as int);
        }
        let x = (i % (width as usize)) as u32;
        let y = (i / (width as usize)) as u32;
        proof {
            lemma_corner_dx_bound(x as int, width as int, radius as int);
            lemma_corner_dx_bound(y as int, height as int, radius as int);
            let dx = corner_dx(x as int, width as int, radius as int);
            let dy = corner_dx(y as int, height as int, radius as int);
            assert(dx * dx <= radius * radius && dy * dy <= radius * radius) by (nonlinear_arith)
                requires
                    0 <= dx <= radius,
                    0 <= dy <= radius,
            ;
            assert(radius * radius + radius * radius == 2 * radius * radius) by (nonlinear_arith);
        }
        if !keeps_pixel(x, y, width, height, radius) {
            pixels.set(i, [0u8, 0u8, 0u8, 0u8]);
        }
        i += 1;
    }
    PixelBuffer { width, height, pixels }
}

/// Sets the alpha of every pixel to `alpha`, keeping the colours.
pub fn set_transparency(image: PixelBuffer, alpha: u8) -> (r: PixelBuffer)
    ensures
        r.width == image.width,
        r.height == image.height,
        r.pixels@.len() == image.pixels@.len(),
        forall|i: int| 0 <= i < image.pixels@.len() ==> {
            &&& (#[trigger] r.pixels@[i])[0] == image.pixels@[i][0]
            &&& r.pixels@[i][1] == image.pixels@[i][1]
            &&& r.pixels@[i][2] == image.pixels@[i][2]
            &&& r.pixels@[i][3] == alpha
        },
{
    let ghost before = image.pixels@;
    let mut pixels = image.pixels;
    let mut i: usize = 0;
    while i < pixels.len()
        invariant
            pixels@.len() == before.len(),
            i <= pixels.len(),
            forall|j: int| i <= j < before.len() ==> pixels@[j] == before[j],
            forall|j: int| 0 <= j < i ==> {
                &&& (#[trigger] pixels@[j])[0] == before[j][0]
                &&& pixels@[j][1] == before[j][1]
                &&& pixels@[j][2] == before[j][2]
                &&& pixels@[j][3] == alpha
            },
        decreases pixels.len() - i,
    {
        let p = pixels[i];
        pixels.set(i, [p[0], p[1], p[2], alpha]);
        i += 1;
    }
    PixelBuffer { width: image.width, height: image.height, pixels }
}

} // verus!
