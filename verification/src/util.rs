//! Small helpers around the pixel sink: the strict range test used by
//! nearest-hit selection, color quantization to `image` pixels, and the
//! center-origin/top-left-origin canvas coordinate conversions.
use crate::fx::SCALE;
use crate::vec3::V3;
use vstd::prelude::*;

verus! {

/// Strict range test used by nearest-hit selection: `min < x < max`.
pub fn in_range(x: i64, min: i64, max: i64) -> (r: bool)
    ensures
        r == (min < x && x < max),
{
    min < x && x < max
}

#[verifier::external_type_specification]
#[verifier::external_body]
#[verifier::reject_recursive_types(T)]
pub struct ExRgb<T>(image::Rgb<T>);

/// The three channels an `image::Rgb<u8>` pixel holds.
pub uninterp spec fn rgb_channels(c: image::Rgb<u8>) -> (u8, u8, u8);

/// Relies on image::Rgb being a plain wrapper over its `[T; 3]` channel
/// array: constructing one from `r`, `g`, `b` yields exactly those channels.
#[verifier::external_body]
fn rgb_new(r: u8, g: u8, b: u8) -> (c: image::Rgb<u8>)
    ensures
        rgb_channels(c) == (r, g, b),
{
    image::Rgb([r, g, b])
}

/// One fixed-point color component quantized to a display level: clamped
/// to `[0, 255]` and rounded to the nearest integer.
pub open spec fn channel_of(v: int) -> int {
    let c = if v < 0 {
        0
    } else if v > 255 * SCALE {
        255 * SCALE as int
    } else {
        v
    };
    (c + SCALE / 2) / (SCALE as int)
}

/// One fixed-point color component quantized to a display level.
pub fn quantize_channel(v: i64) -> (r: u8)
    ensures
        r as int == channel_of(v as int),
{
    let c: i64 = if v < 0 {
        0
    } else if v > 255 * SCALE {
        255 * SCALE
    } else {
        v
    };
    (((c as u64) + 32768) / 65536) as u8
}

/// A fixed-point color vector quantized to an `image` pixel: each channel
/// clamped to `[0, 255]` and rounded to the nearest displayable level.
pub fn v3_to_rgb(v: V3) -> (c: image::Rgb<u8>)
    ensures
        rgb_channels(c) == (
            channel_of(v.x as int) as u8,
            channel_of(v.y as int) as u8,
            channel_of(v.z as int) as u8,
        ),
{
    let r = quantize_channel(v.x);
    let g = quantize_channel(v.y);
    let b = quantize_channel(v.z);
    rgb_new(r, g, b)
}

/// A raster image the tracer draws into, wrapping an `image` RGB buffer.
/// The buffer is opaque to the verifier (its type cannot be declared: the
/// declaration carries the crate's own `Pixel` trait bound); `img_pixels`,
/// `img_width` and `img_height` name what it holds. The field is public
/// only so the unverified shell can encode and save the finished frame.
#[verifier::external_body]
pub struct Canvas {
    pub buffer: image::RgbImage,
}

/// The pixels a canvas holds, keyed by top-left-origin coordinates.
pub uninterp spec fn img_pixels(img: Canvas) -> Map<(u32, u32), (u8, u8, u8)>;

/// The pixel width of a canvas.
pub uninterp spec fn img_width(img: Canvas) -> u32;

/// The pixel height of a canvas.
pub uninterp spec fn img_height(img: Canvas) -> u32;

impl Canvas {
    /// Relies on image::ImageBuffer::new building a buffer of the given
    /// dimensions with every channel zero.
    #[verifier::external_body]
    pub fn new(width: u32, height: u32) -> (r: Canvas)
        ensures
            img_width(r) == width,
            img_height(r) == height,
            img_pixels(r) == Map::new(
                |k: (u32, u32)| k.0 < width && k.1 < height,
                |k: (u32, u32)| (0u8, 0u8, 0u8),
            ),
    {
        Canvas { buffer: image::RgbImage::new(width, height) }
    }

    /// Relies on image::ImageBuffer::width.
    #[verifier::external_body]
    pub fn width(&self) -> (r: u32)
        ensures
            r == img_width(*self),
    {
        self.buffer.width()
    }

    /// Relies on image::ImageBuffer::height.
    #[verifier::external_body]
    pub fn height(&self) -> (r: u32)
        ensures
            r == img_height(*self),
    {
        self.buffer.height()
    }

    /// Relies on image::ImageBuffer::put_pixel storing exactly this pixel
    /// at `(x, y)` and leaving the dimensions alone. It panics outside the
    /// canvas, so the bounds are required here.
    #[verifier::external_body]
    pub fn put_pixel(&mut self, x: u32, y: u32, pixel: image::Rgb<u8>)
        requires
            x < img_width(*old(self)),
            y < img_height(*old(self)),
        ensures
            img_pixels(*final(self)) == img_pixels(*old(self)).insert((x, y), rgb_channels(pixel)),
            img_width(*final(self)) == img_width(*old(self)),
            img_height(*final(self)) == img_height(*old(self)),
    {
        self.buffer.put_pixel(x, y, pixel);
    }

    /// Relies on image::ImageBuffer::get_pixel returning the pixel stored
    /// at `(x, y)`. It panics outside the canvas, so the bounds are
    /// required here.
    #[verifier::external_body]
    pub fn get_pixel(&self, x: u32, y: u32) -> (r: (u8, u8, u8))
        requires
            x < img_width(*self),
            y < img_height(*self),
        ensures
            r == img_pixels(*self)[(x, y)],
    {
        let p = self.buffer.get_pixel(x, y);
        (p[0], p[1], p[2])
    }
}

/// Write a center-origin pixel into the raster: convert to top-left-origin
/// coordinates (one row up, as the renderer draws), store the color there,
/// or hand back the out-of-range converted pair as a recoverable per-pixel
/// error, leaving the canvas untouched.
pub fn draw_pixel(img: &mut Canvas, x: i32, y: i32, draw_color: image::Rgb<u8>) -> (r: Result<
    (),
    (i64, i64),
>)
    ensures
        ({
            let w = img_width(*old(img));
            let h = img_height(*old(img));
            let cx = w as int / 2 + x as int;
            let cy = h as int / 2 - y as int;
            match r {
                Ok(()) => {
                    &&& 0 <= cx < w
                    &&& 1 <= cy <= h
                    &&& img_pixels(*final(img)) == img_pixels(*old(img)).insert(
                        ((cx as u32, (cy - 1) as u32)),
                        rgb_channels(draw_color),
                    )
                    &&& img_width(*final(img)) == w
                    &&& img_height(*final(img)) == h
                },
                Err((ex, ey)) => {
                    &&& !(0 <= cx < w && 1 <= cy <= h)
                    &&& ex == cx
                    &&& ey == cy
                    &&& *final(img) == *old(img)
                },
            }
        }),
{
    let w = img.width();
    let h = img.height();
    match pixel_target(w, h, x, y) {
        Ok((cx, cy)) => {
            img.put_pixel(cx, cy, draw_color);
            Ok(())
        },
        Err(outside) => Err(outside),
    }
}

/// Convert a center-origin pixel coordinate to top-left-origin raster
/// coordinates on a `width * height` canvas. The result may fall outside
/// the canvas; `pixel_target` decides that.
pub fn middle_to_topleft(width: u32, height: u32, x: i32, y: i32) -> (r: (i64, i64))
    ensures
        r.0 == width as int / 2 + x as int,
        r.1 == height as int / 2 - y as int,
{
    ((width / 2) as i64 + x as i64, (height / 2) as i64 - y as i64)
}

/// Convert top-left-origin raster coordinates back to a center-origin
/// pixel coordinate.
pub fn topleft_to_middle(width: u32, height: u32, x: u32, y: u32) -> (r: (i64, i64))
    ensures
        r.0 == x as int - width as int / 2,
        r.1 == height as int / 2 - y as int,
{
    (x as i64 - (width / 2) as i64, (height / 2) as i64 - y as i64)
}

/// Where a center-origin pixel write lands on a `width * height` raster:
/// the in-bounds raster coordinates (with the one-row offset the renderer
/// draws with), or, as a recoverable per-pixel error, the out-of-range
/// converted pair.
pub fn pixel_target(width: u32, height: u32, x: i32, y: i32) -> (r: Result<(u32, u32), (i64, i64)>)
    ensures
        ({
            let cx = width as int / 2 + x as int;
            let cy = height as int / 2 - y as int;
            match r {
                Ok((rx, ry)) => 0 <= cx < width && 1 <= cy <= height && rx == cx && ry == cy - 1,
                Err((ex, ey)) => !(0 <= cx < width && 1 <= cy <= height) && ex == cx && ey == cy,
            }
        }),
{
    let (cx, cy) = middle_to_topleft(width, height, x, y);
    if 0 <= cx && cx < width as i64 && 1 <= cy && cy <= height as i64 {
        Ok((cx as u32, (cy - 1) as u32))
    } else {
        Err((cx, cy))
    }
}

} // verus!
