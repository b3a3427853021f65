//! Images as plain bytes, and the operations of the `image` and `imageproc`
//! crates that the pipeline applies to them.

use vstd::prelude::*;

verus! {

/// How the bytes of an image make up its pixels.
#[derive(Debug, Clone, Copy, PartialEq, Eq, Structural)]
pub enum PixelFormat {
    /// One byte per pixel.
    Gray,
    /// Three bytes per pixel: red, green, blue.
    Rgb,
}

/// An 8-bit image: its pixels row by row, the samples of a pixel side by side.
#[derive(Debug, Clone, PartialEq, Eq)]
pub struct Image {
    pub width: u32,
    pub height: u32,
    pub format: PixelFormat,
    pub pixels: Vec<u8>,
}

/// Largest pixel coordinate that an outline is drawn up to: the drawing works
/// on 32-bit floating point, which holds every whole number up to here.
pub const DRAWING_LIMIT: u32 = 0x0100_0000;

/// A pixel rectangle inside an image.
#[derive(Debug, Clone, Copy, PartialEq, Eq, Structural)]
pub struct Region {
    pub x: u32,
    pub y: u32,
    pub width: u32,
    pub height: u32,
}

impl PixelFormat {
    /// Bytes per pixel.
    pub open spec fn channels(self) -> int {
        match self {
            PixelFormat::Gray => 1,
            PixelFormat::Rgb => 3,
        }
    }

    /// Bytes per pixel.
    pub fn channel_count(&self) -> (n: usize)
        ensures
            n == self.channels(),
    {
        match self {
            PixelFormat::Gray => 1,
            PixelFormat::Rgb => 3,
        }
    }
}

impl Image {
    /// The image holds exactly the bytes that its dimensions and format call for.
    pub open spec fn well_formed(&self) -> bool {
        self.pixels@.len() == self.width * self.height * self.format.channels()
    }

    /// The image has no pixel.
    pub open spec fn is_empty(&self) -> bool {
        self.width == 0 || self.height == 0
    }

    /// Tests `well_formed`.
    pub fn is_well_formed(&self) -> (r: bool)
        ensures
            r == self.well_formed(),
    {
        assert(self.width * self.height <= 0xffff_ffff * 0xffff_ffff) by (nonlinear_arith)
            requires
                self.width <= 0xffff_ffff,
                self.height <= 0xffff_ffff,
        ;
        let area: u64 = (self.width as u64) * (self.height as u64);
        let channels: u128 = self.format.channel_count() as u128;
        assert(area * channels <= 0xffff_ffff * 0xffff_ffff * 3) by (nonlinear_arith)
            requires
                area <= 0xffff_ffff * 0xffff_ffff,
                channels <= 3,
        ;
        let expected: u128 = (area as u128) * channels;
        self.pixels.len() as u128 == expected
    }
}

impl Region {
    /// The rectangle has no pixel.
    pub open spec fn is_empty(&self) -> bool {
        self.width == 0 || self.height == 0
    }

    /// The rectangle lies within an image of the given size.
    pub open spec fn fits(&self, width: u32, height: u32) -> bool {
        self.x + self.width <= width && self.y + self.height <= height
    }
}

/// What `DynamicImage::to_luma8` makes of the bytes of an RGB image.
pub uninterp spec fn rgb_luma(pixels: Seq<u8>) -> Seq<u8>;

/// What `DynamicImage::resize_exact` makes of the bytes of an RGB image of
/// the given size when it brings it to the new size with the triangle filter.
pub uninterp spec fn triangle_resized(
    pixels: Seq<u8>,
    width: int,
    height: int,
    new_width: int,
    new_height: int,
) -> Seq<u8>;

/// What `imageproc::contrast::adaptive_threshold` makes of a gray image.
pub uninterp spec fn adaptive_threshold_of(
    pixels: Seq<u8>,
    width: int,
    height: int,
    block_radius: int,
    delta: int,
) -> Seq<u8>;

/// The pixel in column `x` and row `y` lies on the outline of `region`: within
/// it, and in its first or last column or row.
pub open spec fn on_outline(region: Region, x: int, y: int) -> bool {
    &&& region.x <= x < region.x + region.width
    &&& region.y <= y < region.y + region.height
    &&& (x == region.x || x == region.x + region.width - 1 || y == region.y || y == region.y
        + region.height - 1)
}

/// The bytes of an RGB image that is `width` pixels wide, with the outline
/// of `region` in `color`: a pixel on the outline has the colour, every other
/// pixel is as it was.
pub open spec fn with_outline(pixels: Seq<u8>, width: int, region: Region, color: Seq<u8>) -> Seq<
    u8,
> {
    Seq::new(
        pixels.len(),
        |i: int|
            if on_outline(region, (i / 3) % width, (i / 3) / width) {
                color[i % 3]
            } else {
                pixels[i]
            },
    )
}

/// The bytes of the `region` of an image that is `source_width` pixels wide.
pub open spec fn crop_of(pixels: Seq<u8>, source_width: int, channels: int, region: Region) -> Seq<
    u8,
> {
    Seq::new(
        (region.width * region.height * channels) as nat,
        |i: int|
            pixels[((region.y + i / (region.width * channels)) * source_width + region.x) * channels
                + i % (region.width * channels)],
    )
}

/// One sample after contrast stretching: `in_low` and below go to `out_low`,
/// `in_high` and above to `out_high`, and what lies between is mapped linearly,
/// rounding down.
pub open spec fn stretched_sample(c: u8, in_low: u8, in_high: u8, out_low: u8, out_high: u8) -> int {
    if c <= in_low {
        out_low as int
    } else if c >= in_high {
        out_high as int
    } else {
        (c - in_low) * (out_high - out_low) / (in_high - in_low) + out_low
    }
}

/// Every sample of `pixels` after contrast stretching.
pub open spec fn stretched(pixels: Seq<u8>, in_low: u8, in_high: u8, out_low: u8, out_high: u8) -> Seq<
    u8,
> {
    Seq::new(
        pixels.len(),
        |i: int| stretched_sample(pixels[i], in_low, in_high, out_low, out_high) as u8,
    )
}

/// The samples of an interleaved RGB image of `count` pixels, one colour plane
/// after the other: all red samples, then all green, then all blue.
pub open spec fn planar(pixels: Seq<u8>, count: int) -> Seq<u8> {
    Seq::new((3 * count) as nat, |k: int| pixels[(k % count) * 3 + k / count])
}

/// Calls `image::DynamicImage::to_luma8` on an RGB image. The result is a
/// gray image of the same size; its samples are the crate's weighted sums of
/// the three samples of each pixel, which are named and not spelled out.
#[verifier::external_body]
pub(crate) fn to_luma8(image: &Image) -> (r: Image)
    requires
        image.well_formed(),
        image.format == PixelFormat::Rgb,
    ensures
        r.width == image.width,
        r.height == image.height,
        r.format == PixelFormat::Gray,
        r.well_formed(),
        r.pixels@ == rgb_luma(image.pixels@),
{
    let source =
        image::RgbImage::from_raw(image.width, image.height, image.pixels.clone()).unwrap();
    let gray = image::DynamicImage::ImageRgb8(source).to_luma8();
    Image {
        width: image.width,
        height: image.height,
        format: PixelFormat::Gray,
        pixels: gray.into_raw(),
    }
}

/// Calls `image::DynamicImage::resize_exact` on an RGB image with the
/// triangle filter. The result has exactly the dimensions asked for; its
/// samples are named and not spelled out. The crate computes them from the
/// samples and the two sizes alone, with `+ - * /`, `floor`, `ceil` and
/// rounding.
#[verifier::external_body]
pub(crate) fn resize_triangle(image: &Image, width: u32, height: u32) -> (r: Image)
    requires
        image.well_formed(),
        image.format == PixelFormat::Rgb,
        !image.is_empty(),
        width > 0,
        height > 0,
        4 * image.width * height <= usize::MAX,
        4 * width * height <= usize::MAX,
    ensures
        r.width == width,
        r.height == height,
        r.format == PixelFormat::Rgb,
        r.well_formed(),
        r.pixels@ == triangle_resized(
            image.pixels@,
            image.width as int,
            image.height as int,
            width as int,
            height as int,
        ),
{
    let source =
        image::RgbImage::from_raw(image.width, image.height, image.pixels.clone()).unwrap();
    let kind = image::imageops::FilterType::Triangle;
    let sized = image::DynamicImage::ImageRgb8(source).resize_exact(width, height, kind);
    Image { width, height, format: PixelFormat::Rgb, pixels: sized.into_bytes() }
}

/// Calls `image::DynamicImage::resize_exact` on a gray image with the
/// Lanczos filter of window 3. The result has exactly the dimensions asked
/// for. Its samples come out of a kernel that takes a sine, whose precision
/// is left open, so nothing is claimed of them.
#[verifier::external_body]
pub(crate) fn resize_lanczos3(image: &Image, width: u32, height: u32) -> (r: Image)
    requires
        image.well_formed(),
        image.format == PixelFormat::Gray,
        !image.is_empty(),
        width > 0,
        height > 0,
        4 * image.width * height <= usize::MAX,
        4 * width * height <= usize::MAX,
    ensures
        r.width == width,
        r.height == height,
        r.format == PixelFormat::Gray,
        r.well_formed(),
{
    let source =
        image::GrayImage::from_raw(image.width, image.height, image.pixels.clone()).unwrap();
    let kind = image::imageops::FilterType::Lanczos3;
    let sized = image::DynamicImage::ImageLuma8(source).resize_exact(width, height, kind);
    Image { width, height, format: PixelFormat::Gray, pixels: sized.into_bytes() }
}

/// Calls `image::DynamicImage::crop_imm` with a rectangle that lies within the
/// image. The result holds the pixels of that rectangle, row by row.
#[verifier::external_body]
pub(crate) fn crop_imm(image: &Image, region: Region) -> (r: Image)
    requires
        image.well_formed(),
        region.fits(image.width, image.height),
    ensures
        r.width == region.width,
        r.height == region.height,
        r.format == image.format,
        r.well_formed(),
        r.pixels@ == crop_of(image.pixels@, image.width as int, image.format.channels(), region),
{
    let bytes = image.pixels.clone();
    let source = match image.format {
        PixelFormat::Gray => image::DynamicImage::ImageLuma8(
            image::GrayImage::from_raw(image.width, image.height, bytes).unwrap(),
        ),
        PixelFormat::Rgb => image::DynamicImage::ImageRgb8(
            image::RgbImage::from_raw(image.width, image.height, bytes).unwrap(),
        ),
    };
    let pixels = source.crop_imm(region.x, region.y, region.width, region.height).into_bytes();
    Image { width: region.width, height: region.height, format: image.format, pixels }
}

/// Calls `imageproc::contrast::stretch_contrast` on a gray image. Each sample
/// is mapped on its own, as `stretched_sample` says.
#[verifier::external_body]
pub(crate) fn stretch_contrast(
    image: &Image,
    in_low: u8,
    in_high: u8,
    out_low: u8,
    out_high: u8,
) -> (r: Image)
    requires
        image.well_formed(),
        image.format == PixelFormat::Gray,
        in_low < in_high,
        out_low <= out_high,
    ensures
        r.width == image.width,
        r.height == image.height,
        r.format == PixelFormat::Gray,
        r.well_formed(),
        r.pixels@ == stretched(image.pixels@, in_low, in_high, out_low, out_high),
{
    let source =
        image::GrayImage::from_raw(image.width, image.height, image.pixels.clone()).unwrap();
    let out = imageproc::contrast::stretch_contrast(&source, in_low, in_high, out_low, out_high);
    Image {
        width: image.width,
        height: image.height,
        format: PixelFormat::Gray,
        pixels: out.into_raw(),
    }
}

/// Calls `imageproc::contrast::adaptive_threshold` on a gray image that is not
/// empty and small enough for the crate's 32-bit running sums. The result has
/// the same size, and each of its samples is 0 or 255; which of the two is
/// named and not spelled out.
#[verifier::external_body]
pub(crate) fn adaptive_threshold(image: &Image, block_radius: u32, delta: i32) -> (r: Image)
    requires
        image.well_formed(),
        image.format == PixelFormat::Gray,
        !image.is_empty(),
        510 * image.width * image.height <= u32::MAX,
        0 < block_radius <= 0x7fff_ffff,
        -0x7fff_0000 <= delta,
    ensures
        r.width == image.width,
        r.height == image.height,
        r.format == PixelFormat::Gray,
        r.well_formed(),
        r.pixels@ == adaptive_threshold_of(
            image.pixels@,
            image.width as int,
            image.height as int,
            block_radius as int,
            delta as int,
        ),
        forall|i: int| 0 <= i < r.pixels@.len() ==> r.pixels@[i] == 0 || r.pixels@[i] == 255,
{
    let source =
        image::GrayImage::from_raw(image.width, image.height, image.pixels.clone()).unwrap();
    let out = imageproc::contrast::adaptive_threshold(&source, block_radius, delta);
    Image {
        width: image.width,
        height: image.height,
        format: PixelFormat::Gray,
        pixels: out.into_raw(),
    }
}

/// Calls `imageproc::drawing::draw_hollow_rect` on an RGB image whose sides
/// fit `i32`, with a rectangle that is not empty and whose corners are within
/// `DRAWING_LIMIT`, so that the crate's conversion of them to floating point
/// and back is exact. The crate draws the four sides of the rectangle, each
/// from corner to corner, on the pixels that lie inside the image.
#[verifier::external_body]
pub(crate) fn draw_hollow_rect(image: &Image, region: Region, color: [u8; 3]) -> (r: Image)
    requires
        image.well_formed(),
        image.format == PixelFormat::Rgb,
        image.width <= i32::MAX,
        image.height <= i32::MAX,
        !region.is_empty(),
        region.x + region.width <= DRAWING_LIMIT,
        region.y + region.height <= DRAWING_LIMIT,
    ensures
        r.width == image.width,
        r.height == image.height,
        r.format == PixelFormat::Rgb,
        r.well_formed(),
        r.pixels@ == with_outline(image.pixels@, image.width as int, region, color@),
{
    let source =
        image::RgbImage::from_raw(image.width, image.height, image.pixels.clone()).unwrap();
    let rect = imageproc::rect::Rect::at(region.x as i32, region.y as i32).of_size(
        region.width,
        region.height,
    );
    let out = imageproc::drawing::draw_hollow_rect(&source, rect, image::Rgb(color));
    Image {
        width: image.width,
        height: image.height,
        format: PixelFormat::Rgb,
        pixels: out.into_raw(),
    }
}

/// Rearranges an interleaved RGB image into colour planes.
pub fn planar_samples(image: &Image) -> (tensor: Vec<u8>)
    requires
        image.well_formed(),
        image.format == PixelFormat::Rgb,
    ensures
        tensor@ == planar(image.pixels@, image.width * image.height),
{
    let total: usize = image.pixels.len();
    let count: usize = total / 3;
    let ghost n = image.width * image.height;
    assert(count == n);
    let mut tensor: Vec<u8> = Vec::new();
    let mut channel: usize = 0;
    while channel < 3
        invariant
            channel <= 3,
            total == image.pixels@.len(),
            total == 3 * count,
            tensor@.len() == channel * count,
            forall|k: int|
                0 <= k < tensor@.len() ==> tensor@[k] == image.pixels@[(k % (count as int)) * 3 + k
                    / (count as int)],
        decreases 3 - channel,
    {
        let mut p: usize = 0;
        while p < count
            invariant
                channel < 3,
                p <= count,
                total == image.pixels@.len(),
                total == 3 * count,
                tensor@.len() == channel * count + p,
                forall|k: int|
                    0 <= k < tensor@.len() ==> tensor@[k] == image.pixels@[(k % (count as int)) * 3
                        + k / (count as int)],
            decreases count - p,
        {
            let ghost k = (channel * count + p) as int;
            assert(k % (count as int) == p && k / (count as int) == channel) by {
                vstd::arithmetic::div_mod::lemma_fundamental_div_mod_converse(
                    k,
                    count as int,
                    channel as int,
                    p as int,
                );
            }
            tensor.push(image.pixels[p * 3 + channel]);
            p = p + 1;
        }
        assert((channel + 1) * count == channel * count + count) by (nonlinear_arith);
        channel = channel + 1;
    }
    tensor
}

} // verus!
