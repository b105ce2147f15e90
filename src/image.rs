use vstd::prelude::*;
use vstd::arithmetic::div_mod::lemma_fundamental_div_mod_converse;
use crate::buffer::Buffer;
use crate::error::Error;
use ::image::imageops;
use ::image::{RgbImage, RgbaImage};

verus! {

/// One of the eight orientations a compositor reports for an output.
#[derive(Clone, Copy, Debug, PartialEq, Eq, Structural)]
pub enum Transforms {
    Normal,
    Normal90,
    Normal180,
    Normal270,
    Flipped,
    Flipped90,
    Flipped180,
    Flipped270,
}

impl Transforms {
    /// Whether this orientation turns by a quarter, so that width and height trade places.
    pub open spec fn spec_swaps_dimensions(self) -> bool {
        matches!(self, Transforms::Normal90 | Transforms::Normal270 | Transforms::Flipped90 | Transforms::Flipped270)
    }

    #[verifier::when_used_as_spec(spec_swaps_dimensions)]
    pub fn swaps_dimensions(self) -> (r: bool)
        ensures
            r == self.spec_swaps_dimensions(),
    {
        match self {
            Transforms::Normal90 | Transforms::Normal270 | Transforms::Flipped90 | Transforms::Flipped270 => true,
            _ => false,
        }
    }
}

/// Offset of channel `k` of pixel `(x, y)` in a row-major grid `width` pixels wide
/// with `channels` bytes per pixel.
pub open spec fn pixel_index(width: int, channels: int, x: int, y: int, k: int) -> int {
    (y * width + x) * channels + k
}

/// The mathematical content of a pixel grid.
pub struct Raster {
    pub width: int,
    pub height: int,
    pub channels: int,
    pub data: Seq<u8>,
}

impl Raster {
    pub open spec fn wf(self) -> bool {
        &&& self.width >= 0
        &&& self.height >= 0
        &&& self.channels > 0
        &&& self.data.len() == self.width * self.height * self.channels
    }

    /// Channel `k` of the pixel in column `x` and row `y`.
    pub open spec fn at(self, x: int, y: int, k: int) -> u8 {
        self.data[pixel_index(self.width, self.channels, x, y, k)]
    }

    /// A grid `width` pixels wide whose channel `k` at `(x, y)` is `f(x, y, k)`.
    pub open spec fn build(width: int, height: int, channels: int, f: spec_fn(int, int, int) -> u8) -> Raster {
        Raster {
            width,
            height,
            channels,
            data: Seq::new(
                (width * height * channels) as nat,
                |i: int| f((i / channels) % width, (i / channels) / width, i % channels),
            ),
        }
    }

    /// Quarter turn clockwise: the result is `height` wide and `width` high.
    pub open spec fn rotate90(self) -> Raster {
        Raster::build(self.height, self.width, self.channels, |x: int, y: int, k: int| self.at(y, self.height - 1 - x, k))
    }

    /// Half turn.
    pub open spec fn rotate180(self) -> Raster {
        Raster::build(
            self.width,
            self.height,
            self.channels,
            |x: int, y: int, k: int| self.at(self.width - 1 - x, self.height - 1 - y, k),
        )
    }

    /// Three quarter turns clockwise: the result is `height` wide and `width` high.
    pub open spec fn rotate270(self) -> Raster {
        Raster::build(self.height, self.width, self.channels, |x: int, y: int, k: int| self.at(self.width - 1 - y, x, k))
    }

    /// Mirror image across the horizontal axis: the top row becomes the bottom row.
    pub open spec fn flip_vertical(self) -> Raster {
        Raster::build(self.width, self.height, self.channels, |x: int, y: int, k: int| self.at(x, self.height - 1 - y, k))
    }

    /// The grid after an output orientation is applied: flip first (for the flipped
    /// orientations), then rotate.
    pub open spec fn transformed(self, t: Transforms) -> Raster {
        match t {
            Transforms::Normal => self,
            Transforms::Normal90 => self.rotate90(),
            Transforms::Normal180 => self.rotate180(),
            Transforms::Normal270 => self.rotate270(),
            Transforms::Flipped => self.flip_vertical(),
            Transforms::Flipped90 => self.flip_vertical().rotate90(),
            Transforms::Flipped180 => self.flip_vertical().rotate180(),
            Transforms::Flipped270 => self.flip_vertical().rotate270(),
        }
    }

    /// Native pixels (blue, green, red, unused) as three-byte (red, green, blue) pixels;
    /// a grid that already has three channels is left as it is.
    pub open spec fn to_rgb(self) -> Raster {
        if self.channels == 3 {
            self
        } else {
            Raster {
                width: self.width,
                height: self.height,
                channels: 3,
                data: Seq::new((self.width * self.height * 3) as nat, |i: int| self.data[rgb_source(i)]),
            }
        }
    }
}

/// Where byte `i` of a three-byte (red, green, blue) grid comes from in the four-byte
/// (blue, green, red, unused) grid of the same pixels.
pub open spec fn rgb_source(i: int) -> int {
    (i / 3) * 4 + (2 - i % 3)
}

/// The coordinates of a position in a row-major grid, and the position from its coordinates.
pub proof fn lemma_pixel_coordinates(width: int, height: int, channels: int, x: int, y: int, k: int)
    requires
        0 <= x < width,
        0 <= y < height,
        0 <= k < channels,
    ensures
        0 <= pixel_index(width, channels, x, y, k) < width * height * channels,
        pixel_index(width, channels, x, y, k) % channels == k,
        (pixel_index(width, channels, x, y, k) / channels) % width == x,
        (pixel_index(width, channels, x, y, k) / channels) / width == y,
{
    let p = y * width + x;
    let i = p * channels + k;
    lemma_fundamental_div_mod_converse(i, channels, p, k);
    lemma_fundamental_div_mod_converse(p, width, y, x);
    assert(0 <= p < width * height) by (nonlinear_arith)
        requires
            p == y * width + x,
            0 <= x < width,
            0 <= y < height,
    ;
    assert(0 <= i < width * height * channels) by (nonlinear_arith)
        requires
            i == p * channels + k,
            0 <= p < width * height,
            0 <= k < channels,
    ;
}

/// Every position of a row-major grid is the position of its own coordinates.
pub proof fn lemma_position_coordinates(width: int, height: int, channels: int, i: int)
    requires
        width > 0,
        height >= 0,
        channels > 0,
        0 <= i < width * height * channels,
    ensures
        0 <= (i / channels) % width < width,
        0 <= (i / channels) / width < height,
        0 <= i % channels < channels,
        i == pixel_index(width, channels, (i / channels) % width, (i / channels) / width, i % channels),
{
    let p = i / channels;
    let k = i % channels;
    let x = p % width;
    let y = p / width;
    assert(i == p * channels + k) by (nonlinear_arith)
        requires
            channels > 0,
            p == i / channels,
            k == i % channels,
    ;
    assert(p == y * width + x) by (nonlinear_arith)
        requires
            width > 0,
            x == p % width,
            y == p / width,
    ;
    assert(0 <= p < width * height) by (nonlinear_arith)
        requires
            channels > 0,
            p == i / channels,
            0 <= i < width * height * channels,
    ;
    assert(0 <= y < height) by (nonlinear_arith)
        requires
            width > 0,
            y == p / width,
            0 <= p < width * height,
    ;
}

/// Two well-formed grids with the same shape and the same pixels are the same grid.
pub proof fn lemma_raster_ext(a: Raster, b: Raster)
    requires
        a.wf(),
        b.wf(),
        a.width == b.width,
        a.height == b.height,
        a.channels == b.channels,
        forall|x: int, y: int, k: int|
            0 <= x < a.width && 0 <= y < a.height && 0 <= k < a.channels ==> #[trigger] a.at(x, y, k) == b.at(x, y, k),
    ensures
        a == b,
{
    if a.width > 0 {
        assert forall|i: int| 0 <= i < a.data.len() implies a.data[i] == b.data[i] by {
            lemma_position_coordinates(a.width, a.height, a.channels, i);
            let x = (i / a.channels) % a.width;
            let y = (i / a.channels) / a.width;
            assert(a.at(x, y, i % a.channels) == b.at(x, y, i % a.channels));
        }
        assert(a.data =~= b.data);
    } else {
        assert(a.data.len() == 0) by (nonlinear_arith)
            requires
                a.width == 0,
                a.data.len() == a.width * a.height * a.channels,
        ;
        assert(a.data =~= b.data);
    }
}

/// What `build` puts at each position.
pub proof fn lemma_build_at(width: int, height: int, channels: int, f: spec_fn(int, int, int) -> u8, x: int, y: int, k: int)
    requires
        0 <= x < width,
        0 <= y < height,
        0 <= k < channels,
    ensures
        Raster::build(width, height, channels, f).at(x, y, k) == f(x, y, k),
        Raster::build(width, height, channels, f).wf(),
{
    lemma_pixel_coordinates(width, height, channels, x, y, k);
    assert(width * height * channels >= 0) by (nonlinear_arith)
        requires
            0 <= x < width,
            0 <= y < height,
            0 <= k < channels,
    ;
}

/// `build` always yields a well-formed grid.
pub proof fn lemma_build_wf(width: int, height: int, channels: int, f: spec_fn(int, int, int) -> u8)
    requires
        width >= 0,
        height >= 0,
        channels > 0,
    ensures
        Raster::build(width, height, channels, f).wf(),
{
    assert(width * height * channels >= 0) by (nonlinear_arith)
        requires
            width >= 0,
            height >= 0,
            channels > 0,
    ;
}

/// A half turn applied twice gives back the grid it started from.
pub proof fn lemma_rotate180_twice(r: Raster)
    requires
        r.wf(),
    ensures
        r.rotate180().rotate180() == r,
{
    let a = r.rotate180();
    let b = a.rotate180();
    lemma_build_wf(r.width, r.height, r.channels, |x: int, y: int, k: int| r.at(r.width - 1 - x, r.height - 1 - y, k));
    lemma_build_wf(a.width, a.height, a.channels, |x: int, y: int, k: int| a.at(a.width - 1 - x, a.height - 1 - y, k));
    assert forall|x: int, y: int, k: int| 0 <= x < r.width && 0 <= y < r.height && 0 <= k < r.channels implies #[trigger] b.at(x, y, k) == r.at(x, y, k) by {
        lemma_build_at(a.width, a.height, a.channels, |x: int, y: int, k: int| a.at(a.width - 1 - x, a.height - 1 - y, k), x, y, k);
        lemma_build_at(r.width, r.height, r.channels, |x: int, y: int, k: int| r.at(r.width - 1 - x, r.height - 1 - y, k), r.width - 1 - x, r.height - 1 - y, k);
    }
    lemma_raster_ext(b, r);
}

/// A quarter turn followed by three more quarter turns gives back the grid it started from.
pub proof fn lemma_rotate90_then_270(r: Raster)
    requires
        r.wf(),
    ensures
        r.rotate90().rotate270() == r,
{
    let a = r.rotate90();
    let b = a.rotate270();
    lemma_build_wf(r.height, r.width, r.channels, |x: int, y: int, k: int| r.at(y, r.height - 1 - x, k));
    lemma_build_wf(a.height, a.width, a.channels, |x: int, y: int, k: int| a.at(a.width - 1 - y, x, k));
    assert forall|x: int, y: int, k: int| 0 <= x < r.width && 0 <= y < r.height && 0 <= k < r.channels implies #[trigger] b.at(x, y, k) == r.at(x, y, k) by {
        lemma_build_at(a.height, a.width, a.channels, |x: int, y: int, k: int| a.at(a.width - 1 - y, x, k), x, y, k);
        lemma_build_at(r.height, r.width, r.channels, |x: int, y: int, k: int| r.at(y, r.height - 1 - x, k), r.height - 1 - y, x, k);
    }
    lemma_raster_ext(b, r);
}

/// The identity orientation leaves the grid, and so its aspect ratio, as it is.
pub proof fn lemma_transform_normal(r: Raster)
    ensures
        r.transformed(Transforms::Normal) == r,
{
}

/// The half-turn orientation applied twice gives back the grid it started from, with its
/// aspect ratio.
pub proof fn lemma_transform_normal180_twice(r: Raster)
    requires
        r.wf(),
    ensures
        r.transformed(Transforms::Normal180).transformed(Transforms::Normal180) == r,
{
    lemma_rotate180_twice(r);
}

/// The quarter-turn orientation followed by the three-quarter-turn orientation gives back
/// the grid it started from: its width, its height and every pixel.
pub proof fn lemma_transform_normal90_then_normal270(r: Raster)
    requires
        r.wf(),
    ensures
        r.transformed(Transforms::Normal90).transformed(Transforms::Normal270) == r,
{
    lemma_rotate90_then_270(r);
}

/// Converting to three-byte pixels a second time changes nothing.
pub proof fn lemma_to_rgb_idempotent(r: Raster)
    ensures
        r.to_rgb().to_rgb() == r.to_rgb(),
{
}

/// Pixel data that the image library resamples: `data` is `width` by `height` pixels of
/// `channels` bytes, resampled to `nwidth` by `nheight` with a triangle filter.
pub uninterp spec fn triangle_resized(channels: nat, width: nat, height: nat, data: Seq<u8>, nwidth: nat, nheight: nat) -> Seq<u8>;

/// A row-major grid of pixels; how many bytes make one pixel depends on the kind of
/// image that holds it.
#[derive(Clone, Debug)]
pub struct PixelBuffer {
    pub width: u32,
    pub height: u32,
    pub data: Vec<u8>,
}

/// Captured pixels either in the compositor's native four-byte order
/// (blue, green, red, unused) or converted to three-byte (red, green, blue).
#[derive(Clone, Debug)]
pub enum ImageKind {
    Rgb(PixelBuffer),
    Xrgb(PixelBuffer),
}

impl ImageKind {
    pub open spec fn pixels(self) -> PixelBuffer {
        match self {
            ImageKind::Rgb(p) => p,
            ImageKind::Xrgb(p) => p,
        }
    }

    pub open spec fn channels(self) -> int {
        match self {
            ImageKind::Rgb(_) => 3,
            ImageKind::Xrgb(_) => 4,
        }
    }

    /// The byte count matches the geometry, and a four-byte copy of the grid fits in memory.
    pub open spec fn wf(self) -> bool {
        &&& self@.wf()
        &&& self.pixels().width * self.pixels().height * 4 <= usize::MAX
    }
}

impl View for ImageKind {
    type V = Raster;

    open spec fn view(&self) -> Raster {
        Raster {
            width: self.pixels().width as int,
            height: self.pixels().height as int,
            channels: self.channels(),
            data: self.pixels().data@,
        }
    }
}

/// Relies on image::imageops::rotate90: source pixel (x, y) lands at (height - 1 - y, x)
/// of a result `height` wide and `width` high.
#[verifier::external_body]
fn rotate90_kind(kind: ImageKind) -> (r: ImageKind)
    requires
        kind.wf(),
    ensures
        r@ == kind@.rotate90(),
{
    match kind {
        ImageKind::Rgb(p) => {
            let out = imageops::rotate90(&RgbImage::from_raw(p.width, p.height, p.data).unwrap());
            ImageKind::Rgb(PixelBuffer { width: out.width(), height: out.height(), data: out.into_raw() })
        },
        ImageKind::Xrgb(p) => {
            let out = imageops::rotate90(&RgbaImage::from_raw(p.width, p.height, p.data).unwrap());
            ImageKind::Xrgb(PixelBuffer { width: out.width(), height: out.height(), data: out.into_raw() })
        },
    }
}

/// Relies on image::imageops::rotate270: source pixel (x, y) lands at (y, width - 1 - x)
/// of a result `height` wide and `width` high.
#[verifier::external_body]
fn rotate270_kind(kind: ImageKind) -> (r: ImageKind)
    requires
        kind.wf(),
    ensures
        r@ == kind@.rotate270(),
{
    match kind {
        ImageKind::Rgb(p) => {
            let out = imageops::rotate270(&RgbImage::from_raw(p.width, p.height, p.data).unwrap());
            ImageKind::Rgb(PixelBuffer { width: out.width(), height: out.height(), data: out.into_raw() })
        },
        ImageKind::Xrgb(p) => {
            let out = imageops::rotate270(&RgbaImage::from_raw(p.width, p.height, p.data).unwrap());
            ImageKind::Xrgb(PixelBuffer { width: out.width(), height: out.height(), data: out.into_raw() })
        },
    }
}

/// Relies on image::imageops::rotate180_in_place: pixels (x, y) and
/// (width - 1 - x, height - 1 - y) trade places.
#[verifier::external_body]
fn rotate180_kind(kind: ImageKind) -> (r: ImageKind)
    requires
        kind.wf(),
    ensures
        r@ == kind@.rotate180(),
{
    match kind {
        ImageKind::Rgb(p) => {
            let mut img = RgbImage::from_raw(p.width, p.height, p.data).unwrap();
            imageops::rotate180_in_place(&mut img);
            ImageKind::Rgb(PixelBuffer { width: p.width, height: p.height, data: img.into_raw() })
        },
        ImageKind::Xrgb(p) => {
            let mut img = RgbaImage::from_raw(p.width, p.height, p.data).unwrap();
            imageops::rotate180_in_place(&mut img);
            ImageKind::Xrgb(PixelBuffer { width: p.width, height: p.height, data: img.into_raw() })
        },
    }
}

/// Relies on image::imageops::flip_vertical_in_place: rows y and height - 1 - y trade places.
#[verifier::external_body]
fn flip_vertical_kind(kind: ImageKind) -> (r: ImageKind)
    requires
        kind.wf(),
    ensures
        r@ == kind@.flip_vertical(),
{
    match kind {
        ImageKind::Rgb(p) => {
            let mut img = RgbImage::from_raw(p.width, p.height, p.data).unwrap();
            imageops::flip_vertical_in_place(&mut img);
            ImageKind::Rgb(PixelBuffer { width: p.width, height: p.height, data: img.into_raw() })
        },
        ImageKind::Xrgb(p) => {
            let mut img = RgbaImage::from_raw(p.width, p.height, p.data).unwrap();
            imageops::flip_vertical_in_place(&mut img);
            ImageKind::Xrgb(PixelBuffer { width: p.width, height: p.height, data: img.into_raw() })
        },
    }
}

/// Relies on image::imageops::resize with the triangle filter: the result is exactly
/// `nwidth` by `nheight` pixels of the same kind. Its scratch grid is `width` by `nheight`
/// four-value pixels, hence the second bound.
#[verifier::external_body]
fn resize_kind(kind: ImageKind, nwidth: u32, nheight: u32) -> (r: ImageKind)
    requires
        kind.wf(),
        nwidth * nheight * 4 <= usize::MAX,
        kind.pixels().width * nheight * 4 <= usize::MAX,
    ensures
        r@ == (Raster {
            width: nwidth as int,
            height: nheight as int,
            channels: kind@.channels,
            data: triangle_resized(kind@.channels as nat, kind@.width as nat, kind@.height as nat, kind@.data, nwidth as nat, nheight as nat),
        }),
        r@.data.len() == nwidth * nheight * kind@.channels,
{
    let filter = imageops::FilterType::Triangle;
    match kind {
        ImageKind::Rgb(p) => {
            let out = imageops::resize(&RgbImage::from_raw(p.width, p.height, p.data).unwrap(), nwidth, nheight, filter);
            ImageKind::Rgb(PixelBuffer { width: nwidth, height: nheight, data: out.into_raw() })
        },
        ImageKind::Xrgb(p) => {
            let out = imageops::resize(&RgbaImage::from_raw(p.width, p.height, p.data).unwrap(), nwidth, nheight, filter);
            ImageKind::Xrgb(PixelBuffer { width: nwidth, height: nheight, data: out.into_raw() })
        },
    }
}

/// The target size that `resize_to_fit` picks for a `width` by `height` image: the shorter
/// side becomes `size` when it is longer than that, the other side keeps the proportion
/// (rounded down). A square image keeps its size.
pub open spec fn fit_dimensions(width: int, height: int, size: int) -> (int, int) {
    if height > width && width > size {
        (size, size * height / width)
    } else if width > height && height > size {
        (size * width / height, size)
    } else {
        (width, height)
    }
}

/// Fitting never makes a side longer, and with a target of at least one pixel it never
/// makes a side shorter than one pixel.
pub proof fn lemma_fit_dimensions_bounds(width: int, height: int, size: int)
    requires
        width >= 1,
        height >= 1,
        size >= 0,
    ensures
        0 <= fit_dimensions(width, height, size).0 <= width,
        0 <= fit_dimensions(width, height, size).1 <= height,
        size >= 1 ==> fit_dimensions(width, height, size).0 >= 1,
        size >= 1 ==> fit_dimensions(width, height, size).1 >= 1,
{
    if height > width && width > size {
        assert(size <= size * height / width <= height) by (nonlinear_arith)
            requires
                height > width,
                width > size,
                size >= 0,
        {
            assert(size * height >= size * width);
            assert(size * height / width >= size * width / width);
            assert(size * width / width == size);
            assert(size * height <= width * height);
            assert(size * height / width <= width * height / width);
            assert(width * height / width == height);
        }
    } else if width > height && height > size {
        assert(size <= size * width / height <= width) by (nonlinear_arith)
            requires
                width > height,
                height > size,
                size >= 0,
        {
            assert(size * width >= size * height);
            assert(size * width / height >= size * height / height);
            assert(size * height / height == size);
            assert(size * width <= height * width);
            assert(size * width / height <= height * width / height);
            assert(height * width / height == width);
        }
    }
}

/// When fitting changes the size, the new sides are no longer than the old ones, and the
/// products that compute them fit in 64 bits.
proof fn lemma_fit_within(width: int, height: int, size: int)
    requires
        0 <= width <= u32::MAX,
        0 <= height <= u32::MAX,
        0 <= size <= u32::MAX,
        (height > width && width > size) || (width > height && height > size),
    ensures
        size * height <= u64::MAX,
        size * width <= u64::MAX,
        0 <= fit_dimensions(width, height, size).0 <= width,
        0 <= fit_dimensions(width, height, size).1 <= height,
        fit_dimensions(width, height, size).0 * fit_dimensions(width, height, size).1 <= width * height,
        width * fit_dimensions(width, height, size).1 <= width * height,
{
    assert(size * height <= u64::MAX && size * width <= u64::MAX) by (nonlinear_arith)
        requires
            0 <= width <= u32::MAX,
            0 <= height <= u32::MAX,
            0 <= size <= u32::MAX,
    ;
    lemma_fit_dimensions_bounds(width, height, size);
    let (w, h) = fit_dimensions(width, height, size);
    assert(w * h <= width * height && width * h <= width * height) by (nonlinear_arith)
        requires
            0 <= w <= width,
            0 <= h <= height,
    ;
}

/// Turning or flipping a well-formed grid keeps it well formed.
proof fn lemma_reshaped_wf(before: ImageKind, after: ImageKind)
    requires
        before.wf(),
        after@ == before@.rotate90() || after@ == before@.rotate180() || after@ == before@.rotate270()
            || after@ == before@.flip_vertical(),
    ensures
        after.wf(),
{
    let w = before@.width;
    let h = before@.height;
    let c = before@.channels;
    assert(w * h * c >= 0 && h * w * c == w * h * c && h * w * 4 == w * h * 4) by (nonlinear_arith)
        requires
            w >= 0,
            h >= 0,
            c > 0,
    ;
}

/// A captured picture and the kind of pixels it holds.
#[derive(Debug)]
pub struct Image {
    pub buffer: ImageKind,
}

impl Image {
    pub open spec fn wf(self) -> bool {
        self.buffer.wf()
    }

    pub open spec fn spec_width(self) -> u32 {
        self.buffer.pixels().width
    }

    pub open spec fn spec_height(self) -> u32 {
        self.buffer.pixels().height
    }

    /// Build an image from a captured buffer, given the bytes `region` read from its
    /// backing storage: the bytes are taken with `get_bytes`, the buffer is destroyed, and
    /// the bytes become native four-byte pixels. Fails as `get_bytes` does.
    pub fn new(buffer: Buffer, region: Vec<u8>) -> (r: Result<Self, Error>)
        requires
            buffer.wf(),
        ensures
            r is Ok <==> buffer.read_result(region@) is Ok,
            r is Ok ==> ({
                let img = r->Ok_0;
                &&& img.wf()
                &&& img.buffer is Xrgb
                &&& img.buffer@ == (Raster {
                    width: buffer.spec_width() as int,
                    height: buffer.spec_height() as int,
                    channels: 4,
                    data: region@,
                })
            }),
            r is Err ==> r == Err::<Self, Error>(Error::BufferRead),
    {
        let mut buffer = buffer;
        let bytes = match buffer.get_bytes(region) {
            Ok(bytes) => bytes,
            Err(e) => return Err(e),
        };
        buffer.destroy();
        let img = Image { buffer: ImageKind::Xrgb(PixelBuffer { width: buffer.width(), height: buffer.height(), data: bytes }) };
        Ok(img)
    }

    pub fn width(&self) -> (r: u32)
        ensures
            r == self.spec_width(),
    {
        match &self.buffer {
            ImageKind::Rgb(p) => p.width,
            ImageKind::Xrgb(p) => p.width,
        }
    }

    pub fn height(&self) -> (r: u32)
        ensures
            r == self.spec_height(),
    {
        match &self.buffer {
            ImageKind::Rgb(p) => p.height,
            ImageKind::Xrgb(p) => p.height,
        }
    }

    /// The aspect ratio as the fraction `width / height` of the current pixel grid.
    pub fn aspect_ratio(&self) -> (r: (u32, u32))
        ensures
            r == (self.spec_width(), self.spec_height()),
    {
        (self.width(), self.height())
    }

    /// Move the pixels out, leaving an empty grid behind.
    fn take_buffer(&mut self) -> (r: ImageKind)
        ensures
            r == old(self).buffer,
    {
        let mut taken = ImageKind::Rgb(PixelBuffer { width: 0, height: 0, data: Vec::new() });
        std::mem::swap(&mut self.buffer, &mut taken);
        taken
    }

    /// Apply an output orientation: flip first (for the flipped orientations), then rotate.
    /// The aspect ratio follows the new grid, so quarter turns swap it.
    pub fn transform(self, transform: Transforms) -> (r: Self)
        requires
            self.wf(),
        ensures
            r.wf(),
            r.buffer@ == self.buffer@.transformed(transform),
    {
        let kind = self.buffer;
        let buffer = match transform {
            Transforms::Normal => kind,
            Transforms::Normal90 => {
                let r = rotate90_kind(kind);
                proof { lemma_reshaped_wf(kind, r); }
                r
            },
            Transforms::Normal180 => {
                let r = rotate180_kind(kind);
                proof { lemma_reshaped_wf(kind, r); }
                r
            },
            Transforms::Normal270 => {
                let r = rotate270_kind(kind);
                proof { lemma_reshaped_wf(kind, r); }
                r
            },
            Transforms::Flipped => {
                let r = flip_vertical_kind(kind);
                proof { lemma_reshaped_wf(kind, r); }
                r
            },
            Transforms::Flipped90 => {
                let f = flip_vertical_kind(kind);
                proof { lemma_reshaped_wf(kind, f); }
                let r = rotate90_kind(f);
                proof { lemma_reshaped_wf(f, r); }
                r
            },
            Transforms::Flipped180 => {
                let f = flip_vertical_kind(kind);
                proof { lemma_reshaped_wf(kind, f); }
                let r = rotate180_kind(f);
                proof { lemma_reshaped_wf(f, r); }
                r
            },
            Transforms::Flipped270 => {
                let f = flip_vertical_kind(kind);
                proof { lemma_reshaped_wf(kind, f); }
                let r = rotate270_kind(f);
                proof { lemma_reshaped_wf(f, r); }
                r
            },
        };
        Image { buffer }
    }

    /// Resample the pixels to exactly `width` by `height` with a triangle filter.
    pub fn resize(&mut self, width: u32, height: u32)
        requires
            old(self).wf(),
            width * height * 4 <= usize::MAX,
            old(self).spec_width() * height * 4 <= usize::MAX,
        ensures
            final(self).wf(),
            final(self).buffer@ == (Raster {
                width: width as int,
                height: height as int,
                channels: old(self).buffer@.channels,
                data: triangle_resized(
                    old(self).buffer@.channels as nat,
                    old(self).buffer@.width as nat,
                    old(self).buffer@.height as nat,
                    old(self).buffer@.data,
                    width as nat,
                    height as nat,
                ),
            }),
    {
        let buffer = resize_kind(self.take_buffer(), width, height);
        self.buffer = buffer;
    }

    /// Shrink the image so that its shorter side is `size` pixels, keeping the proportion;
    /// see `fit_dimensions` for when nothing changes.
    pub fn resize_to_fit(&mut self, size: u32)
        requires
            old(self).wf(),
        ensures
            final(self).wf(),
            final(self).spec_width() == fit_dimensions(old(self).spec_width() as int, old(self).spec_height() as int, size as int).0,
            final(self).spec_height() == fit_dimensions(old(self).spec_width() as int, old(self).spec_height() as int, size as int).1,
            ({
                let (w, h) = fit_dimensions(old(self).spec_width() as int, old(self).spec_height() as int, size as int);
                if w == old(self).spec_width() && h == old(self).spec_height() {
                    *final(self) == *old(self)
                } else {
                    final(self).buffer@ == (Raster {
                        width: w,
                        height: h,
                        channels: old(self).buffer@.channels,
                        data: triangle_resized(
                            old(self).buffer@.channels as nat,
                            old(self).buffer@.width as nat,
                            old(self).buffer@.height as nat,
                            old(self).buffer@.data,
                            w as nat,
                            h as nat,
                        ),
                    })
                }
            }),
    {
        let width = self.width();
        let height = self.height();
        if height > width && width > size {
            proof { lemma_fit_within(width as int, height as int, size as int); }
            let scaled = (size as u64 * height as u64 / width as u64) as u32;
            self.resize(size, scaled);
        } else if width > height && height > size {
            proof { lemma_fit_within(width as int, height as int, size as int); }
            let scaled = (size as u64 * width as u64 / height as u64) as u32;
            self.resize(scaled, size);
        }
    }

    /// Convert native four-byte pixels to three-byte (red, green, blue) pixels; an image
    /// that already holds three-byte pixels is returned as it is. Fails when the byte count
    /// is not exactly four bytes for each pixel.
    pub fn into_rgb(self) -> (r: Result<Self, Error>)
        ensures
            self.buffer is Rgb ==> r == Ok::<Self, Error>(self),
            self.buffer is Xrgb ==> (r is Ok <==> self.buffer@.data.len() == self.buffer@.width * self.buffer@.height * 4),
            r is Ok ==> r->Ok_0.buffer@ == self.buffer@.to_rgb(),
            r is Ok && self.buffer is Xrgb ==> r->Ok_0.buffer is Rgb,
            r is Err ==> r == Err::<Self, Error>(Error::ConversionError),
    {
        let kind = self.buffer;
        match kind {
            ImageKind::Rgb(p) => Ok(Image { buffer: ImageKind::Rgb(p) }),
            ImageKind::Xrgb(p) => {
                let pixels = (p.width as usize).checked_mul(p.height as usize);
                match pixels {
                    Some(pixels) => {
                        if p.data.len() % 4 == 0 && p.data.len() / 4 == pixels {
                            let data = Self::convert_xrgb_to_rgb(&p.data, pixels);
                            let out = Image { buffer: ImageKind::Rgb(PixelBuffer { width: p.width, height: p.height, data }) };
                            assert(out.buffer@.data =~= kind@.to_rgb().data);
                            Ok(out)
                        } else {
                            Err(Error::ConversionError)
                        }
                    },
                    None => {
                        let len = p.data.len();
                        assert(len != p.width * p.height * 4) by (nonlinear_arith)
                            requires
                                p.width * p.height > usize::MAX,
                                len <= usize::MAX,
                        ;
                        Err(Error::ConversionError)
                    },
                }
            },
        }
    }

    /// Reorder each (blue, green, red, unused) pixel as (red, green, blue).
    fn convert_xrgb_to_rgb(data: &Vec<u8>, pixels: usize) -> (r: Vec<u8>)
        requires
            data@.len() == pixels * 4,
        ensures
            r@.len() == pixels * 3,
            forall|i: int| 0 <= i < pixels * 3 ==> r@[i] == data@[rgb_source(i)],
    {
        let len = data.len();
        let mut out: Vec<u8> = Vec::new();
        let mut p: usize = 0;
        while p < pixels
            invariant
                p <= pixels,
                data@.len() == pixels * 4,
                len == data@.len(),
                out@.len() == p * 3,
                forall|i: int| 0 <= i < p * 3 ==> out@[i] == data@[rgb_source(i)],
            decreases pixels - p,
        {
            assert(p * 4 + 3 < pixels * 4) by (nonlinear_arith)
                requires
                    p < pixels,
            ;
            assert(pixels * 4 == len);
            let base = p * 4;
            out.push(data[base + 2]);
            out.push(data[base + 1]);
            out.push(data[base]);
            proof {
                lemma_fundamental_div_mod_converse(3 * p + 0, 3, p as int, 0);
                lemma_fundamental_div_mod_converse(3 * p + 1, 3, p as int, 1);
                lemma_fundamental_div_mod_converse(3 * p + 2, 3, p as int, 2);
            }
            p = p + 1;
        }
        out
    }
}

} // verus!
