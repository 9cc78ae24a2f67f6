//! The frame image: a fixed-size RGB pixel grid held in an
//! `image::RgbImage`, with saturating colour accumulation.

use vstd::prelude::*;

verus! {

/// Width of every frame, in pixels.
pub const WIDTH: u32 = 1024;

/// Height of every frame, in pixels.
pub const HEIGHT: u32 = 1024;

/// An `image::RgbImage`. Its pixels are known only through
/// `buffer_samples` and `buffer_dimensions`.
#[verifier::external_body]
pub struct PixelBuffer {
    image: image::RgbImage,
}

/// The channel values an image buffer holds, row by row from the top, three
/// per pixel in the order red, green, blue.
pub uninterp spec fn buffer_samples(buffer: PixelBuffer) -> Seq<u8>;

/// Width and height of an image buffer, in pixels.
pub uninterp spec fn buffer_dimensions(buffer: PixelBuffer) -> (int, int);

/// Where the red channel of pixel `(x, y)` stands among the samples of an
/// image `width` pixels wide.
pub open spec fn sample_index(width: int, x: int, y: int) -> int {
    3 * (y * width + x)
}

/// `image::ImageBuffer::new`: a buffer of the requested dimensions in which
/// every channel of every pixel is zero. The outside function counts the
/// samples of one row first and those of the whole image after, and panics
/// if either count passes `usize`: both must fit, the row's even where the
/// image has no rows.
#[verifier::external_body]
fn buffer_new(width: u32, height: u32) -> (buffer: PixelBuffer)
    requires
        3 * width <= usize::MAX,
        3 * width * height <= usize::MAX,
    ensures
        buffer_dimensions(buffer) == (width as int, height as int),
        buffer_samples(buffer) == Seq::new((3 * width * height) as nat, |i: int| 0u8),
{
    PixelBuffer { image: image::RgbImage::new(width, height) }
}

/// `image::ImageBuffer::get_pixel`: the three channels stored for the pixel
/// at `(x, y)`, which must lie inside the image.
#[verifier::external_body]
fn buffer_get(buffer: &PixelBuffer, x: u32, y: u32) -> (rgb: (u8, u8, u8))
    requires
        x < buffer_dimensions(*buffer).0,
        y < buffer_dimensions(*buffer).1,
    ensures
        ({
            let i = sample_index(buffer_dimensions(*buffer).0, x as int, y as int);
            let s = buffer_samples(*buffer);
            rgb == (s[i], s[i + 1], s[i + 2])
        }),
{
    let p = buffer.image.get_pixel(x, y);
    (p.0[0], p.0[1], p.0[2])
}

/// `image::ImageBuffer::get_pixel_mut`, written through: the pixel at
/// `(x, y)`, which must lie inside the image, takes the given channels;
/// every other sample and the dimensions stay as they were.
#[verifier::external_body]
fn buffer_set(buffer: &mut PixelBuffer, x: u32, y: u32, rgb: (u8, u8, u8))
    requires
        x < buffer_dimensions(*old(buffer)).0,
        y < buffer_dimensions(*old(buffer)).1,
    ensures
        buffer_dimensions(*final(buffer)) == buffer_dimensions(*old(buffer)),
        ({
            let i = sample_index(buffer_dimensions(*old(buffer)).0, x as int, y as int);
            buffer_samples(*final(buffer)) == buffer_samples(*old(buffer)).update(i, rgb.0).update(
                i + 1,
                rgb.1,
            ).update(i + 2, rgb.2)
        }),
    no_unwind
{
    *buffer.image.get_pixel_mut(x, y) = image::Rgb([rgb.0, rgb.1, rgb.2]);
}

/// `image::ImageBuffer::into_raw`: the samples of the image as a vector.
#[verifier::external_body]
fn buffer_into_raw(buffer: PixelBuffer) -> (raw: Vec<u8>)
    ensures
        raw@ == buffer_samples(buffer),
{
    buffer.image.into_raw()
}

/// An RGB colour with eight bits per channel.
#[derive(Clone, Copy, Debug, PartialEq, Eq, Structural)]
pub struct Color {
    pub red: u8,
    pub green: u8,
    pub blue: u8,
}

/// The sum of two channel values, held at 255.
pub open spec fn clamped_sum(a: int, b: int) -> u8 {
    if a + b > 255 {
        255u8
    } else {
        (a + b) as u8
    }
}

impl Color {
    /// The colour of an untouched pixel.
    pub open spec fn black() -> Color {
        Color { red: 0, green: 0, blue: 0 }
    }

    /// Channel-wise sum of two colours, each channel held at 255.
    pub open spec fn plus(self, other: Color) -> Color {
        Color {
            red: clamped_sum(self.red as int, other.red as int),
            green: clamped_sum(self.green as int, other.green as int),
            blue: clamped_sum(self.blue as int, other.blue as int),
        }
    }

    /// Adds `other` to this colour channel by channel; a channel that would
    /// pass 255 stays at 255.
    pub fn saturating_add(self, other: Color) -> (sum: Color)
        ensures
            sum == self.plus(other),
    {
        Color {
            red: self.red.saturating_add(other.red),
            green: self.green.saturating_add(other.green),
            blue: self.blue.saturating_add(other.blue),
        }
    }
}

/// One rendered frame: a `WIDTH` by `HEIGHT` grid of colours.
pub struct Frame {
    buffer: PixelBuffer,
}

/// Number of channel samples in a frame.
pub open spec fn frame_samples() -> int {
    3 * WIDTH * HEIGHT
}

impl Frame {
    #[verifier::type_invariant]
    spec fn sized(self) -> bool {
        &&& buffer_dimensions(self.buffer) == (WIDTH as int, HEIGHT as int)
        &&& buffer_samples(self.buffer).len() == frame_samples()
    }

    /// The colour at column `x`, row `y`.
    pub closed spec fn at(self, x: int, y: int) -> Color {
        let i = sample_index(WIDTH as int, x, y);
        let s = buffer_samples(self.buffer);
        Color { red: s[i], green: s[i + 1], blue: s[i + 2] }
    }

    /// A frame in which every pixel is black.
    pub fn new() -> (frame: Frame)
        ensures
            forall|x: int, y: int| 0 <= x < WIDTH && 0 <= y < HEIGHT
                ==> #[trigger] frame.at(x, y) == Color::black(),
    {
        let buffer = buffer_new(WIDTH, HEIGHT);
        Frame { buffer }
    }

    /// The colour at `(x, y)`, or `None` outside the frame.
    pub fn pixel(&self, x: u32, y: u32) -> (color: Option<Color>)
        ensures
            color == if x < WIDTH && y < HEIGHT {
                Some(self.at(x as int, y as int))
            } else {
                None
            },
    {
        if x < WIDTH && y < HEIGHT {
            proof {
                use_type_invariant(self);
            }
            let rgb = buffer_get(&self.buffer, x, y);
            Some(Color { red: rgb.0, green: rgb.1, blue: rgb.2 })
        } else {
            None
        }
    }

    /// Adds `color` to the pixel at `(x, y)` with saturation and leaves every
    /// other pixel as it was.
    pub fn deposit(&mut self, x: u32, y: u32, color: Color)
        requires
            x < WIDTH,
            y < HEIGHT,
        ensures
            final(self).at(x as int, y as int) == old(self).at(x as int, y as int).plus(color),
            forall|i: int, j: int| 0 <= i < WIDTH && 0 <= j < HEIGHT && (i != x || j != y)
                ==> #[trigger] final(self).at(i, j) == old(self).at(i, j),
    {
        proof {
            use_type_invariant(&*self);
        }
        let rgb = buffer_get(&self.buffer, x, y);
        let sum = Color { red: rgb.0, green: rgb.1, blue: rgb.2 }.saturating_add(color);
        buffer_set(&mut self.buffer, x, y, (sum.red, sum.green, sum.blue));
    }

    /// The frame as raw samples: row by row from the top, three bytes per
    /// pixel in the order red, green, blue.
    pub fn into_raw(self) -> (raw: Vec<u8>)
        ensures
            raw@.len() == frame_samples(),
            forall|x: int, y: int| 0 <= x < WIDTH && 0 <= y < HEIGHT ==> {
                let c = #[trigger] self.at(x, y);
                let i = sample_index(WIDTH as int, x, y);
                raw@[i] == c.red && raw@[i + 1] == c.green && raw@[i + 2] == c.blue
            },
    {
        proof {
            use_type_invariant(&self);
        }
        buffer_into_raw(self.buffer)
    }
}

} // verus!
