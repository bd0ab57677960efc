//! What becomes of one frame of a camera: it is cut to the square in its
//! middle, written as a JPEG image and handed out as a `data:` URL.

use crate::encoding::{base64_encode, base64_text, data_url, make_data_url};
use crate::error::{prefixed, CaptureError, CaptureFailure};
use vstd::prelude::*;

verus! {

/// The model of a frame: its size in pixels and its pixels row by row, three
/// bytes for each: red, green and blue.
pub struct FrameView {
    pub width: u32,
    pub height: u32,
    pub pixels: Seq<u8>,
}

/// A decoded frame. It holds exactly three bytes for each of its pixels.
pub struct RgbFrame {
    width: u32,
    height: u32,
    pixels: Vec<u8>,
}

impl View for RgbFrame {
    type V = FrameView;

    closed spec fn view(&self) -> FrameView {
        FrameView { width: self.width, height: self.height, pixels: self.pixels@ }
    }
}

impl FrameView {
    /// There are three bytes for each pixel.
    pub open spec fn wf(self) -> bool {
        self.pixels.len() == 3 * self.width * self.height
    }
}

/// The side of the largest square that fits in `width` by `height`.
pub open spec fn square_side(width: u32, height: u32) -> u32 {
    if width <= height {
        width
    } else {
        height
    }
}

/// The column at which the square in the middle begins.
pub open spec fn square_left(width: u32, height: u32) -> u32 {
    ((width - square_side(width, height)) / 2) as u32
}

/// The row at which the square in the middle begins.
pub open spec fn square_top(width: u32, height: u32) -> u32 {
    ((height - square_side(width, height)) / 2) as u32
}

/// Where the byte of one channel of one pixel stands in a frame that is
/// `width` pixels wide.
pub open spec fn byte_at(width: u32, column: int, row: int, channel: int) -> int {
    (row * width + column) * 3 + channel
}

/// The pixels of the `side` by `side` square of a frame whose upper left
/// corner is at column `left` and row `top`.
pub open spec fn cut(pixels: Seq<u8>, width: u32, left: u32, top: u32, side: u32) -> Seq<u8> {
    Seq::new(
        (3 * side * side) as nat,
        |k: int|
            pixels[byte_at(
                width,
                left + (k / 3) % (side as int),
                top + (k / 3) / (side as int),
                k % 3,
            )],
    )
}

/// The square in the middle of a frame.
pub open spec fn middle_square(frame: FrameView) -> FrameView {
    let side = square_side(frame.width, frame.height);
    FrameView {
        width: side,
        height: side,
        pixels: cut(
            frame.pixels,
            frame.width,
            square_left(frame.width, frame.height),
            square_top(frame.width, frame.height),
            side,
        ),
    }
}

/// The JPEG file that the `image` crate writes for an RGB image of the given
/// size and pixels.
pub uninterp spec fn jpeg_bytes(width: u32, height: u32, pixels: Seq<u8>) -> Seq<u8>;

/// `image::ImageError`: why an image was not written. It is handed on
/// unopened.
#[verifier::external_type_specification]
#[verifier::external_body]
pub struct ExImageError(image::ImageError);

/// `DynamicImage::crop_imm` of the `image` crate on an 8-bit RGB image made
/// of `pixels`. Believed, not proved: for a rectangle inside the image, the
/// result holds the pixels of that rectangle, row by row.
#[verifier::external_body]
fn crop_pixels(
    width: u32,
    height: u32,
    pixels: Vec<u8>,
    left: u32,
    top: u32,
    side: u32,
) -> (cropped: Vec<u8>)
    requires
        pixels.len() == 3 * width * height,
        left + side <= width,
        top + side <= height,
    ensures
        cropped@ == cut(pixels@, width, left, top, side),
{
    let whole = image::RgbImage::from_raw(width, height, pixels).unwrap();
    image::DynamicImage::ImageRgb8(whole).crop_imm(left, top, side, side).into_rgb8().into_raw()
}

/// `DynamicImage::write_to` of the `image` crate with `ImageFormat::Jpeg`,
/// on an 8-bit RGB image made of `pixels`, into memory. Believed, not
/// proved: it succeeds where both sides are between 1 and 65535 pixels and
/// fails on any other size, and the file it writes depends on the size and
/// the pixels alone.
#[verifier::external_body]
fn jpeg_encode(
    width: u32,
    height: u32,
    pixels: Vec<u8>,
) -> (encoded: Result<Vec<u8>, image::ImageError>)
    requires
        pixels.len() == 3 * width * height,
    ensures
        match encoded {
            Ok(bytes) => 1 <= width <= 65535 && 1 <= height <= 65535 && bytes@ == jpeg_bytes(
                width,
                height,
                pixels@,
            ),
            Err(_) => !(1 <= width <= 65535 && 1 <= height <= 65535),
        },
{
    let whole = image::DynamicImage::ImageRgb8(
        image::RgbImage::from_raw(width, height, pixels).unwrap(),
    );
    let mut file: Vec<u8> = Vec::new();
    whole.write_to(&mut std::io::Cursor::new(&mut file), image::ImageFormat::Jpeg)?;
    Ok(file)
}

/// The `Display` text of an `image::ImageError`. Nothing is claimed of it.
#[verifier::external_body]
fn image_error_text(error: &image::ImageError) -> String {
    error.to_string()
}

impl RgbFrame {
    #[verifier::type_invariant]
    spec fn well_formed(self) -> bool {
        self@.wf()
    }

    /// The frame of the given size whose pixels are the first
    /// `3 * width * height` bytes of `pixels`; none where `pixels` holds
    /// fewer.
    pub fn new(width: u32, height: u32, pixels: Vec<u8>) -> (made: Option<RgbFrame>)
        ensures
            made is Some <==> pixels.len() >= 3 * width * height,
            made matches Some(frame) ==> frame@ == (FrameView {
                width,
                height,
                pixels: pixels@.take(3 * width * height),
            }) && frame@.wf(),
    {
        let mut pixels = pixels;
        assert(width * height <= 0xffff_ffff * 0xffff_ffff) by (nonlinear_arith)
            requires
                width <= 0xffff_ffff,
                height <= 0xffff_ffff,
        ;
        let area: u64 = (width as u64) * (height as u64);
        let length: u64 = pixels.len() as u64;
        assert(3 * width * height == 3 * area) by (nonlinear_arith)
            requires
                area == width * height,
        ;
        if area <= length / 3 {
            let needed: usize = (3 * area) as usize;
            pixels.truncate(needed);
            Some(RgbFrame { width, height, pixels })
        } else {
            None
        }
    }

    /// The width in pixels.
    pub fn width(&self) -> (width: u32)
        ensures
            width == self@.width,
    {
        self.width
    }

    /// The height in pixels.
    pub fn height(&self) -> (height: u32)
        ensures
            height == self@.height,
    {
        self.height
    }

    /// The pixels, row by row.
    pub fn pixels(&self) -> (pixels: &Vec<u8>)
        ensures
            pixels@ == self@.pixels,
            self@.wf(),
    {
        proof {
            use_type_invariant(self);
        }
        &self.pixels
    }

    /// The square in the middle of this frame: as wide and as high as the
    /// shorter side of the frame, and as far from the left as from the right,
    /// and from the top as from the bottom, but for one pixel where the
    /// difference is odd.
    pub fn crop_to_square(self) -> (square: RgbFrame)
        ensures
            square@ == middle_square(self@),
            square@.wf(),
    {
        proof {
            use_type_invariant(&self);
        }
        let side: u32 = if self.width <= self.height {
            self.width
        } else {
            self.height
        };
        let left: u32 = (self.width - side) / 2;
        let top: u32 = (self.height - side) / 2;
        let cropped = crop_pixels(self.width, self.height, self.pixels, left, top, side);
        RgbFrame { width: side, height: side, pixels: cropped }
    }
}

/// Whether a frame can be written as a JPEG image: the square in its middle
/// has between 1 and 65535 pixels a side.
pub open spec fn can_encode(frame: FrameView) -> bool {
    1 <= square_side(frame.width, frame.height) <= 65535
}

/// The `data:` URL of the JPEG image of the square in the middle of a frame.
pub open spec fn snapshot(frame: FrameView) -> Seq<char> {
    let square = middle_square(frame);
    data_url("image/jpeg"@, base64_text(jpeg_bytes(square.width, square.height, square.pixels)))
}

/// The message for a frame that cannot be written as a JPEG image.
pub open spec fn encode_failure_text(detail: Seq<char>) -> Seq<char> {
    "Failed to encode JPEG: "@ + detail
}

/// `outcome` is what a frame gives: its snapshot where it can be encoded,
/// else a device error whose message says that encoding failed.
pub open spec fn frame_outcome(frame: FrameView, outcome: Result<Seq<char>, CaptureFailure>) -> bool {
    match outcome {
        Ok(url) => can_encode(frame) && url == snapshot(frame),
        Err(CaptureFailure::Device(message)) => !can_encode(frame) && exists|detail: Seq<char>|
            message == encode_failure_text(detail),
        Err(CaptureFailure::Busy) => false,
    }
}

/// The outcome of a capture as a value of the model.
pub open spec fn outcome_view(
    outcome: Result<String, CaptureError>,
) -> Result<Seq<char>, CaptureFailure> {
    match outcome {
        Ok(url) => Ok(url@),
        Err(error) => Err(error@),
    }
}

/// Turns a frame into the `data:` URL of a square JPEG image. A frame whose
/// middle square is empty or more than 65535 pixels a side is refused with
/// a device error.
pub fn encode_frame(frame: RgbFrame) -> (outcome: Result<String, CaptureError>)
    ensures
        frame_outcome(frame@, outcome_view(outcome)),
{
    let square = frame.crop_to_square();
    proof {
        use_type_invariant(&square);
    }
    match jpeg_encode(square.width, square.height, square.pixels) {
        Ok(file) => {
            let payload = base64_encode(file.as_slice());
            Ok(make_data_url("image/jpeg", payload.as_str()))
        },
        Err(error) => {
            let detail = image_error_text(&error);
            let message = prefixed("Failed to encode JPEG: ", detail.as_str());
            assert(message@ == encode_failure_text(detail@));
            Err(CaptureError::Device(message))
        },
    }
}

} // verus!
