//! Turning a captured monitor image into the record sent to the frontend:
//! downscaled to at most 1280 pixels wide, JPEG-encoded, base64 text.
use vstd::prelude::*;
use base64::Engine;
use crate::errors::CaptureError;
use crate::monitors::MonitorInfo;

verus! {

/// Captures wider than this are scaled down to it.
pub const MAX_CAPTURE_WIDTH: u32 = 1280;

/// An RGBA image, four bytes per pixel, row by row.
pub struct RgbaFrame {
    pub width: u32,
    pub height: u32,
    pub pixels: Vec<u8>,
}

/// The pixel buffer holds exactly `width * height` RGBA pixels.
pub open spec fn frame_wf(f: RgbaFrame) -> bool {
    f.pixels.len() == f.width * f.height * 4
}

/// What `image`'s `DynamicImage::resize` with the triangle filter makes of an
/// RGBA image for the bounds `max_width` x `max_height` (the aspect ratio is
/// kept): width, height and pixels.
pub uninterp spec fn triangle_resized(
    width: u32,
    height: u32,
    pixels: Seq<u8>,
    max_width: u32,
    max_height: u32,
) -> (u32, u32, Seq<u8>);

/// What `image`'s `DynamicImage::write_to` with the JPEG format makes of an
/// RGBA image: the encoded bytes, or the text of its error.
pub uninterp spec fn jpeg_outcome(width: u32, height: u32, pixels: Seq<u8>) -> Result<
    Seq<u8>,
    Seq<char>,
>;

/// `image::DynamicImage::resize(max_width, max_height, FilterType::Triangle)`
/// on the frame. Claimed: the result is `triangle_resized` of the arguments,
/// it is at least 1 x 1 and fits within the bounds (the crate scales by the
/// smaller of the two ratios and keeps each side at least 1), and its buffer
/// holds exactly its pixels (the crate sizes every buffer it creates to the
/// image).
#[verifier::external_body]
fn resize_triangle(frame: RgbaFrame, max_width: u32, max_height: u32) -> (r: RgbaFrame)
    requires
        frame_wf(frame),
        max_width >= 1,
        max_height >= 1,
        (max_width + 1) * (max_height + 1) * 4 <= usize::MAX,
    ensures
        (r.width, r.height, r.pixels@) == triangle_resized(
            frame.width,
            frame.height,
            frame.pixels@,
            max_width,
            max_height,
        ),
        1 <= r.width <= max_width,
        1 <= r.height <= max_height,
        frame_wf(r),
{
    let img = image::RgbaImage::from_raw(frame.width, frame.height, frame.pixels).unwrap_or_default();
    let resized = image::DynamicImage::ImageRgba8(img).resize(
        max_width,
        max_height,
        image::imageops::FilterType::Triangle,
    ).into_rgba8();
    RgbaFrame { width: resized.width(), height: resized.height(), pixels: resized.into_raw() }
}

/// `image::DynamicImage::write_to(.., ImageFormat::Jpeg)` on the frame, into
/// memory. Claimed: the bytes, or the error's text, are `jpeg_outcome` of the
/// frame, and the bytes fit in a `Vec` (at most `isize::MAX` of them).
#[verifier::external_body]
fn encode_jpeg(frame: RgbaFrame) -> (r: Result<Vec<u8>, String>)
    requires
        frame_wf(frame),
    ensures
        r matches Ok(b) ==> (jpeg_outcome(frame.width, frame.height, frame.pixels@) matches Ok(x)
            && x == b@ && b.len() <= isize::MAX),
        r matches Err(e) ==> (jpeg_outcome(frame.width, frame.height, frame.pixels@) matches Err(x)
            && x == e@),
{
    let img = image::RgbaImage::from_raw(frame.width, frame.height, frame.pixels).unwrap_or_default();
    let mut cursor = std::io::Cursor::new(Vec::new());
    match image::DynamicImage::ImageRgba8(img).write_to(&mut cursor, image::ImageFormat::Jpeg) {
        Ok(()) => Ok(cursor.into_inner()),
        Err(e) => Err(e.to_string()),
    }
}

/// The base64 digit for the 6-bit value `v` (standard alphabet).
pub open spec fn base64_digit(v: int) -> char {
    if v < 26 {
        (65 + v) as char
    } else if v < 52 {
        (97 + v - 26) as char
    } else if v < 62 {
        (48 + v - 52) as char
    } else if v == 62 {
        '+'
    } else {
        '/'
    }
}

/// Standard base64 with `=` padding (RFC 4648, section 4).
pub open spec fn base64_standard(b: Seq<u8>) -> Seq<char>
    decreases b.len(),
{
    if b.len() == 0 {
        Seq::empty()
    } else {
        let b0 = b[0] as int;
        let b1 = if b.len() > 1 { b[1] as int } else { 0 };
        let b2 = if b.len() > 2 { b[2] as int } else { 0 };
        let c0 = base64_digit(b0 / 4);
        let c1 = base64_digit((b0 % 4) * 16 + b1 / 16);
        let c2 = base64_digit((b1 % 16) * 4 + b2 / 64);
        let c3 = base64_digit(b2 % 64);
        if b.len() == 1 {
            seq![c0, c1, '=', '=']
        } else if b.len() == 2 {
            seq![c0, c1, c2, '=']
        } else {
            seq![c0, c1, c2, c3] + base64_standard(b.skip(3))
        }
    }
}

/// `base64::engine::general_purpose::STANDARD.encode`. Claimed: the result is
/// the standard padded base64 text of the bytes (the crate panics only when
/// the encoded length overflows `usize`, which `isize::MAX` input rules out).
#[verifier::external_body]
fn base64_encode(bytes: &[u8]) -> (r: String)
    requires
        bytes.len() <= isize::MAX,
    ensures
        r@ == base64_standard(bytes@),
{
    base64::engine::general_purpose::STANDARD.encode(bytes)
}

/// A captured monitor as the frontend receives it.
pub struct CapturedScreen {
    pub index: usize,
    pub jpeg_base64: String,
    pub x: i32,
    pub y: i32,
    pub width: u32,
    pub height: u32,
    pub scale_factor_bits: u64,
}

/// `s` is the record of monitor `m` at `index` with the given base64 text.
pub open spec fn screen_record(s: CapturedScreen, index: usize, m: MonitorInfo, b64: Seq<char>) -> bool {
    &&& s.index == index
    &&& s.jpeg_base64@ == b64
    &&& s.x == m.x
    &&& s.y == m.y
    &&& s.width == m.width
    &&& s.height == m.height
    &&& s.scale_factor_bits == m.scale_factor_bits
}

/// The record of monitor `m` at `index` from its JPEG encoding, or the encode
/// error.
pub fn captured_screen_from_jpeg(index: usize, monitor: &MonitorInfo, jpeg: Result<Vec<u8>, String>) -> (r:
    Result<CapturedScreen, CaptureError>)
    requires
        jpeg matches Ok(b) ==> b.len() <= isize::MAX,
    ensures
        jpeg matches Ok(b) ==> (r matches Ok(s) && screen_record(s, index, *monitor, base64_standard(b@))),
        jpeg matches Err(e) ==> (r matches Err(CaptureError::Encode(m)) && m@ == e@),
{
    match jpeg {
        Ok(bytes) => Ok(
            CapturedScreen {
                index,
                jpeg_base64: base64_encode(bytes.as_slice()),
                x: monitor.x,
                y: monitor.y,
                width: monitor.width,
                height: monitor.height,
                scale_factor_bits: monitor.scale_factor_bits,
            },
        ),
        Err(e) => Err(CaptureError::Encode(e)),
    }
}

/// The image that gets encoded: the frame scaled into 1280 x `scaled_height`
/// when it is wider than 1280 pixels, the frame itself otherwise.
pub open spec fn image_to_encode(frame: RgbaFrame, scaled_height: u32) -> (u32, u32, Seq<u8>) {
    if frame.width > MAX_CAPTURE_WIDTH {
        triangle_resized(frame.width, frame.height, frame.pixels@, MAX_CAPTURE_WIDTH, scaled_height)
    } else {
        (frame.width, frame.height, frame.pixels@)
    }
}

/// Encodes the capture of `monitor` (session index `index`): scaled down to
/// 1280 pixels wide when wider (`scaled_height` is the height that keeps the
/// aspect ratio, at least 1), JPEG-encoded, then base64.
pub fn encode_captured_screen(
    index: usize,
    monitor: &MonitorInfo,
    frame: RgbaFrame,
    scaled_height: u32,
) -> (r: Result<CapturedScreen, CaptureError>)
    requires
        frame_wf(frame),
        scaled_height >= 1,
        (MAX_CAPTURE_WIDTH + 1) * (scaled_height + 1) * 4 <= usize::MAX,
    ensures
        image_to_encode(frame, scaled_height).0 <= MAX_CAPTURE_WIDTH,
        frame.width <= 1280 ==> match jpeg_outcome(frame.width, frame.height, frame.pixels@) {
            Ok(b) => r matches Ok(s) && s.jpeg_base64@ == base64_standard(b),
            Err(e) => r matches Err(CaptureError::Encode(m)) && m@ == e,
        },
        ({
            let (w, h, px) = image_to_encode(frame, scaled_height);
            match jpeg_outcome(w, h, px) {
                Ok(b) => r matches Ok(s) && screen_record(s, index, *monitor, base64_standard(b)),
                Err(e) => r matches Err(CaptureError::Encode(m)) && m@ == e,
            }
        }),
{
    let to_encode = if frame.width > MAX_CAPTURE_WIDTH {
        resize_triangle(frame, MAX_CAPTURE_WIDTH, scaled_height)
    } else {
        frame
    };
    let jpeg = encode_jpeg(to_encode);
    captured_screen_from_jpeg(index, monitor, jpeg)
}


/// Only captures wider than 1280 pixels are scaled, whatever their height:
/// a narrower frame is encoded as it is, a wider one is fitted into 1280 x
/// `scaled_height`.
pub proof fn lemma_only_wide_frames_are_scaled(frame: RgbaFrame, scaled_height: u32)
    ensures
        frame.width <= 1280 ==> image_to_encode(frame, scaled_height) == (
            frame.width,
            frame.height,
            frame.pixels@,
        ),
        frame.width > 1280 ==> image_to_encode(frame, scaled_height) == triangle_resized(
            frame.width,
            frame.height,
            frame.pixels@,
            1280,
            scaled_height,
        ),
{
}

} // verus!
