use vstd::prelude::*;
use crate::buffers::{self, BufferView, CaptureBuffer, PixelFormat};
use crate::error::WlsnipError;
use crate::utils::color::{self, convert_to_rgba};
use zune_core::bit_depth::BitDepth;
use zune_core::colorspace::ColorSpace;
use zune_core::options::EncoderOptions;
use zune_png::PngEncoder;

verus! {

/// The rows of the image without stride padding: `4 * width` bytes per row,
/// `height` rows. When the stride has no padding the data is kept whole.
pub open spec fn packed_rows(b: BufferView) -> Seq<u8> {
    let rb = b.width * 4;
    if b.stride == rb {
        b.data
    } else {
        Seq::new((rb * b.height) as nat, |i: int| b.data[(i / rb) * b.stride + i % rb])
    }
}

/// The inputs on which removing the stride padding runs without overflow or
/// an out-of-range read.
pub open spec fn strip_fits(b: BufferView) -> bool {
    &&& b.width * 4 <= u32::MAX
    &&& b.stride != b.width * 4 ==> {
        &&& b.width * 4 * b.height <= usize::MAX
        &&& b.height > 0 ==> {
            &&& (b.height - 1) * b.stride <= u32::MAX
            &&& (b.height - 1) * b.stride + b.width * 4 <= b.data.len()
        }
    }
}

/// Remove stride padding so each row is exactly `width * 4` bytes.
pub fn strip_stride_padding(buffer: &CaptureBuffer) -> (packed: Vec<u8>)
    requires
        strip_fits(buffer@),
    ensures
        packed@ == packed_rows(buffer@),
{
    let row_bytes = (buffer.width * 4) as usize;
    if buffer.stride as usize == row_bytes {
        return buffers::copy_bytes(&buffer.data);
    }
    let ghost b = buffer@;
    let ghost rb = row_bytes as int;
    let mut packed: Vec<u8> = Vec::with_capacity(row_bytes * buffer.height as usize);
    let mut row: u32 = 0;
    while row < buffer.height
        invariant
            b == buffer@,
            strip_fits(b),
            b.stride != b.width * 4,
            rb == b.width * 4,
            row_bytes == rb,
            row <= b.height,
            packed@.len() == row * rb,
            forall|i: int| 0 <= i < row * rb ==> packed@[i] == #[trigger] packed_rows(b)[i],
        decreases b.height - row,
    {
        proof {
            vstd::arithmetic::mul::lemma_mul_inequality(row as int, (b.height - 1) as int, b.stride as int);
            vstd::arithmetic::mul::lemma_mul_inequality(row as int + 1, b.height as int, rb);
            assert((row + 1) * rb == row * rb + rb) by (nonlinear_arith);
            assert(buffer.data@.len() == buffer.data.len());
        }
        let start = (row * buffer.stride) as usize;
        let mut j: usize = 0;
        while j < row_bytes
            invariant
                b == buffer@,
                b.stride != b.width * 4,
                rb == b.width * 4,
                row_bytes == rb,
                row < b.height,
                rb * b.height <= usize::MAX,
                start == row * b.stride,
                start + row_bytes <= buffer.data.len(),
                j <= row_bytes,
                packed@.len() == row * rb + j,
                forall|i: int| 0 <= i < row * rb + j ==> packed@[i] == #[trigger] packed_rows(b)[i],
            decreases row_bytes - j,
        {
            proof {
                buffers::lemma_split_index(row * rb + j, rb, row as int, j as int);
                vstd::arithmetic::mul::lemma_mul_inequality(row as int + 1, b.height as int, rb);
                assert((row + 1) * rb == row * rb + rb) by (nonlinear_arith);
                assert(b.height * rb == rb * b.height) by (nonlinear_arith);
                assert(row * rb + j < rb * b.height);
            }
            packed.push(buffer.data[start + j]);
            j += 1;
        }
        row += 1;
    }
    proof {
        assert(row * rb == rb * b.height) by (nonlinear_arith)
            requires row == b.height;
    }
    assert(packed@ =~= packed_rows(b));
    packed
}

/// The PNG file that `zune_png` writes for the given 8-bit RGBA pixels
/// (packed rows, no padding) of a `width` x `height` image.
pub uninterp spec fn zune_png_rgba8(pixels: Seq<u8>, width: nat, height: nat) -> Seq<u8>;

/// `zune_png::PngEncoder::new(..).encode(..)` into a vector, for 8-bit RGBA
/// pixels. The encoder checks that the pixel data holds exactly
/// `width * height * 4` bytes; with a vector as sink nothing else fails.
/// On failure the error's `Debug` text is returned; what it says is not stated.
#[verifier::external_body]
fn zune_encode_rgba8(pixels: &Vec<u8>, width: u32, height: u32) -> (res: Result<Vec<u8>, String>)
    requires
        pixels@.len() == width * height * 4 ==> (width * 4 + 1) * height <= usize::MAX,
    ensures
        pixels@.len() == width * height * 4 ==> (res is Ok && res->Ok_0@ == zune_png_rgba8(pixels@, width as nat, height as nat)),
        pixels@.len() != width * height * 4 ==> res is Err,
{
    let options = EncoderOptions::default()
        .set_width(width as usize)
        .set_height(height as usize)
        .set_colorspace(ColorSpace::RGBA)
        .set_depth(BitDepth::Eight);
    let mut encoder = PngEncoder::new(pixels, options);
    let mut out = Vec::new();
    match encoder.encode(&mut out) {
        Ok(_) => Ok(out),
        Err(e) => Err(format!("{e:?}")),
    }
}

/// The RGBA pixels, without stride padding, that the encoders compress.
pub open spec fn encoder_pixels(b: BufferView) -> Seq<u8> {
    let rgba = BufferView { data: color::rgba_data(b.data, b.stride as int, b.width as int, b.format), ..b };
    packed_rows(rgba)
}

/// The inputs that `encode` accepts without a panic: the conversion's stride
/// condition, the padding removal's bounds, and the PNG encoder's row size.
pub open spec fn png_fits(b: BufferView) -> bool {
    &&& b.stride > 0 || b.format == PixelFormat::Abgr8888
    &&& strip_fits(b)
    &&& (b.width * 4 + 1) * b.height <= usize::MAX
}

/// Whether PNG encoding runs without overflow or an out-of-range read (`png_fits`).
pub fn can_encode(buffer: &CaptureBuffer) -> (ok: bool)
    ensures
        ok == png_fits(buffer@),
{
    let max: u128 = 0xFFFF_FFFF;
    let umax = usize::MAX as u128;
    let w = buffer.width as u128;
    let h = buffer.height as u128;
    let stride = buffer.stride as u128;
    if !(buffer.stride > 0 || buffer.format == PixelFormat::Abgr8888) {
        return false;
    }
    if w * 4 > max {
        return false;
    }
    assert(w * 4 * h <= 0xFFFF_FFFFu128 * 0xFFFF_FFFFu128) by (nonlinear_arith)
        requires w * 4 <= 0xFFFF_FFFFu128, h <= 0xFFFF_FFFFu128;
    assert((w * 4 + 1) * h <= 0x1_0000_0000u128 * 0xFFFF_FFFFu128) by (nonlinear_arith)
        requires w * 4 <= 0xFFFF_FFFFu128, h <= 0xFFFF_FFFFu128;
    if stride != w * 4 {
        if w * 4 * h > umax {
            return false;
        }
        if h > 0 {
            assert((h - 1) * stride <= 0xFFFF_FFFFu128 * 0xFFFF_FFFFu128) by (nonlinear_arith)
                requires h - 1 <= 0xFFFF_FFFFu128, stride <= 0xFFFF_FFFFu128, h >= 1;
            let last = (h - 1) * stride;
            if !(last <= max && last + w * 4 <= buffer.data.len() as u128) {
                return false;
            }
        }
    }
    (w * 4 + 1) * h <= umax
}

/// Encode a capture buffer as PNG: convert to RGBA, drop the stride padding
/// and compress with `zune_png` (8-bit RGBA).
pub fn encode(buffer: &CaptureBuffer) -> (res: Result<Vec<u8>, WlsnipError>)
    requires
        png_fits(buffer@),
    ensures
        encoder_pixels(buffer@).len() == buffer.width * buffer.height * 4 ==> (res matches Ok(png)
            && png@ == zune_png_rgba8(encoder_pixels(buffer@), buffer.width as nat, buffer.height as nat)),
        encoder_pixels(buffer@).len() != buffer.width * buffer.height * 4 ==> (res matches Err(e)
            && exists|m: String, detail: String| e == WlsnipError::Encode(m) && m@ == "PNG encoding failed: "@ + detail@),
{
    let mut working = buffer.duplicate();
    convert_to_rgba(&mut working);
    assert(working@ == BufferView { data: color::rgba_data(buffer.data@, buffer.stride as int, buffer.width as int, buffer.format), ..buffer@ });
    let packed = strip_stride_padding(&working);
    match zune_encode_rgba8(&packed, buffer.width, buffer.height) {
        Ok(png) => Ok(png),
        Err(detail) => {
            let mut m = String::from_str("PNG encoding failed: ");
            m.append(detail.as_str());
            Err(WlsnipError::Encode(m))
        },
    }
}

} // verus!
