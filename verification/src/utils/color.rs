use vstd::prelude::*;
use crate::buffers::{CaptureBuffer, PixelFormat};

verus! {

/// Whether the pixel that holds byte `c` of a row (row start at `row_start`,
/// `c` counted from it) is rewritten by the conversion: its column is below
/// `width`, and all four of its bytes lie inside the row, which is at most
/// `stride` bytes long and ends at the end of the data.
pub open spec fn pixel_converted(len: int, stride: int, width: int, row_start: int, c: int) -> bool {
    let k = c % 4;
    &&& c / 4 < width
    &&& c - k + 3 < stride
    &&& row_start + c - k + 3 < len
}

/// The value of byte `i` once a pixel that holds it has been rewritten to RGBA.
/// `base` is the offset of the pixel's first byte and `k` the byte's place in it.
pub open spec fn converted_value(data: Seq<u8>, format: PixelFormat, base: int, k: int, i: int) -> u8 {
    match format {
        PixelFormat::Argb8888 => if k == 0 { data[base + 2] } else if k == 2 { data[base] } else { data[i] },
        PixelFormat::Xrgb8888 => if k == 0 {
            data[base + 2]
        } else if k == 2 {
            data[base]
        } else if k == 3 {
            0xFFu8
        } else {
            data[i]
        },
        PixelFormat::Xbgr8888 => if k == 3 { 0xFFu8 } else { data[i] },
        PixelFormat::Abgr8888 => data[i],
    }
}

/// Byte `i` of the data after conversion to RGBA: the data is cut into rows of
/// `stride` bytes (the last one possibly shorter); in each row the first
/// `width` complete pixels have B and R swapped (ARGB/XRGB) and, for the
/// formats without alpha, the alpha byte forced to 0xFF. ABGR data is left as is.
pub open spec fn rgba_byte(data: Seq<u8>, stride: int, width: int, format: PixelFormat, i: int) -> u8 {
    if format == PixelFormat::Abgr8888 {
        data[i]
    } else {
        let c = i % stride;
        let row_start = i - c;
        let k = c % 4;
        if pixel_converted(data.len() as int, stride, width, row_start, c) {
            converted_value(data, format, i - k, k, i)
        } else {
            data[i]
        }
    }
}

/// The whole data after conversion to RGBA.
pub open spec fn rgba_data(data: Seq<u8>, stride: int, width: int, format: PixelFormat) -> Seq<u8> {
    Seq::new(data.len(), |i: int| rgba_byte(data, stride, width, format, i))
}

/// Row-local version of `rgba_byte`: byte at offset `c` of the row starting
/// at `row_start`, where only pixels of columns below `done` have been handled.
pub open spec fn row_progress_byte(
    data: Seq<u8>,
    stride: int,
    width: int,
    format: PixelFormat,
    row_start: int,
    c: int,
    done: int,
) -> u8 {
    let k = c % 4;
    if c / 4 < done && pixel_converted(data.len() as int, stride, width, row_start, c) {
        converted_value(data, format, row_start + c - k, k, row_start + c)
    } else {
        data[row_start + c]
    }
}

proof fn lemma_row_position(i: int, stride: int, r: int, c: int)
    requires
        stride > 0,
        0 <= c < stride,
        i == r * stride + c,
    ensures
        i % stride == c,
        i - i % stride == r * stride,
{
    vstd::arithmetic::div_mod::lemma_fundamental_div_mod_converse(i, stride, r, c);
}

/// Convert pixel data in place from the source format to RGBA8888.
///
/// Most Wayland compositors use ARGB8888 or XRGB8888 (little-endian), which in
/// memory are B G R A / B G R X; image encoders expect R G B A, so the B and R
/// channels are swapped and, for XRGB/XBGR, the alpha channel is forced opaque.
pub fn convert_to_rgba(buffer: &mut CaptureBuffer)
    requires
        old(buffer).stride > 0 || old(buffer).format == PixelFormat::Abgr8888,
    ensures
        final(buffer).width == old(buffer).width,
        final(buffer).height == old(buffer).height,
        final(buffer).stride == old(buffer).stride,
        final(buffer).format == old(buffer).format,
        final(buffer).data@ == rgba_data(
            old(buffer).data@,
            old(buffer).stride as int,
            old(buffer).width as int,
            old(buffer).format,
        ),
{
    let format = buffer.format;
    let ghost orig = buffer.data@;
    if format == PixelFormat::Abgr8888 {
        assert(buffer.data@ =~= rgba_data(orig, buffer.stride as int, buffer.width as int, format));
        return;
    }
    let stride = buffer.stride as usize;
    let width = buffer.width as usize;
    let len = buffer.data.len();
    let mut row_start: usize = 0;
    let ghost mut r: int = 0;
    let ghost h0 = buffer.height;
    while row_start < len
        invariant
            stride > 0,
            stride == buffer.stride,
            width == buffer.width,
            h0 == buffer.height,
            format == buffer.format,
            format != PixelFormat::Abgr8888,
            len == orig.len(),
            buffer.data@.len() == len,
            row_start < len ==> row_start == r * stride,
            r >= 0,
            row_start <= len,
            forall|i: int| 0 <= i < row_start ==> buffer.data@[i] == #[trigger] rgba_byte(orig, stride as int, width as int, format, i),
            forall|i: int| row_start <= i < len ==> buffer.data@[i] == orig[i],
        decreases len - row_start,
    {
        let row_len: usize = if len - row_start < stride { len - row_start } else { stride };
        convert_row(buffer, row_start, row_len, Ghost(orig));
        proof {
            assert forall|i: int| row_start <= i < row_start + row_len implies buffer.data@[i] == #[trigger] rgba_byte(orig, stride as int, width as int, format, i) by {
                let c = i - row_start;
                lemma_row_position(i, stride as int, r, c);
                assert(buffer.data@[row_start + c] == row_progress_byte(
                    orig, stride as int, width as int, format, row_start as int, c, width as int));
            }
        }
        if len - row_start <= stride {
            row_start = len;
        } else {
            row_start = row_start + stride;
        }
        proof {
            assert((r + 1) * stride == r * stride + stride) by (nonlinear_arith);
            r = r + 1;
        }
    }
    assert(buffer.data@ =~= rgba_data(orig, stride as int, width as int, format));
}

/// Rewrite the pixels of one row, `row_len` bytes starting at `row_start`.
fn convert_row(buffer: &mut CaptureBuffer, row_start: usize, row_len: usize, Ghost(orig): Ghost<Seq<u8>>)
    requires
        old(buffer).stride > 0,
        old(buffer).format != PixelFormat::Abgr8888,
        old(buffer).data@.len() == orig.len(),
        row_len <= old(buffer).stride,
        row_start + row_len <= orig.len(),
        row_start + row_len <= usize::MAX,
        row_len == old(buffer).stride || row_start + row_len == orig.len(),
        forall|i: int| row_start <= i < orig.len() ==> old(buffer).data@[i] == orig[i],
    ensures
        final(buffer).width == old(buffer).width,
        final(buffer).height == old(buffer).height,
        final(buffer).stride == old(buffer).stride,
        final(buffer).format == old(buffer).format,
        final(buffer).data@.len() == orig.len(),
        forall|i: int| 0 <= i < row_start ==> final(buffer).data@[i] == old(buffer).data@[i],
        forall|i: int| row_start + row_len <= i < orig.len() ==> final(buffer).data@[i] == orig[i],
        forall|c: int| 0 <= c < row_len ==> final(buffer).data@[row_start + c] == #[trigger] row_progress_byte(
            orig, old(buffer).stride as int, old(buffer).width as int, old(buffer).format, row_start as int, c, old(buffer).width as int),
{
    let format = buffer.format;
    let width = buffer.width as usize;
    let ghost stride = buffer.stride as int;
    let mut col: usize = 0;
    let mut off: usize = 0;
    while col < width && off < row_len && row_len - off > 3
        invariant
            off == col * 4,
            col <= width,
            width == buffer.width,
            format == buffer.format,
            stride == buffer.stride,
            buffer.stride == old(buffer).stride,
            buffer.width == old(buffer).width,
            buffer.height == old(buffer).height,
            buffer.format == old(buffer).format,
            format != PixelFormat::Abgr8888,
            row_len <= stride,
            row_start + row_len <= orig.len(),
            row_start + row_len <= usize::MAX,
            row_len == stride || row_start + row_len == orig.len(),
            buffer.data@.len() == orig.len(),
            off <= row_len,
            forall|i: int| 0 <= i < row_start ==> buffer.data@[i] == old(buffer).data@[i],
            forall|i: int| row_start + off <= i < orig.len() ==> buffer.data@[i] == orig[i],
            forall|c: int| 0 <= c < off ==> buffer.data@[row_start + c] == #[trigger] row_progress_byte(
                orig, stride, width as int, format, row_start as int, c, width as int),
        decreases width - col,
    {
        let base = row_start + off;
        let b0 = buffer.data[base];
        let b2 = buffer.data[base + 2];
        match format {
            PixelFormat::Argb8888 => {
                buffer.data.set(base, b2);
                buffer.data.set(base + 2, b0);
            },
            PixelFormat::Xrgb8888 => {
                buffer.data.set(base, b2);
                buffer.data.set(base + 2, b0);
                buffer.data.set(base + 3, 0xFF);
            },
            _ => {
                buffer.data.set(base + 3, 0xFF);
            },
        }
        col += 1;
        off += 4;
    }
    assert forall|c: int| off <= c < row_len implies buffer.data@[row_start + c] == #[trigger] row_progress_byte(
        orig, stride, width as int, format, row_start as int, c, width as int) by {
    }
}

/// Byte `m` of the pixel that holds byte `i` of a row-major buffer sits in the
/// same row, at the same column, at place `m`.
proof fn lemma_pixel_byte(stride: int, i: int, m: int)
    requires
        stride > 0,
        i >= 0,
        0 <= m < 4,
        (i % stride) - (i % stride) % 4 + 3 < stride,
    ensures
        ({
            let c = i % stride;
            let k = c % 4;
            let j = i - k + m;
            &&& j % stride == c - k + m
            &&& j - j % stride == i - c
            &&& (c - k + m) % 4 == m
            &&& (c - k + m) / 4 == c / 4
        }),
{
    let c = i % stride;
    let k = c % 4;
    vstd::arithmetic::div_mod::lemma_fundamental_div_mod(i, stride);
    vstd::arithmetic::div_mod::lemma_fundamental_div_mod(c, 4);
    vstd::arithmetic::div_mod::lemma_mod_bound(i, stride);
    vstd::arithmetic::div_mod::lemma_fundamental_div_mod_converse(c - k + m, 4, c / 4, m);
    vstd::arithmetic::div_mod::lemma_fundamental_div_mod_converse(i - k + m, stride, i / stride, c - k + m);
}

/// Converting ARGB data twice gives it back: swapping the blue and red bytes
/// of each pixel undoes itself, and nothing else is touched.
pub proof fn argb_conversion_undoes_itself(data: Seq<u8>, stride: int, width: int)
    requires
        stride > 0,
    ensures
        rgba_data(rgba_data(data, stride, width, PixelFormat::Argb8888), stride, width, PixelFormat::Argb8888)
            == data,
{
    let f = PixelFormat::Argb8888;
    let once = rgba_data(data, stride, width, f);
    let twice = rgba_data(once, stride, width, f);
    assert forall|i: int| 0 <= i < data.len() implies twice[i] == data[i] by {
        let c = i % stride;
        let row_start = i - c;
        let k = c % 4;
        vstd::arithmetic::div_mod::lemma_mod_bound(i, stride);
        vstd::arithmetic::div_mod::lemma_mod_bound(c, 4);
        vstd::arithmetic::div_mod::lemma_mod_decreases(i as nat, stride as nat);
        vstd::arithmetic::div_mod::lemma_mod_decreases(c as nat, 4);
        if pixel_converted(data.len() as int, stride, width, row_start, c) {
            lemma_pixel_byte(stride, i, 0);
            lemma_pixel_byte(stride, i, 2);
            if k == 0 {
                assert(once[i + 2] == data[i]);
            } else if k == 2 {
                assert(once[i - 2] == data[i]);
            }
        }
    }
    assert(twice =~= data);
}

/// Map a Wayland `wl_shm::Format` value to our `PixelFormat`; only the two
/// most common formats (ARGB8888 = 0, XRGB8888 = 1) are recognised.
pub fn wl_format_to_pixel_format(format: u32) -> (res: Option<PixelFormat>)
    ensures
        format == 0 ==> res == Some(PixelFormat::Argb8888),
        format == 1 ==> res == Some(PixelFormat::Xrgb8888),
        format > 1 ==> res is None,
{
    match format {
        0 => Some(PixelFormat::Argb8888),
        1 => Some(PixelFormat::Xrgb8888),
        _ => None,
    }
}

} // verus!
