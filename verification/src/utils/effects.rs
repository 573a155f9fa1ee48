use vstd::prelude::*;
use crate::buffers::{self, BufferView, CaptureBuffer};
use crate::utils::geometry::{self, Region};
use vstd::arithmetic::mul::lemma_mul_inequality;

verus! {

/// Blank border added on each side: the requested padding, plus twice the
/// shadow blur radius (15) when a shadow is drawn.
pub open spec fn total_padding(padding: u32, shadow: bool) -> int {
    padding + if shadow { 30int } else { 0int }
}

/// The inputs on which `apply_effects` runs without arithmetic overflow or an
/// out-of-range read: the padded geometry and its data size fit in `u32`, and
/// every source row lies inside the data.
pub open spec fn effects_fit(b: BufferView, padding: u32, shadow: bool) -> bool {
    let tp = total_padding(padding, shadow);
    (padding != 0 || shadow) ==> {
        &&& tp * 2 <= u32::MAX
        &&& b.width + tp * 2 <= u32::MAX
        &&& b.height + tp * 2 <= u32::MAX
        &&& (b.width + tp * 2) * 4 * (b.height + tp * 2) <= u32::MAX
        &&& b.height > 0 ==> (b.height - 1) * b.stride + b.width * 4 <= b.data.len()
        &&& b.height > 0 ==> (b.height - 1) * b.stride <= u32::MAX
    }
}

/// Byte `i` of the padded image (stride `4 * (w + 2 tp)`): inside the image
/// area (offset `tp` on both axes) the source pixel; else, with a shadow,
/// inside the shadow rectangle (the image area moved 5 right and 10 down) the
/// shadow colour 0x80000000 stored little-endian; else 0 (transparent black).
pub open spec fn effect_byte(b: BufferView, padding: u32, shadow: bool, i: int) -> u8 {
    let tp = total_padding(padding, shadow);
    let ns = (b.width + tp * 2) * 4;
    let y = i / ns;
    let x = (i % ns) / 4;
    let k = (i % ns) % 4;
    if tp <= y < tp + b.height && tp <= x < tp + b.width {
        b.data[(y - tp) * b.stride + (x - tp) * 4 + k]
    } else if shadow && tp + 10 <= y < tp + 10 + b.height && tp + 5 <= x < tp + 5 + b.width {
        if k == 3 { 0x80u8 } else { 0u8 }
    } else {
        0u8
    }
}

/// The image with its padding and shadow.
pub open spec fn with_effects(b: BufferView, padding: u32, shadow: bool) -> BufferView {
    if padding == 0 && !shadow {
        b
    } else {
        let tp = total_padding(padding, shadow);
        let nw = b.width + tp * 2;
        let nh = b.height + tp * 2;
        BufferView {
            width: nw as u32,
            height: nh as u32,
            stride: (nw * 4) as u32,
            format: b.format,
            data: Seq::new((nw * 4 * nh) as nat, |i: int| effect_byte(b, padding, shadow, i)),
        }
    }
}

/// Whether padding `buffer` (with or without a shadow) runs without overflow
/// or an out-of-range read (`effects_fit`).
pub fn can_apply_effects(buffer: &CaptureBuffer, padding: u32, shadow: bool) -> (ok: bool)
    ensures
        ok == effects_fit(buffer@, padding, shadow),
{
    if padding == 0 && !shadow {
        return true;
    }
    let max: u128 = 0xFFFF_FFFF;
    let tp: u128 = padding as u128 + if shadow { 30 } else { 0 };
    let w = buffer.width as u128;
    let h = buffer.height as u128;
    if tp * 2 > max || w + tp * 2 > max || h + tp * 2 > max {
        return false;
    }
    let nw = w + tp * 2;
    let nh = h + tp * 2;
    assert(nw * 4 * nh <= 0x3_FFFF_FFFCu128 * 0xFFFF_FFFFu128) by (nonlinear_arith)
        requires nw <= 0xFFFF_FFFFu128, nh <= 0xFFFF_FFFFu128;
    if nw * 4 * nh > max {
        return false;
    }
    if h == 0 {
        return true;
    }
    let stride = buffer.stride as u128;
    assert((h - 1) * stride <= 0xFFFF_FFFFu128 * 0xFFFF_FFFFu128) by (nonlinear_arith)
        requires h - 1 <= 0xFFFF_FFFFu128, stride <= 0xFFFF_FFFFu128, h >= 1;
    let last = (h - 1) * stride;
    last <= max && last + w * 4 <= buffer.data.len() as u128
}

/// Add padding around the image and, optionally, a simple block drop shadow.
pub fn apply_effects(buffer: &CaptureBuffer, padding: u32, shadow: bool) -> (res: CaptureBuffer)
    requires
        effects_fit(buffer@, padding, shadow),
    ensures
        res@ == with_effects(buffer@, padding, shadow),
{
    if padding == 0 && !shadow {
        return buffer.duplicate();
    }
    let ghost b = buffer@;
    let bpp = buffer.format.bytes_per_pixel();
    let shadow_offset_y: u32 = if shadow { 10 } else { 0 };
    let shadow_offset_x: u32 = if shadow { 5 } else { 0 };
    let shadow_blur_radius: u32 = if shadow { 15 } else { 0 };
    let shadow_extra_padding: u32 = if shadow { shadow_blur_radius * 2 } else { 0 };

    let total_padding_x = padding + shadow_extra_padding;
    let total_padding_y = padding + shadow_extra_padding;
    let tp = total_padding_x;

    let new_width = buffer.width + (total_padding_x * 2);
    let new_height = buffer.height + (total_padding_y * 2);
    assert(new_width * 4 <= u32::MAX) by (nonlinear_arith)
        requires
            new_height >= 1,
            new_width * 4 * new_height <= u32::MAX;
    let new_stride = new_width * bpp;
    assert(new_stride * new_height <= u32::MAX);
    let ghost ns = new_stride as int;

    let width = buffer.width;
    let height = buffer.height;
    let stride = buffer.stride as usize;
    let shadow_x = tp + shadow_offset_x;
    let shadow_y = tp + shadow_offset_y;

    let mut new_data: Vec<u8> = Vec::with_capacity((new_stride * new_height) as usize);
    let mut y: u32 = 0;
    while y < new_height
        invariant
            b == buffer@,
            y <= new_height,
            tp == total_padding(padding, shadow),
            new_width == width + tp * 2,
            new_height == height + tp * 2,
            ns == new_stride,
            new_stride == new_width * 4,
            new_stride * new_height <= u32::MAX,
            width == b.width,
            height == b.height,
            stride == b.stride,
            shadow_x == tp + if shadow { 5int } else { 0int },
            shadow_y == tp + if shadow { 10int } else { 0int },
            effects_fit(b, padding, shadow),
            padding != 0 || shadow,
            new_data@.len() == y * ns,
            forall|i: int| 0 <= i < y * ns ==> new_data@[i] == #[trigger] effect_byte(b, padding, shadow, i),
        decreases new_height - y,
    {
        let mut x: u32 = 0;
        while x < new_width
            invariant
                b == buffer@,
                y < new_height,
                x <= new_width,
                tp == total_padding(padding, shadow),
                new_width == width + tp * 2,
                new_height == height + tp * 2,
                ns == new_stride,
                new_stride == new_width * 4,
                width == b.width,
                height == b.height,
                stride == b.stride,
                shadow_x == tp + if shadow { 5int } else { 0int },
                shadow_y == tp + if shadow { 10int } else { 0int },
                effects_fit(b, padding, shadow),
                padding != 0 || shadow,
                new_data@.len() == y * ns + x * 4,
                forall|i: int| 0 <= i < y * ns + x * 4 ==> new_data@[i] == #[trigger] effect_byte(b, padding, shadow, i),
            decreases new_width - x,
        {
            let in_image = tp <= y && y < tp + height && tp <= x && x < tp + width;
            let in_shadow = shadow && shadow_y <= y && y < shadow_y + height && shadow_x <= x && x < shadow_x + width;
            let mut src: usize = 0;
            if in_image {
                proof {
                    lemma_mul_inequality((y - tp) as int, (height - 1) as int, stride as int);
                    assert(buffer.data@.len() == buffer.data.len());
                }
                src = ((y - tp) as usize) * stride + ((x - tp) as usize) * 4;
            }
            let mut k: usize = 0;
            while k < 4
                invariant
                    b == buffer@,
                    k <= 4,
                    y < new_height,
                    x < new_width,
                    tp == total_padding(padding, shadow),
                    new_width == width + tp * 2,
                    ns == new_stride,
                    new_stride == new_width * 4,
                    width == b.width,
                    height == b.height,
                    stride == b.stride,
                    in_image == (tp <= y && y < tp + height && tp <= x && x < tp + width),
                    in_shadow == (shadow && shadow_y <= y && y < shadow_y + height && shadow_x <= x
                        && x < shadow_x + width),
                    shadow_x == tp + if shadow { 5int } else { 0int },
                    shadow_y == tp + if shadow { 10int } else { 0int },
                    in_image ==> src == (y - tp) * b.stride + (x - tp) * 4,
                    in_image ==> src + 4 <= buffer.data.len(),
                    new_data@.len() == y * ns + x * 4 + k,
                    forall|i: int| 0 <= i < y * ns + x * 4 + k ==> new_data@[i] == #[trigger] effect_byte(b, padding, shadow, i),
                decreases 4 - k,
            {
                proof {
                    buffers::lemma_split_index(y * ns + x * 4 + k, ns, y as int, x * 4 + k);
                }
                let v: u8 = if in_image {
                    buffer.data[src + k]
                } else if in_shadow {
                    if k == 3 { 0x80 } else { 0 }
                } else {
                    0
                };
                new_data.push(v);
                k += 1;
            }
            x += 1;
        }
        assert((y + 1) * ns == y * ns + ns) by (nonlinear_arith);
        y += 1;
    }
    proof {
        assert(y * ns == ns * new_height) by (nonlinear_arith)
            requires y == new_height;
        assert(new_data@ =~= with_effects(b, padding, shadow).data);
    }
    CaptureBuffer {
        width: new_width,
        height: new_height,
        stride: new_stride,
        format: buffer.format,
        data: new_data,
    }
}


/// Padding (with or without a shadow) keeps the image intact: cropping the
/// padded image to the image area gives the image's own pixels, packed.
pub proof fn effects_keep_image(b: BufferView, padding: u32, shadow: bool)
    requires
        padding != 0 || shadow,
        effects_fit(b, padding, shadow),
    ensures
        ({
            let tp = total_padding(padding, shadow);
            let inner = Region { x: tp as i32, y: tp as i32, width: b.width, height: b.height };
            let whole = Region { x: 0, y: 0, width: b.width, height: b.height };
            &&& geometry::crop_in_bounds(with_effects(b, padding, shadow), inner)
            &&& geometry::crop_in_bounds(b, whole)
            &&& geometry::cropped(with_effects(b, padding, shadow), inner) == geometry::cropped(b, whole)
        }),
{
    let tp = total_padding(padding, shadow);
    let e = with_effects(b, padding, shadow);
    let inner = Region { x: tp as i32, y: tp as i32, width: b.width, height: b.height };
    let whole = Region { x: 0, y: 0, width: b.width, height: b.height };
    let lhs = geometry::cropped(e, inner);
    let rhs = geometry::cropped(b, whole);
    let rw = b.width * 4;
    let nw = b.width + tp * 2;
    let nh = b.height + tp * 2;
    let ns = nw * 4;
    assert(nw * 4 <= u32::MAX) by (nonlinear_arith)
        requires nh >= 1, nw * 4 * nh <= u32::MAX;
    assert(e.stride == ns);
    assert forall|i: int| 0 <= i < lhs.data.len() implies lhs.data[i] == rhs.data[i] by {
        let row = i / rw;
        let col = i % rw;
        vstd::arithmetic::div_mod::lemma_fundamental_div_mod(i, rw);
        vstd::arithmetic::div_mod::lemma_mod_pos_bound(i, rw);
        assert(row < b.height) by {
            if row >= b.height {
                vstd::arithmetic::mul::lemma_mul_inequality(b.height as int, row, rw);
                assert(rw * row == row * rw) by (nonlinear_arith);
                assert(b.height * rw == rw * b.height) by (nonlinear_arith);
            }
        }
        let idx = (tp + row) * ns + tp * 4 + col;
        assert(0 <= idx < ns * nh) by {
            vstd::arithmetic::mul::lemma_mul_inequality(tp + row + 1, nh, ns);
            assert((tp + row + 1) * ns == (tp + row) * ns + ns) by (nonlinear_arith);
            assert(nh * ns == ns * nh) by (nonlinear_arith);
            assert((tp + row) * ns >= 0) by (nonlinear_arith)
                requires tp + row >= 0, ns >= 0;
        }
        assert(ns * nh == nw * 4 * nh) by (nonlinear_arith)
            requires ns == nw * 4;
        buffers::lemma_split_index(idx, ns, tp + row, tp * 4 + col);
        assert(lhs.data[i] == e.data[idx]);
        assert(e.data[idx] == effect_byte(b, padding, shadow, idx));
    }
    assert(lhs.data =~= rhs.data);
}

} // verus!
