use vstd::prelude::*;
use crate::buffers::{self, BufferView, CaptureBuffer};
use crate::error::WlsnipError;
use crate::utils::text;
use vstd::arithmetic::mul::lemma_mul_inequality;
use crate::utils::text::{
    i64_to_decimal, u64_to_decimal,
    chars_in_range, chars_of, debug_quote, find_single, first_two_words, parse_i32_range,
    parse_u32_range, string_from_chars, trim_bounds,
};

verus! {

/// A rectangular region on screen.
#[derive(Debug, Clone, Copy, PartialEq, Eq, Structural)]
pub struct Region {
    pub x: i32,
    pub y: i32,
    pub width: u32,
    pub height: u32,
}

// ── Parsing slurp output ───────────────────────────────────────────────────

/// Error text for a geometry string that is not of the form "X,Y WxH".
pub open spec fn geometry_message(s: Seq<char>) -> Seq<char> {
    "invalid slurp geometry: "@ + text::debug_text(text::trim(s))
}

/// Result of parsing slurp output "X,Y WxH": two whitespace-separated words,
/// the first with exactly one ',' between X and Y, the second with exactly one
/// 'x' between W and H; X and Y parse as `i32`, W and H as `u32`.
/// The error carries the message text; the first failing field is reported.
pub open spec fn slurp_parse(s: Seq<char>) -> Result<Region, Seq<char>> {
    let w = text::words(s);
    if w.len() != 2 {
        Err(geometry_message(s))
    } else {
        match (text::split_pair(w[0], ','), text::split_pair(w[1], 'x')) {
            (Some((px, py)), Some((dw, dh))) => match text::parse_i32_spec(px) {
                None => Err("invalid x coordinate: "@ + text::debug_text(px)),
                Some(x) => match text::parse_i32_spec(py) {
                    None => Err("invalid y coordinate: "@ + text::debug_text(py)),
                    Some(y) => match text::parse_u32_spec(dw) {
                        None => Err("invalid width: "@ + text::debug_text(dw)),
                        Some(width) => match text::parse_u32_spec(dh) {
                            None => Err("invalid height: "@ + text::debug_text(dh)),
                            Some(height) => Ok(Region { x, y, width, height }),
                        },
                    },
                },
            },
            _ => Err(geometry_message(s)),
        }
    }
}

/// "label" followed by the debug form of the characters `s[lo..hi]`.
fn labelled_debug(label: &str, s: &Vec<char>, lo: usize, hi: usize) -> (m: String)
    requires
        lo <= hi <= s@.len(),
    ensures
        m@ == label@ + text::debug_text(s@.subrange(lo as int, hi as int)),
{
    let part = string_from_chars(&chars_in_range(s, lo, hi));
    let quoted = debug_quote(part.as_str());
    let mut m = String::from_str(label);
    m.append(quoted.as_str());
    m
}

impl Region {
    /// Parse a region from slurp output format: "X,Y WxH"
    pub fn from_slurp(s: &str) -> (res: Result<Self, WlsnipError>)
        ensures
            match res {
                Ok(r) => slurp_parse(s@) == Ok::<Region, Seq<char>>(r),
                Err(e) => exists|m: String| e == WlsnipError::RegionSelection(m)
                    && slurp_parse(s@) == Err::<Region, Seq<char>>(m@),
            },
    {
        let chars = chars_of(s);
        let (count, s0, e0, s1, e1) = first_two_words(&chars);
        if count != 2 {
            let (a, b) = trim_bounds(&chars);
            let m = labelled_debug("invalid slurp geometry: ", &chars, a, b);
            return Err(WlsnipError::RegionSelection(m));
        }
        let ghost w = text::words(chars@);
        let comma = find_single(&chars, s0, e0, ',');
        let cross = find_single(&chars, s1, e1, 'x');
        if comma.is_none() || cross.is_none() {
            let (a, b) = trim_bounds(&chars);
            let m = labelled_debug("invalid slurp geometry: ", &chars, a, b);
            proof {
                assert(text::split_pair(w[0], ',') is None || text::split_pair(w[1], 'x') is None);
            }
            return Err(WlsnipError::RegionSelection(m));
        }
        let kc = comma.unwrap() + s0;
        let kx = cross.unwrap() + s1;
        proof {
            let k0 = choose|k: int| text::single_sep_at(w[0], ',', k);
            assert(k0 == kc - s0) by {
                if k0 != kc - s0 {
                    assert(w[0][kc - s0] != ',');
                }
            }
            let k1 = choose|k: int| text::single_sep_at(w[1], 'x', k);
            assert(k1 == kx - s1) by {
                if k1 != kx - s1 {
                    assert(w[1][kx - s1] != 'x');
                }
            }
            assert(w[0].take(kc - s0) =~= chars@.subrange(s0 as int, kc as int));
            assert(w[0].skip(kc - s0 + 1) =~= chars@.subrange(kc + 1, e0 as int));
            assert(w[1].take(kx - s1) =~= chars@.subrange(s1 as int, kx as int));
            assert(w[1].skip(kx - s1 + 1) =~= chars@.subrange(kx + 1, e1 as int));
        }
        let x = match parse_i32_range(&chars, s0, kc) {
            Some(v) => v,
            None => {
                return Err(WlsnipError::RegionSelection(labelled_debug("invalid x coordinate: ", &chars, s0, kc)));
            },
        };
        let y = match parse_i32_range(&chars, kc + 1, e0) {
            Some(v) => v,
            None => {
                return Err(WlsnipError::RegionSelection(labelled_debug("invalid y coordinate: ", &chars, kc + 1, e0)));
            },
        };
        let width = match parse_u32_range(&chars, s1, kx) {
            Some(v) => v,
            None => {
                return Err(WlsnipError::RegionSelection(labelled_debug("invalid width: ", &chars, s1, kx)));
            },
        };
        let height = match parse_u32_range(&chars, kx + 1, e1) {
            Some(v) => v,
            None => {
                return Err(WlsnipError::RegionSelection(labelled_debug("invalid height: ", &chars, kx + 1, e1)));
            },
        };
        Ok(Region { x, y, width, height })
    }
}

/// The text slurp prints for a region: "X,Y WxH".
pub open spec fn slurp_text(r: Region) -> Seq<char> {
    text::signed_decimal(r.x as int) + seq![','] + text::signed_decimal(r.y as int) + seq![' ']
        + text::decimal(r.width as nat) + seq!['x'] + text::decimal(r.height as nat)
}

/// Characters of numbers: digits and '-', none of them whitespace, ',' or 'x'.
proof fn lemma_number_chars(n: int)
    ensures
        text::signed_decimal(n).len() >= 1,
        forall|i: int| 0 <= i < text::signed_decimal(n).len() ==> {
            let c = #[trigger] text::signed_decimal(n)[i];
            !text::is_whitespace(c) && c != ',' && c != 'x'
        },
{
    text::lemma_signed_decimal_chars(n);
}

/// Parsing the text slurp prints for a region, followed by a newline or any
/// other whitespace, gives that region back.
pub proof fn slurp_output_round_trip(r: Region, trailing: Seq<char>)
    requires
        forall|i: int| 0 <= i < trailing.len() ==> text::is_whitespace(#[trigger] trailing[i]),
    ensures
        slurp_parse(slurp_text(r) + trailing) == Ok::<Region, Seq<char>>(r),
{
    let sx = text::signed_decimal(r.x as int);
    let sy = text::signed_decimal(r.y as int);
    let dw = text::signed_decimal(r.width as int);
    let dh = text::signed_decimal(r.height as int);
    assert(dw == text::decimal(r.width as nat));
    assert(dh == text::decimal(r.height as nat));
    lemma_number_chars(r.x as int);
    lemma_number_chars(r.y as int);
    lemma_number_chars(r.width as int);
    lemma_number_chars(r.height as int);
    let a = sx + seq![','] + sy;
    let b = dw + seq!['x'] + dh;
    assert forall|i: int| 0 <= i < a.len() implies !text::is_whitespace(#[trigger] a[i]) by {
        if i < sx.len() {
            assert(a[i] == sx[i]);
        } else if i > sx.len() {
            assert(a[i] == sy[i - sx.len() - 1]);
        }
    }
    assert forall|i: int| 0 <= i < b.len() implies !text::is_whitespace(#[trigger] b[i]) by {
        if i < dw.len() {
            assert(b[i] == dw[i]);
        } else if i > dw.len() {
            assert(b[i] == dh[i - dw.len() - 1]);
        }
    }
    text::lemma_two_words(a, b, trailing);
    assert(slurp_text(r) + trailing =~= a + seq![' '] + b + trailing);
    assert forall|i: int| 0 <= i < sx.len() implies #[trigger] sx[i] != ',' by {}
    assert forall|i: int| 0 <= i < sy.len() implies #[trigger] sy[i] != ',' by {}
    assert forall|i: int| 0 <= i < dw.len() implies #[trigger] dw[i] != 'x' by {}
    assert forall|i: int| 0 <= i < dh.len() implies #[trigger] dh[i] != 'x' by {}
    text::lemma_split_pair_at(sx, ',', sy);
    text::lemma_split_pair_at(dw, 'x', dh);
    text::parse_i32_of_decimal(r.x);
    text::parse_i32_of_decimal(r.y);
    text::parse_u32_of_decimal(r.width);
    text::parse_u32_of_decimal(r.height);
}

// ── Selecting a region with slurp ──────────────────────────────────────────

/// The arguments slurp is run with: a translucent background, the selection
/// border in the given color (orange by default), a faint orange fill and a
/// border 2 pixels wide.
pub open spec fn slurp_arguments(selection_color: Option<Seq<char>>) -> Seq<Seq<char>> {
    let color = match selection_color {
        Some(c) => c,
        None => "#fb751bff"@,
    };
    seq!["-b"@, "#2E2A1E55"@, "-c"@, color, "-s"@, "#fb751b22"@, "-w"@, "2"@]
}

/// The command-line arguments for slurp.
pub fn slurp_args(selection_color: Option<&str>) -> (args: Vec<String>)
    ensures
        args@.map_values(|a: String| a@) == slurp_arguments(match selection_color {
            Some(c) => Some(c@),
            None => None,
        }),
{
    let color = match selection_color {
        Some(c) => c,
        None => "#fb751bff",
    };
    let args = vec![
        String::from_str("-b"),
        String::from_str("#2E2A1E55"),
        String::from_str("-c"),
        String::from_str(color),
        String::from_str("-s"),
        String::from_str("#fb751b22"),
        String::from_str("-w"),
        String::from_str("2"),
    ];
    assert(args@.map_values(|a: String| a@) =~= slurp_arguments(match selection_color {
        Some(c) => Some(c@),
        None => None,
    }));
    args
}

/// The region slurp selected, from how it exited and what it printed: an
/// unsuccessful exit (the user cancelled, or slurp failed) is a selection
/// error, otherwise its output is parsed as "X,Y WxH".
pub fn slurp_selection(succeeded: bool, output: &str) -> (res: Result<Region, WlsnipError>)
    ensures
        !succeeded ==> (res matches Err(e) && exists|m: String|
            e == WlsnipError::RegionSelection(m) && m@ == "slurp was cancelled or failed"@),
        succeeded ==> match res {
            Ok(r) => slurp_parse(output@) == Ok::<Region, Seq<char>>(r),
            Err(e) => exists|m: String| e == WlsnipError::RegionSelection(m)
                && slurp_parse(output@) == Err::<Region, Seq<char>>(m@),
        },
{
    if !succeeded {
        return Err(WlsnipError::RegionSelection(String::from_str("slurp was cancelled or failed")));
    }
    Region::from_slurp(output)
}

// ── Cropping ───────────────────────────────────────────────────────────────

/// Left edge of the crop: negative coordinates are clamped to 0.
pub open spec fn crop_x(r: Region) -> int {
    if r.x < 0 { 0 } else { r.x as int }
}

/// Top edge of the crop: negative coordinates are clamped to 0.
pub open spec fn crop_y(r: Region) -> int {
    if r.y < 0 { 0 } else { r.y as int }
}

/// The region (with clamped origin) lies inside the buffer.
pub open spec fn crop_in_bounds(b: BufferView, r: Region) -> bool {
    &&& crop_x(r) + r.width <= b.width
    &&& crop_y(r) + r.height <= b.height
}

/// The inputs on which cropping runs without arithmetic overflow or an
/// out-of-range read: the bounds test fits in `u32`, and, for a region inside
/// the buffer, the new row size, the new data size and the last source offset
/// fit in `u32`, and the last source row lies inside the data.
pub open spec fn crop_fits(b: BufferView, r: Region) -> bool {
    &&& crop_x(r) + r.width <= u32::MAX
    &&& crop_y(r) + r.height <= u32::MAX
    &&& crop_in_bounds(b, r) ==> {
        &&& r.width * 4 <= u32::MAX
        &&& r.width * 4 * r.height <= u32::MAX
        &&& r.height > 0 ==> {
            &&& (crop_y(r) + r.height - 1) * b.stride + crop_x(r) * 4 <= u32::MAX
            &&& (crop_y(r) + r.height - 1) * b.stride + crop_x(r) * 4 + r.width * 4 <= b.data.len()
        }
    }
}

/// Byte `i` of the cropped image: row `i / (4w)`, offset `i % (4w)` in it.
pub open spec fn crop_byte(b: BufferView, r: Region, i: int) -> u8 {
    let rw = r.width * 4;
    b.data[(crop_y(r) + i / rw) * b.stride + crop_x(r) * 4 + i % rw]
}

/// The cropped image: `r.width` x `r.height` pixels copied row by row from the
/// source at the clamped origin, packed with stride `4 * r.width`.
pub open spec fn cropped(b: BufferView, r: Region) -> BufferView {
    BufferView {
        width: r.width,
        height: r.height,
        stride: (r.width * 4) as u32,
        format: b.format,
        data: Seq::new((r.width * 4 * r.height) as nat, |i: int| crop_byte(b, r, i)),
    }
}

/// Error text for a region that does not fit in the buffer.
pub open spec fn crop_message(b: BufferView, r: Region) -> Seq<char> {
    "crop region ("@ + text::signed_decimal(r.x as int) + ","@ + text::signed_decimal(r.y as int) + " "@
        + text::decimal(r.width as nat) + "x"@ + text::decimal(r.height as nat) + ") exceeds buffer ("@
        + text::decimal(b.width as nat) + "x"@ + text::decimal(b.height as nat) + ")"@
}

fn crop_error_text(buffer: &CaptureBuffer, region: &Region) -> (m: String)
    ensures
        m@ == crop_message(buffer@, *region),
{
    let mut m = String::from_str("crop region (");
    m.append(i64_to_decimal(region.x as i64).as_str());
    m.append(",");
    m.append(i64_to_decimal(region.y as i64).as_str());
    m.append(" ");
    m.append(u64_to_decimal(region.width as u64).as_str());
    m.append("x");
    m.append(u64_to_decimal(region.height as u64).as_str());
    m.append(") exceeds buffer (");
    m.append(u64_to_decimal(buffer.width as u64).as_str());
    m.append("x");
    m.append(u64_to_decimal(buffer.height as u64).as_str());
    m.append(")");
    m
}

/// Whether cropping `buffer` to `region` runs without overflow or an
/// out-of-range read (`crop_fits`).
pub fn can_crop(buffer: &CaptureBuffer, region: &Region) -> (ok: bool)
    ensures
        ok == crop_fits(buffer@, *region),
{
    let cx: u128 = if region.x < 0 { 0 } else { region.x as u128 };
    let cy: u128 = if region.y < 0 { 0 } else { region.y as u128 };
    let w = region.width as u128;
    let h = region.height as u128;
    let max: u128 = 0xFFFF_FFFF;
    if cx + w > max || cy + h > max {
        return false;
    }
    if !(cx + w <= buffer.width as u128 && cy + h <= buffer.height as u128) {
        return true;
    }
    if w * 4 > max {
        return false;
    }
    assert(w * 4 * h <= 0xFFFF_FFFFu128 * 0xFFFF_FFFFu128) by (nonlinear_arith)
        requires w * 4 <= 0xFFFF_FFFFu128, h <= 0xFFFF_FFFFu128;
    if w * 4 * h > max {
        return false;
    }
    if h == 0 {
        return true;
    }
    let stride = buffer.stride as u128;
    assert((cy + h - 1) * stride <= 0xFFFF_FFFFu128 * 0xFFFF_FFFFu128) by (nonlinear_arith)
        requires cy + h - 1 <= 0xFFFF_FFFFu128, stride <= 0xFFFF_FFFFu128, cy + h >= 1;
    let last = (cy + h - 1) * stride + cx * 4;
    last <= max && last + w * 4 <= buffer.data.len() as u128
}

/// Crop a capture buffer to the specified region.
///
/// Returns a new buffer containing only the cropped area; a region that does
/// not fit in the buffer is rejected with `InvalidArg`.
pub fn crop(buffer: &CaptureBuffer, region: &Region) -> (res: Result<CaptureBuffer, WlsnipError>)
    requires
        crop_fits(buffer@, *region),
    ensures
        crop_in_bounds(buffer@, *region) ==> (res matches Ok(c) && c@ == cropped(buffer@, *region)),
        !crop_in_bounds(buffer@, *region) ==> (res matches Err(e) && exists|m: String|
            e == WlsnipError::InvalidArg(m) && m@ == crop_message(buffer@, *region)),
{
    let bpp = buffer.format.bytes_per_pixel();
    let src_x: u32 = if region.x < 0 { 0 } else { region.x as u32 };
    let src_y: u32 = if region.y < 0 { 0 } else { region.y as u32 };

    if src_x + region.width > buffer.width || src_y + region.height > buffer.height {
        return Err(WlsnipError::InvalidArg(crop_error_text(buffer, region)));
    }

    let dst_stride = region.width * bpp;
    let ghost rw = dst_stride as int;
    let ghost b = buffer@;
    let ghost r = *region;
    let mut dst_data: Vec<u8> = Vec::with_capacity((dst_stride * region.height) as usize);
    assert(dst_stride * region.height <= u32::MAX);

    let mut row: u32 = 0;
    while row < region.height
        invariant
            row <= region.height,
            b == buffer@,
            r == *region,
            rw == region.width * 4,
            dst_stride == rw,
            src_x == crop_x(r),
            src_y == crop_y(r),
            bpp == 4,
            crop_fits(b, r),
            crop_in_bounds(b, r),
            dst_data@.len() == row * rw,
            forall|i: int| 0 <= i < row * rw ==> dst_data@[i] == #[trigger] crop_byte(b, r, i),
        decreases region.height - row,
    {
        proof {
            lemma_mul_inequality(src_y + row, src_y + region.height - 1, buffer.stride as int);
            lemma_mul_inequality(row as int, region.height as int, rw);
            vstd::arithmetic::mul::lemma_mul_is_distributive_add(rw, row as int, 1);
        }
        let src_offset = ((src_y + row) * buffer.stride + src_x * bpp) as usize;
        let row_bytes = (region.width * bpp) as usize;
        let mut j: usize = 0;
        while j < row_bytes
            invariant
                j <= row_bytes,
                row_bytes == rw,
                row < region.height,
                b == buffer@,
                r == *region,
                rw == region.width * 4,
                src_offset == (crop_y(r) + row) * b.stride + crop_x(r) * 4,
                src_offset + row_bytes <= buffer.data.len(),
                dst_data@.len() == row * rw + j,
                forall|i: int| 0 <= i < row * rw + j ==> dst_data@[i] == #[trigger] crop_byte(b, r, i),
            decreases row_bytes - j,
        {
            proof {
                buffers::lemma_split_index(row * rw + j, rw, row as int, j as int);
            }
            dst_data.push(buffer.data[src_offset + j]);
            j += 1;
        }
        assert((row + 1) * rw == row * rw + rw) by (nonlinear_arith);
        row += 1;
    }
    proof {
        assert(row * rw == rw * region.height) by (nonlinear_arith)
            requires row == region.height;
        assert(dst_data@ =~= cropped(b, r).data);
    }
    Ok(CaptureBuffer {
        width: region.width,
        height: region.height,
        stride: dst_stride,
        format: buffer.format,
        data: dst_data,
    })
}


/// Cropping a packed image (stride `4 * width`, exactly `stride * height`
/// bytes) to its whole area gives the image back.
pub proof fn crop_whole_is_identity(b: BufferView)
    requires
        b.stride == b.width * 4,
        b.data.len() == b.stride * b.height,
    ensures
        crop_in_bounds(b, Region { x: 0, y: 0, width: b.width, height: b.height }),
        cropped(b, Region { x: 0, y: 0, width: b.width, height: b.height }) == b,
{
    let r = Region { x: 0, y: 0, width: b.width, height: b.height };
    let c = cropped(b, r);
    let rw = b.width * 4;
    assert forall|i: int| 0 <= i < c.data.len() implies c.data[i] == b.data[i] by {
        vstd::arithmetic::div_mod::lemma_fundamental_div_mod(i, rw);
        assert((i / rw) * rw == rw * (i / rw)) by (nonlinear_arith);
    }
    assert(c.data =~= b.data);
}

/// Cropping a cropped image is cropping the first image once, at the sum of the
/// two offsets (for offsets that are not negative and regions that fit).
pub proof fn crop_of_crop(b: BufferView, r1: Region, r2: Region)
    requires
        r1.x >= 0,
        r1.y >= 0,
        r2.x >= 0,
        r2.y >= 0,
        r1.x + r2.x <= i32::MAX,
        r1.y + r2.y <= i32::MAX,
        r1.width * 4 <= u32::MAX,
        crop_in_bounds(b, r1),
        crop_in_bounds(cropped(b, r1), r2),
    ensures
        ({
            let r = Region { x: (r1.x + r2.x) as i32, y: (r1.y + r2.y) as i32, width: r2.width, height: r2.height };
            crop_in_bounds(b, r) && cropped(cropped(b, r1), r2) == cropped(b, r)
        }),
{
    let r = Region { x: (r1.x + r2.x) as i32, y: (r1.y + r2.y) as i32, width: r2.width, height: r2.height };
    let c1 = cropped(b, r1);
    let lhs = cropped(c1, r2);
    let rhs = cropped(b, r);
    let w1 = r1.width * 4;
    let w2 = r2.width * 4;
    assert forall|i: int| 0 <= i < lhs.data.len() implies lhs.data[i] == rhs.data[i] by {
        let row = i / w2;
        let col = i % w2;
        vstd::arithmetic::div_mod::lemma_fundamental_div_mod(i, w2);
        vstd::arithmetic::div_mod::lemma_mod_pos_bound(i, w2);
        assert(row < r2.height) by {
            if row >= r2.height {
                vstd::arithmetic::mul::lemma_mul_inequality(r2.height as int, row, w2);
                assert(w2 * row == row * w2) by (nonlinear_arith);
                assert(r2.height * w2 == w2 * r2.height) by (nonlinear_arith);
            }
        }
        let j = (r2.y + row) * w1 + r2.x * 4 + col;
        assert(0 <= j < c1.data.len()) by {
            vstd::arithmetic::mul::lemma_mul_inequality(r2.y + row + 1, r1.height as int, w1);
            assert((r2.y + row + 1) * w1 == (r2.y + row) * w1 + w1) by (nonlinear_arith);
            assert(r1.height * w1 == w1 * r1.height) by (nonlinear_arith);
            assert((r2.y + row) * w1 >= 0) by (nonlinear_arith)
                requires r2.y + row >= 0, w1 >= 0;
        }
        buffers::lemma_split_index(j, w1, r2.y + row, r2.x * 4 + col);
    }
    assert(lhs.data =~= rhs.data);
}

} // verus!
