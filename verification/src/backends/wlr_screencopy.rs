use vstd::prelude::*;
use crate::buffers::{BufferView, CaptureBuffer};
use crate::error::WlsnipError;

verus! {

/// A captured output together with its position in the global compositor space.
#[derive(Debug, Clone)]
pub struct PlacedCapture {
    pub x: i32,
    pub y: i32,
    pub buffer: CaptureBuffer,
}

/// The content of a `PlacedCapture`.
pub struct PlacedView {
    pub x: i32,
    pub y: i32,
    pub buffer: BufferView,
}

impl View for PlacedCapture {
    type V = PlacedView;

    open spec fn view(&self) -> PlacedView {
        PlacedView { x: self.x, y: self.y, buffer: self.buffer@ }
    }
}

pub open spec fn placed_views(items: Seq<PlacedCapture>) -> Seq<PlacedView> {
    items.map_values(|p: PlacedCapture| p@)
}

/// Smallest left edge of the first `n` outputs (`i32::MAX` for none).
pub open spec fn min_left(ps: Seq<PlacedView>, n: int) -> int
    decreases n,
{
    if n <= 0 { i32::MAX as int } else if ps[n - 1].x < min_left(ps, n - 1) { ps[n - 1].x as int } else { min_left(ps, n - 1) }
}

/// Smallest top edge of the first `n` outputs (`i32::MAX` for none).
pub open spec fn min_top(ps: Seq<PlacedView>, n: int) -> int
    decreases n,
{
    if n <= 0 { i32::MAX as int } else if ps[n - 1].y < min_top(ps, n - 1) { ps[n - 1].y as int } else { min_top(ps, n - 1) }
}

/// Largest right edge (`x + width`) of the first `n` outputs (`i32::MIN` for none).
pub open spec fn max_right(ps: Seq<PlacedView>, n: int) -> int
    decreases n,
{
    if n <= 0 {
        i32::MIN as int
    } else if ps[n - 1].x + ps[n - 1].buffer.width > max_right(ps, n - 1) {
        ps[n - 1].x + ps[n - 1].buffer.width
    } else {
        max_right(ps, n - 1)
    }
}

/// Largest bottom edge (`y + height`) of the first `n` outputs (`i32::MIN` for none).
pub open spec fn max_bottom(ps: Seq<PlacedView>, n: int) -> int
    decreases n,
{
    if n <= 0 {
        i32::MIN as int
    } else if ps[n - 1].y + ps[n - 1].buffer.height > max_bottom(ps, n - 1) {
        ps[n - 1].y + ps[n - 1].buffer.height
    } else {
        max_bottom(ps, n - 1)
    }
}

/// Width of the bounding box of all outputs.
pub open spec fn canvas_width(ps: Seq<PlacedView>) -> int {
    let w = max_right(ps, ps.len() as int) - min_left(ps, ps.len() as int);
    if w < 0 { 0 } else { w }
}

/// Height of the bounding box of all outputs.
pub open spec fn canvas_height(ps: Seq<PlacedView>) -> int {
    let h = max_bottom(ps, ps.len() as int) - min_top(ps, ps.len() as int);
    if h < 0 { 0 } else { h }
}

/// Output `j` paints canvas pixel `(cx, cy)`: the pixel lies in the output's
/// rectangle (placed relative to the bounding box), and the output's source
/// row for it lies wholly inside its data.
pub open spec fn paints(ps: Seq<PlacedView>, j: int, cx: int, cy: int) -> bool {
    let p = ps[j];
    let ox = p.x - min_left(ps, ps.len() as int);
    let oy = p.y - min_top(ps, ps.len() as int);
    let row = cy - oy;
    &&& ox <= cx < ox + p.buffer.width
    &&& oy <= cy < oy + p.buffer.height
    &&& row * p.buffer.stride + p.buffer.width * 4 <= p.buffer.data.len()
}

/// The last of the first `n` outputs that paints pixel `(cx, cy)`.
pub open spec fn top_painter(ps: Seq<PlacedView>, n: int, cx: int, cy: int) -> Option<int>
    decreases n,
{
    if n <= 0 {
        None
    } else if paints(ps, n - 1, cx, cy) {
        Some(n - 1)
    } else {
        top_painter(ps, n - 1, cx, cy)
    }
}

/// Byte `k` of canvas pixel `(cx, cy)`: taken from the last output that
/// paints it (later outputs cover earlier ones), transparent black elsewhere.
pub open spec fn composite_byte(ps: Seq<PlacedView>, cx: int, cy: int, k: int) -> u8 {
    match top_painter(ps, ps.len() as int, cx, cy) {
        Some(j) => {
            let p = ps[j];
            let ox = p.x - min_left(ps, ps.len() as int);
            let oy = p.y - min_top(ps, ps.len() as int);
            p.buffer.data[(cy - oy) * p.buffer.stride + (cx - ox) * 4 + k]
        },
        None => 0u8,
    }
}

/// All outputs pasted onto one canvas spanning their bounding box, at their
/// global positions, in the format of the first output, packed with stride
/// `4 * width`.
pub open spec fn composited(ps: Seq<PlacedView>) -> BufferView {
    let tw = canvas_width(ps);
    let th = canvas_height(ps);
    let ts = tw * 4;
    BufferView {
        width: tw as u32,
        height: th as u32,
        stride: ts as u32,
        format: ps[0].buffer.format,
        data: Seq::new((ts * th) as nat, |i: int| composite_byte(ps, (i % ts) / 4, i / ts, (i % ts) % 4)),
    }
}

/// The inputs on which compositing runs without overflow: every edge fits in
/// `i32`, the bounding box's size and byte count fit in `u32`, and each
/// output's row size and last row offset fit in `u32`.
pub open spec fn composite_fits(ps: Seq<PlacedView>) -> bool {
    &&& forall|j: int| #![trigger ps[j]] 0 <= j < ps.len() ==> {
        &&& ps[j].x + ps[j].buffer.width <= i32::MAX
        &&& ps[j].y + ps[j].buffer.height <= i32::MAX
        &&& ps[j].buffer.width <= i32::MAX
        &&& ps[j].buffer.height <= i32::MAX
        &&& ps[j].buffer.width * 4 <= u32::MAX
        &&& ps[j].buffer.height > 0 ==> (ps[j].buffer.height - 1) * ps[j].buffer.stride <= u32::MAX
    }
    &&& max_right(ps, ps.len() as int) - min_left(ps, ps.len() as int) <= i32::MAX
    &&& max_bottom(ps, ps.len() as int) - min_top(ps, ps.len() as int) <= i32::MAX
    &&& canvas_width(ps) * 4 * canvas_height(ps) <= u32::MAX
    &&& canvas_width(ps) * 4 <= u32::MAX
}

proof fn lemma_bounds(ps: Seq<PlacedView>, j: int, n: int)
    requires
        0 <= j < n <= ps.len(),
    ensures
        min_left(ps, n) <= ps[j].x,
        min_top(ps, n) <= ps[j].y,
        ps[j].x + ps[j].buffer.width <= max_right(ps, n),
        ps[j].y + ps[j].buffer.height <= max_bottom(ps, n),
    decreases n,
{
    if j < n - 1 {
        lemma_bounds(ps, j, n - 1);
    }
}

proof fn lemma_extremes_in_range(ps: Seq<PlacedView>, n: int)
    requires
        0 <= n <= ps.len(),
    ensures
        i32::MIN <= min_left(ps, n) <= i32::MAX,
        i32::MIN <= min_top(ps, n) <= i32::MAX,
        n > 0 ==> exists|j: int| 0 <= j < n && max_right(ps, n) == ps[j].x + ps[j].buffer.width,
        n > 0 ==> exists|j: int| 0 <= j < n && max_bottom(ps, n) == ps[j].y + ps[j].buffer.height,
    decreases n,
{
    if n > 0 {
        lemma_extremes_in_range(ps, n - 1);
        if n > 1 {
            let j1 = choose|j: int| 0 <= j < n - 1 && max_right(ps, n - 1) == ps[j].x + ps[j].buffer.width;
            let j2 = choose|j: int| 0 <= j < n - 1 && max_bottom(ps, n - 1) == ps[j].y + ps[j].buffer.height;
        }
    }
}

proof fn lemma_top_painter(ps: Seq<PlacedView>, n: int, cx: int, cy: int)
    requires
        0 <= n <= ps.len(),
    ensures
        top_painter(ps, n, cx, cy) matches Some(j) ==> 0 <= j < n && paints(ps, j, cx, cy),
    decreases n,
{
    if n > 0 {
        lemma_top_painter(ps, n - 1, cx, cy);
    }
}

/// With a single output, wherever it is placed, the composite is that
/// output's image (when its rows are packed, without padding).
pub proof fn composite_of_one_output(p: PlacedView)
    requires
        p.buffer.stride == p.buffer.width * 4,
        p.buffer.data.len() == p.buffer.stride * p.buffer.height,
        p.x + p.buffer.width <= i32::MAX,
        p.y + p.buffer.height <= i32::MAX,
    ensures
        composited(seq![p]) == p.buffer,
{
    let ps = seq![p];
    let b = p.buffer;
    let ts = b.width * 4;
    let c = composited(ps);
    assert(ps[0] == p);
    assert(min_left(ps, 0) == i32::MAX);
    assert(min_top(ps, 0) == i32::MAX);
    assert(max_right(ps, 0) == i32::MIN);
    assert(max_bottom(ps, 0) == i32::MIN);
    assert(min_left(ps, 1) == p.x);
    assert(min_top(ps, 1) == p.y);
    assert(max_right(ps, 1) == p.x + b.width);
    assert(max_bottom(ps, 1) == p.y + b.height);
    assert(canvas_width(ps) == b.width);
    assert(canvas_height(ps) == b.height);
    assert forall|i: int| 0 <= i < c.data.len() implies c.data[i] == b.data[i] by {
        let cy = i / ts;
        let col = i % ts;
        let cx = col / 4;
        let k = col % 4;
        vstd::arithmetic::div_mod::lemma_fundamental_div_mod(i, ts);
        vstd::arithmetic::div_mod::lemma_fundamental_div_mod(col, 4);
        vstd::arithmetic::div_mod::lemma_mod_bound(i, ts);
        vstd::arithmetic::div_mod::lemma_mod_bound(col, 4);
        vstd::arithmetic::div_mod::lemma_div_pos_is_pos(i, ts);
        vstd::arithmetic::div_mod::lemma_div_pos_is_pos(col, 4);
        assert(cy < b.height) by (nonlinear_arith)
            requires i == ts * cy + col, 0 <= col, i < ts * b.height, ts > 0;
        assert(cx < b.width) by (nonlinear_arith)
            requires col == 4 * cx + k, 0 <= k, col < ts, ts == b.width * 4;
        assert(cy * b.stride + b.width * 4 <= b.data.len()) by (nonlinear_arith)
            requires cy < b.height, b.stride == b.width * 4, b.data.len() == b.stride * b.height, cy >= 0;
        assert(paints(ps, 0, cx, cy));
        assert(top_painter(ps, 1, cx, cy) == Some(0int));
        assert(cy * b.stride + cx * 4 + k == i);
    }
    assert(c.data =~= b.data);
}

/// Paste the captured outputs onto one canvas at their global positions.
pub fn composite_outputs(items: Vec<PlacedCapture>) -> (res: Result<CaptureBuffer, WlsnipError>)
    requires
        composite_fits(placed_views(items@)),
    ensures
        items@.len() == 0 ==> (res matches Err(e) && exists|m: String| e == WlsnipError::Capture(m)
            && m@ == "Failed to capture any outputs"@),
        items@.len() > 0 ==> (res matches Ok(b) && b@ == composited(placed_views(items@))),
{
    let ghost ps = placed_views(items@);
    let n = items.len();
    if n == 0 {
        return Err(WlsnipError::Capture(String::from_str("Failed to capture any outputs")));
    }
    let mut min_x: i32 = i32::MAX;
    let mut min_y: i32 = i32::MAX;
    let mut max_x: i32 = i32::MIN;
    let mut max_y: i32 = i32::MIN;
    let mut j: usize = 0;
    while j < n
        invariant
            j <= n,
            n == items@.len(),
            ps == placed_views(items@),
            composite_fits(ps),
            min_x == min_left(ps, j as int),
            min_y == min_top(ps, j as int),
            max_x == max_right(ps, j as int),
            max_y == max_bottom(ps, j as int),
        decreases n - j,
    {
        let p = &items[j];
        assert(ps[j as int] == p@);
        let right = p.x + (p.buffer.width as i32);
        let bottom = p.y + (p.buffer.height as i32);
        if p.x < min_x {
            min_x = p.x;
        }
        if p.y < min_y {
            min_y = p.y;
        }
        if right > max_x {
            max_x = right;
        }
        if bottom > max_y {
            max_y = bottom;
        }
        j += 1;
    }
    proof {
        lemma_extremes_in_range(ps, n as int);
        lemma_bounds(ps, 0, n as int);
    }
    let total_width: u32 = if max_x - min_x > 0 { (max_x - min_x) as u32 } else { 0 };
    let total_height: u32 = if max_y - min_y > 0 { (max_y - min_y) as u32 } else { 0 };
    let format = items[0].buffer.format;
    let total_stride = total_width * 4;
    let ghost ts = total_stride as int;
    assert(total_stride * total_height <= u32::MAX);
    let mut data: Vec<u8> = Vec::with_capacity((total_stride * total_height) as usize);
    let mut cy: u32 = 0;
    while cy < total_height
        invariant
            n == items@.len(),
            n > 0,
            ps == placed_views(items@),
            composite_fits(ps),
            min_x == min_left(ps, n as int),
            min_y == min_top(ps, n as int),
            total_width == canvas_width(ps),
            total_height == canvas_height(ps),
            ts == total_stride,
            total_stride == total_width * 4,
            cy <= total_height,
            data@.len() == cy * ts,
            forall|i: int| 0 <= i < cy * ts ==> data@[i] == #[trigger] composited(ps).data[i],
        decreases total_height - cy,
    {
        let mut cx: u32 = 0;
        while cx < total_width
            invariant
                n == items@.len(),
                n > 0,
                ps == placed_views(items@),
                composite_fits(ps),
                min_x == min_left(ps, n as int),
                min_y == min_top(ps, n as int),
                total_width == canvas_width(ps),
                total_height == canvas_height(ps),
                ts == total_stride,
                total_stride == total_width * 4,
                cy < total_height,
                cx <= total_width,
                data@.len() == cy * ts + cx * 4,
                forall|i: int| 0 <= i < cy * ts + cx * 4 ==> data@[i] == #[trigger] composited(ps).data[i],
            decreases total_width - cx,
        {
            // The last output that paints this pixel, searched from the end.
            let mut owner: Option<usize> = None;
            let mut q: usize = n;
            while q > 0 && owner.is_none()
                invariant
                    q <= n,
                    n == items@.len(),
                    ps == placed_views(items@),
                    composite_fits(ps),
                    min_x == min_left(ps, n as int),
                    min_y == min_top(ps, n as int),
                    owner is None ==> top_painter(ps, n as int, cx as int, cy as int) == top_painter(ps, q as int, cx as int, cy as int),
                    owner matches Some(o) ==> top_painter(ps, n as int, cx as int, cy as int) == Some(o as int) && o < n,
                decreases q,
            {
                let p = &items[q - 1];
                assert(ps[q - 1] == p@);
                proof {
                    lemma_bounds(ps, q - 1, n as int);
                }
                let ox = (p.x - min_x) as u32;
                let oy = (p.y - min_y) as u32;
                let inside = ox <= cx && cx < ox + p.buffer.width && oy <= cy && cy < oy + p.buffer.height;
                let mut row_ok = false;
                if inside {
                    proof {
                        vstd::arithmetic::mul::lemma_mul_inequality((cy - oy) as int, (p.buffer.height - 1) as int, p.buffer.stride as int);
                    }
                    let row_end = ((cy - oy) as u64) * (p.buffer.stride as u64) + (p.buffer.width as u64) * 4;
                    row_ok = row_end <= p.buffer.data.len() as u64;
                }
                if inside && row_ok {
                    owner = Some(q - 1);
                }
                q -= 1;
            }
            let mut k: u32 = 0;
            while k < 4
                invariant
                    k <= 4,
                    n == items@.len(),
                    ps == placed_views(items@),
                    composite_fits(ps),
                    min_x == min_left(ps, n as int),
                    min_y == min_top(ps, n as int),
                    total_width == canvas_width(ps),
                    total_height == canvas_height(ps),
                    ts == total_stride,
                    total_stride == total_width * 4,
                    cy < total_height,
                    cx < total_width,
                    owner is None ==> top_painter(ps, n as int, cx as int, cy as int) is None,
                    owner matches Some(o) ==> top_painter(ps, n as int, cx as int, cy as int) == Some(o as int) && o < n,
                    data@.len() == cy * ts + cx * 4 + k,
                    forall|i: int| 0 <= i < cy * ts + cx * 4 + k ==> data@[i] == #[trigger] composited(ps).data[i],
                decreases 4 - k,
            {
                proof {
                    crate::buffers::lemma_split_index(cy * ts + cx * 4 + k, ts, cy as int, cx * 4 + k);
                    vstd::arithmetic::mul::lemma_mul_inequality(cy as int + 1, total_height as int, ts);
                    assert((cy + 1) * ts == cy * ts + ts) by (nonlinear_arith);
                    assert(total_height * ts == ts * total_height) by (nonlinear_arith);
                }
                let v: u8 = match owner {
                    Some(o) => {
                        let p = &items[o];
                        assert(ps[o as int] == p@);
                        proof {
                            lemma_top_painter(ps, n as int, cx as int, cy as int);
                            lemma_bounds(ps, o as int, n as int);
                            vstd::arithmetic::mul::lemma_mul_inequality((cy - (p.y - min_y)) as int, (p.buffer.height - 1) as int, p.buffer.stride as int);
                        }
                        assert(p.buffer.data@.len() == p.buffer.data.len());
                        assert(paints(ps, o as int, cx as int, cy as int));
                        let ox = (p.x - min_x) as usize;
                        let oy = (p.y - min_y) as usize;
                        assert(cy - oy < p.buffer.height);
                        assert(cx - ox < p.buffer.width);
                        let idx = (cy as usize - oy) * (p.buffer.stride as usize) + (cx as usize - ox) * 4 + k as usize;
                        p.buffer.data[idx]
                    },
                    None => 0u8,
                };
                data.push(v);
                k += 1;
            }
            cx += 1;
        }
        assert((cy + 1) * ts == cy * ts + ts) by (nonlinear_arith);
        cy += 1;
    }
    proof {
        assert(cy * ts == ts * total_height) by (nonlinear_arith)
            requires cy == total_height;
    }
    assert(data@ =~= composited(ps).data);
    Ok(CaptureBuffer {
        width: total_width,
        height: total_height,
        stride: total_stride,
        format,
        data,
    })
}

/// The conditions `composite_fits` puts on one output.
pub open spec fn output_fits(p: PlacedView) -> bool {
    &&& p.x + p.buffer.width <= i32::MAX
    &&& p.y + p.buffer.height <= i32::MAX
    &&& p.buffer.width <= i32::MAX
    &&& p.buffer.height <= i32::MAX
    &&& p.buffer.width * 4 <= u32::MAX
    &&& p.buffer.height > 0 ==> (p.buffer.height - 1) * p.buffer.stride <= u32::MAX
}

/// Whether the captured outputs can be composited without overflow.
pub fn can_composite(items: &Vec<PlacedCapture>) -> (ok: bool)
    ensures
        ok == composite_fits(placed_views(items@)),
{
    let ghost ps = placed_views(items@);
    let n = items.len();
    let mut min_x: i64 = 0x7FFF_FFFF;
    let mut min_y: i64 = 0x7FFF_FFFF;
    let mut max_x: i64 = -0x8000_0000;
    let mut max_y: i64 = -0x8000_0000;
    let mut j: usize = 0;
    while j < n
        invariant
            j <= n,
            n == items@.len(),
            ps == placed_views(items@),
            min_x == min_left(ps, j as int),
            min_y == min_top(ps, j as int),
            max_x == max_right(ps, j as int),
            max_y == max_bottom(ps, j as int),
            i32::MIN <= min_x <= i32::MAX,
            i32::MIN <= min_y <= i32::MAX,
            i32::MIN <= max_x <= i32::MAX,
            i32::MIN <= max_y <= i32::MAX,
            forall|k: int| 0 <= k < j ==> output_fits(#[trigger] ps[k]),
        decreases n - j,
    {
        let p = &items[j];
        assert(ps[j as int] == p@);
        let x = p.x as i64;
        let y = p.y as i64;
        let w = p.buffer.width as i64;
        let h = p.buffer.height as i64;
        let stride = p.buffer.stride as i64;
        let mut fits = x + w <= 0x7FFF_FFFF && y + h <= 0x7FFF_FFFF && w <= 0x7FFF_FFFF && h <= 0x7FFF_FFFF
            && w * 4 <= 0xFFFF_FFFF;
        if fits && h > 0 {
            assert((h - 1) * stride <= 0xFFFF_FFFFi64 * 0xFFFF_FFFFi64) by (nonlinear_arith)
                requires 0 <= h - 1 <= 0xFFFF_FFFFi64, 0 <= stride <= 0xFFFF_FFFFi64;
            assert((h - 1) * stride <= 0x7FFF_FFFFi64 * 0xFFFF_FFFFi64) by (nonlinear_arith)
                requires 0 <= h - 1 <= 0x7FFF_FFFFi64, 0 <= stride <= 0xFFFF_FFFFi64;
            fits = (h - 1) * stride <= 0xFFFF_FFFF;
        }
        if !fits {
            assert(!output_fits(ps[j as int]));
            return false;
        }
        if x < min_x {
            min_x = x;
        }
        if y < min_y {
            min_y = y;
        }
        if x + w > max_x {
            max_x = x + w;
        }
        if y + h > max_y {
            max_y = y + h;
        }
        j += 1;
    }
    assert(forall|k: int| #![trigger ps[k]] 0 <= k < ps.len() ==> output_fits(ps[k]));
    let cw = max_x - min_x;
    let ch = max_y - min_y;
    if cw > 0x7FFF_FFFF || ch > 0x7FFF_FFFF {
        return false;
    }
    let tw = if cw < 0 { 0 } else { cw };
    let th = if ch < 0 { 0 } else { ch };
    assert(tw == canvas_width(ps));
    assert(th == canvas_height(ps));
    if tw * 4 > 0xFFFF_FFFF {
        return false;
    }
    assert(tw * 4 * th <= 0xFFFF_FFFFi64 * 0x7FFF_FFFFi64) by (nonlinear_arith)
        requires 0 <= tw * 4 <= 0xFFFF_FFFFi64, 0 <= th <= 0x7FFF_FFFFi64;
    tw * 4 * th <= 0xFFFF_FFFF
}

} // verus!
