use vstd::prelude::*;
use crate::buffers::{BufferView, CaptureBuffer};
use crate::error::WlsnipError;
use crate::utils::text;
use crate::utils::text::{chars_of, i64_to_decimal, parse_i32_range};

verus! {

/// Sum of the widths of the first `n` buffers.
pub open spec fn sum_widths(bs: Seq<BufferView>, n: int) -> int
    decreases n,
{
    if n <= 0 { 0 } else { sum_widths(bs, n - 1) + bs[n - 1].width }
}

/// Largest height among the first `n` buffers (0 for none).
pub open spec fn max_height(bs: Seq<BufferView>, n: int) -> int
    decreases n,
{
    if n <= 0 {
        0
    } else if max_height(bs, n - 1) >= bs[n - 1].height {
        max_height(bs, n - 1)
    } else {
        bs[n - 1].height as int
    }
}

/// The bytes that buffer `b` contributes to output row `y`: its own row `y`
/// (`4 * width` bytes), or zeros below its last row.
pub open spec fn segment(b: BufferView, y: int) -> Seq<u8> {
    Seq::new((b.width * 4) as nat, |c: int| if y < b.height { b.data[y * b.stride + c] } else { 0u8 })
}

/// Output row `y` made of the segments of the first `n` buffers, left to right.
pub open spec fn stitched_row(bs: Seq<BufferView>, y: int, n: int) -> Seq<u8>
    decreases n,
{
    if n <= 0 { Seq::empty() } else { stitched_row(bs, y, n - 1) + segment(bs[n - 1], y) }
}

/// The first `y` output rows, top to bottom.
pub open spec fn stitched_rows(bs: Seq<BufferView>, y: int) -> Seq<u8>
    decreases y,
{
    if y <= 0 { Seq::empty() } else { stitched_rows(bs, y - 1) + stitched_row(bs, y - 1, bs.len() as int) }
}

/// The buffers placed side by side, left to right, top-aligned, on a
/// transparent canvas as wide as all of them and as high as the tallest,
/// packed with stride `4 * width`, in the format of the first buffer.
pub open spec fn stitched(bs: Seq<BufferView>) -> BufferView {
    let tw = sum_widths(bs, bs.len() as int);
    let mh = max_height(bs, bs.len() as int);
    BufferView {
        width: tw as u32,
        height: mh as u32,
        stride: (tw * 4) as u32,
        format: bs[0].format,
        data: stitched_rows(bs, mh),
    }
}

/// The inputs on which stitching runs without overflow or out-of-range
/// reads: the total width and the canvas size fit in `u32`, and every row of
/// every buffer lies inside its data, at an offset that fits in `u32`.
pub open spec fn stitch_fits(bs: Seq<BufferView>) -> bool {
    let tw = sum_widths(bs, bs.len() as int);
    let mh = max_height(bs, bs.len() as int);
    &&& tw * 4 <= u32::MAX
    &&& tw * mh * 4 <= u32::MAX
    &&& forall|j: int| 0 <= j < bs.len() && #[trigger] bs[j].height > 0 ==> {
        &&& (bs[j].height - 1) * bs[j].stride <= u32::MAX
        &&& (bs[j].height - 1) * bs[j].stride + bs[j].width * 4 <= bs[j].data.len()
    }
}

pub open spec fn views(buffers: Seq<CaptureBuffer>) -> Seq<BufferView> {
    buffers.map_values(|b: CaptureBuffer| b@)
}

proof fn lemma_sum_widths_nonneg(bs: Seq<BufferView>, n: int)
    ensures
        sum_widths(bs, n) >= 0,
    decreases n,
{
    if n > 0 {
        lemma_sum_widths_nonneg(bs, n - 1);
    }
}

proof fn lemma_sum_widths_mono(bs: Seq<BufferView>, i: int, n: int)
    requires
        0 <= i <= n,
    ensures
        0 <= sum_widths(bs, i) <= sum_widths(bs, n),
        i < n ==> sum_widths(bs, i) + bs[i].width <= sum_widths(bs, n),
    decreases n,
{
    lemma_sum_widths_nonneg(bs, i);
    if i < n {
        lemma_sum_widths_mono(bs, i, n - 1);
    }
}

proof fn lemma_max_height_bound(bs: Seq<BufferView>, j: int, n: int)
    requires
        0 <= j < n,
    ensures
        bs[j].height <= max_height(bs, n),
    decreases n,
{
    if j < n - 1 {
        lemma_max_height_bound(bs, j, n - 1);
    }
}

proof fn lemma_row_len(bs: Seq<BufferView>, y: int, n: int)
    requires
        0 <= n <= bs.len(),
    ensures
        stitched_row(bs, y, n).len() == sum_widths(bs, n) * 4,
    decreases n,
{
    if n > 0 {
        lemma_row_len(bs, y, n - 1);
    }
}

proof fn lemma_rows_len(bs: Seq<BufferView>, m: int)
    requires
        m >= 0,
    ensures
        stitched_rows(bs, m).len() == m * (sum_widths(bs, bs.len() as int) * 4),
    decreases m,
{
    let t = sum_widths(bs, bs.len() as int) * 4;
    if m == 0 {
        assert(m * t == 0) by (nonlinear_arith)
            requires m == 0;
    } else {
        lemma_rows_len(bs, m - 1);
        lemma_row_len(bs, m - 1, bs.len() as int);
        assert(m * t == (m - 1) * t + t) by (nonlinear_arith);
    }
}

proof fn lemma_rows_index(bs: Seq<BufferView>, m: int, y: int, c: int)
    requires
        0 <= y < m,
        0 <= c < sum_widths(bs, bs.len() as int) * 4,
    ensures
        stitched_rows(bs, m)[y * (sum_widths(bs, bs.len() as int) * 4) + c] == stitched_row(bs, y, bs.len() as int)[c],
    decreases m,
{
    let t = sum_widths(bs, bs.len() as int) * 4;
    lemma_rows_len(bs, m - 1);
    lemma_rows_len(bs, m);
    lemma_row_len(bs, m - 1, bs.len() as int);
    assert(y * t + c < m * t) by (nonlinear_arith)
        requires y < m, 0 <= c < t;
    if y == m - 1 {
        assert(y * t == (m - 1) * t);
    }
    if y < m - 1 {
        lemma_rows_index(bs, m - 1, y, c);
        assert(y * t + c < (m - 1) * t) by (nonlinear_arith)
            requires y < m - 1, 0 <= c < t;
    }
}

proof fn lemma_row_index(bs: Seq<BufferView>, y: int, n: int, j: int, c: int)
    requires
        0 <= j < n <= bs.len(),
        0 <= c < bs[j].width * 4,
    ensures
        stitched_row(bs, y, n)[sum_widths(bs, j) * 4 + c] == segment(bs[j], y)[c],
    decreases n,
{
    lemma_row_len(bs, y, n - 1);
    if j < n - 1 {
        lemma_sum_widths_mono(bs, j, n - 1);
        lemma_row_index(bs, y, n - 1, j, c);
    }
}

/// Stitching places buffer `j` at the column offset given by the widths of
/// the buffers before it: byte `c` of its row `y` is byte `c` of that row's
/// segment in the stitched image (its own pixel, or zero below its last row).
pub proof fn stitched_places_each_buffer(bs: Seq<BufferView>, j: int, y: int, c: int)
    requires
        0 <= j < bs.len(),
        0 <= y < max_height(bs, bs.len() as int),
        0 <= c < bs[j].width * 4,
    ensures
        ({
            let t = sum_widths(bs, bs.len() as int) * 4;
            stitched(bs).data[y * t + sum_widths(bs, j) * 4 + c]
                == if y < bs[j].height { bs[j].data[y * bs[j].stride + c] } else { 0u8 }
        }),
{
    lemma_sum_widths_mono(bs, j, bs.len() as int);
    lemma_rows_index(bs, max_height(bs, bs.len() as int), y, sum_widths(bs, j) * 4 + c);
    lemma_row_index(bs, y, bs.len() as int, j, c);
}

/// Place buffers side by side, left to right, into one image.
pub fn stitch_buffers_horizontally(buffers: Vec<CaptureBuffer>) -> (res: Result<CaptureBuffer, WlsnipError>)
    requires
        buffers@.len() >= 2 ==> stitch_fits(views(buffers@)),
    ensures
        buffers@.len() == 0 ==> (res matches Err(e) && exists|m: String| e == WlsnipError::Capture(m)
            && m@ == "No buffers to stitch"@),
        buffers@.len() == 1 ==> (res matches Ok(b) && b@ == buffers@[0]@),
        buffers@.len() >= 2 ==> (res matches Ok(b) && b@ == stitched(views(buffers@))),
{
    let ghost bs = views(buffers@);
    let n = buffers.len();
    if n == 0 {
        return Err(WlsnipError::Capture(String::from_str("No buffers to stitch")));
    }
    if n == 1 {
        let mut buffers = buffers;
        let b = buffers.pop().unwrap();
        return Ok(b);
    }
    let mut total_width: u32 = 0;
    let mut max_h: u32 = 0;
    let mut j: usize = 0;
    while j < n
        invariant
            j <= n,
            n == buffers@.len(),
            bs == views(buffers@),
            stitch_fits(bs),
            total_width == sum_widths(bs, j as int),
            max_h == max_height(bs, j as int),
        decreases n - j,
    {
        proof {
            lemma_sum_widths_mono(bs, j as int, n as int);
            lemma_max_height_bound(bs, j as int, n as int);
        }
        assert(bs[j as int] == buffers[j as int]@);
        total_width = total_width + buffers[j].width;
        if buffers[j].height > max_h {
            max_h = buffers[j].height;
        }
        j += 1;
    }
    let format = buffers[0].format;
    let ghost row_len = total_width * 4;
    assert(total_width * max_h * 4 <= u32::MAX);
    assert(total_width * 4 * max_h == total_width * max_h * 4) by (nonlinear_arith);
    let mut stitched_data: Vec<u8> = Vec::with_capacity((total_width * max_h * 4) as usize);
    let mut y: u32 = 0;
    while y < max_h
        invariant
            y <= max_h,
            n == buffers@.len(),
            n >= 2,
            bs == views(buffers@),
            stitch_fits(bs),
            total_width == sum_widths(bs, n as int),
            max_h == max_height(bs, n as int),
            stitched_data@ == stitched_rows(bs, y as int),
        decreases max_h - y,
    {
        let mut j: usize = 0;
        while j < n
            invariant
                j <= n,
                y < max_h,
                n == buffers@.len(),
                bs == views(buffers@),
                stitch_fits(bs),
                total_width == sum_widths(bs, n as int),
                max_h == max_height(bs, n as int),
                stitched_data@ == stitched_rows(bs, y as int) + stitched_row(bs, y as int, j as int),
            decreases n - j,
        {
            let b = &buffers[j];
            let ghost bv = bs[j as int];
            assert(bv == b@);
            proof {
                lemma_sum_widths_mono(bs, j as int, n as int);
                assert(total_width * 4 <= total_width * max_h * 4) by (nonlinear_arith)
                    requires max_h >= 1;
            }
            assert(b.width <= total_width);
            assert(b.width * 4 <= total_width * 4);
            let row_bytes = (b.width * 4) as usize;
            let ghost before = stitched_data@;
            let mut c: usize = 0;
            if y < b.height {
                proof {
                    vstd::arithmetic::mul::lemma_mul_inequality(y as int, (b.height - 1) as int, b.stride as int);
                    assert(buffers@[j as int]@.height > 0);
                    assert(b.data@.len() == b.data.len());
                }
                let src_start = (y * b.stride) as usize;
                while c < row_bytes
                    invariant
                        c <= row_bytes,
                        row_bytes == bv.width * 4,
                        y < bv.height,
                        bv == b@,
                        src_start == y * bv.stride,
                        src_start + row_bytes <= b.data.len(),
                        stitched_data@ == before + segment(bv, y as int).take(c as int),
                    decreases row_bytes - c,
                {
                    stitched_data.push(b.data[src_start + c]);
                    c += 1;
                    assert(segment(bv, y as int).take(c as int) =~= segment(bv, y as int).take(c - 1).push(b.data@[src_start + c - 1]));
                }
            } else {
                while c < row_bytes
                    invariant
                        c <= row_bytes,
                        row_bytes == bv.width * 4,
                        y >= bv.height,
                        stitched_data@ == before + segment(bv, y as int).take(c as int),
                    decreases row_bytes - c,
                {
                    stitched_data.push(0u8);
                    c += 1;
                    assert(segment(bv, y as int).take(c as int) =~= segment(bv, y as int).take(c - 1).push(0u8));
                }
            }
            assert(segment(bv, y as int).take(c as int) =~= segment(bv, y as int));
            assert(stitched_data@ =~= stitched_rows(bs, y as int) + stitched_row(bs, y as int, j + 1));
            j += 1;
        }
        assert(stitched_data@ =~= stitched_rows(bs, y + 1));
        y += 1;
    }
    Ok(CaptureBuffer {
        data: stitched_data,
        width: total_width,
        height: max_h,
        stride: total_width * 4,
        format,
    })
}


// ── Workspace lists ────────────────────────────────────────────────────────

/// Insert `x` into a list sorted by key, after every element whose key is
/// not greater (so that equal keys keep their order).
pub open spec fn sorted_insert(s: Seq<(i32, i64)>, x: (i32, i64)) -> Seq<(i32, i64)>
    decreases s.len(),
{
    if s.len() == 0 {
        seq![x]
    } else if s.last().0 <= x.0 {
        s.push(x)
    } else {
        sorted_insert(s.drop_last(), x).push(s.last())
    }
}

/// Stable sort by key (the first component), as `slice::sort_by_key` does.
pub open spec fn stable_sort_by_key(s: Seq<(i32, i64)>) -> Seq<(i32, i64)>
    decreases s.len(),
{
    if s.len() == 0 {
        Seq::empty()
    } else {
        sorted_insert(stable_sort_by_key(s.drop_last()), s.last())
    }
}

/// The keys never decrease along the sequence.
pub open spec fn sorted_by_key(s: Seq<(i32, i64)>) -> bool {
    forall|i: int, j: int| 0 <= i < j < s.len() ==> s[i].0 <= s[j].0
}

proof fn lemma_sorted_insert(s: Seq<(i32, i64)>, x: (i32, i64))
    requires
        sorted_by_key(s),
    ensures
        sorted_by_key(sorted_insert(s, x)),
        sorted_insert(s, x).to_multiset() == s.to_multiset().insert(x),
        forall|k: int| 0 <= k < sorted_insert(s, x).len() ==> #[trigger] sorted_insert(s, x)[k] == x
            || s.contains(sorted_insert(s, x)[k]),
    decreases s.len(),
{
    broadcast use vstd::seq_lib::group_to_multiset_ensures;
    if s.len() == 0 {
        assert(seq![x] == Seq::<(i32, i64)>::empty().push(x));
    } else if s.last().0 <= x.0 {
        let r = s.push(x);
        assert forall|k: int| 0 <= k < r.len() implies #[trigger] r[k] == x || s.contains(r[k]) by {
            if k < s.len() {
                assert(r[k] == s[k]);
            }
        }
    } else {
        let d = s.drop_last();
        assert(sorted_by_key(d));
        lemma_sorted_insert(d, x);
        let r0 = sorted_insert(d, x);
        let r = r0.push(s.last());
        assert forall|k: int| 0 <= k < r0.len() implies #[trigger] r0[k].0 <= s.last().0 by {
            if r0[k] != x {
                let m = choose|m: int| 0 <= m < d.len() && d[m] == r0[k];
                assert(d[m] == s[m]);
            }
        }
        assert forall|k: int| 0 <= k < r.len() implies #[trigger] r[k] == x || s.contains(r[k]) by {
            if k < r0.len() {
                assert(r[k] == r0[k]);
                if r0[k] != x {
                    let m = choose|m: int| 0 <= m < d.len() && d[m] == r0[k];
                    assert(s[m] == r0[k]);
                }
            } else {
                assert(r[k] == s[s.len() - 1]);
            }
        }
        assert(d.push(s.last()) =~= s);
        assert(r.to_multiset() =~= s.to_multiset().insert(x));
    }
}

/// Sorting by key orders the pairs by key and keeps each of them, as many
/// times as it occurs.
pub proof fn stable_sort_sorts(s: Seq<(i32, i64)>)
    ensures
        sorted_by_key(stable_sort_by_key(s)),
        stable_sort_by_key(s).to_multiset() == s.to_multiset(),
    decreases s.len(),
{
    broadcast use vstd::seq_lib::group_to_multiset_ensures;
    if s.len() == 0 {
        assert(stable_sort_by_key(s).to_multiset() =~= s.to_multiset());
    } else {
        stable_sort_sorts(s.drop_last());
        lemma_sorted_insert(stable_sort_by_key(s.drop_last()), s.last());
        assert(s.drop_last().push(s.last()) =~= s);
    }
}

/// The pairs of key `k`.
pub open spec fn has_key(k: i32) -> spec_fn((i32, i64)) -> bool {
    |p: (i32, i64)| p.0 == k
}

proof fn lemma_sorted_insert_keeps_ties(s: Seq<(i32, i64)>, x: (i32, i64), k: i32)
    requires
        sorted_by_key(s),
    ensures
        sorted_insert(s, x).filter(has_key(k)) == (if x.0 == k {
            s.filter(has_key(k)).push(x)
        } else {
            s.filter(has_key(k))
        }),
    decreases s.len(),
{
    reveal_with_fuel(Seq::filter, 1);
    if s.len() == 0 {
        assert(seq![x].drop_last() =~= s);
    } else if s.last().0 <= x.0 {
        assert(s.push(x).drop_last() =~= s);
    } else {
        let d = s.drop_last();
        assert(sorted_by_key(d));
        lemma_sorted_insert_keeps_ties(d, x, k);
        let r = sorted_insert(d, x);
        assert(r.push(s.last()).drop_last() =~= r);
        assert(d.push(s.last()) =~= s);
    }
}

/// Sorting by key keeps the pairs of equal keys in their order: the pairs
/// of any one key come out as they came in.
pub proof fn stable_sort_keeps_ties(s: Seq<(i32, i64)>, k: i32)
    ensures
        stable_sort_by_key(s).filter(has_key(k)) == s.filter(has_key(k)),
    decreases s.len(),
{
    reveal_with_fuel(Seq::filter, 1);
    if s.len() > 0 {
        stable_sort_keeps_ties(s.drop_last(), k);
        stable_sort_sorts(s.drop_last());
        lemma_sorted_insert_keeps_ties(stable_sort_by_key(s.drop_last()), s.last(), k);
    }
}

/// Sort key of a Hyprland workspace id: its decimal text read back as an
/// `i32`, or 0 when that fails.
pub open spec fn workspace_key(id: i64) -> i32 {
    match text::parse_i32_spec(text::signed_decimal(id as int)) {
        Some(v) => v,
        None => 0,
    }
}

/// Hyprland workspaces: the ids as decimal text, ordered by their value as
/// an `i32` (ids beyond the `i32` range sort as 0), ties kept in IPC order.
pub open spec fn hyprland_order(ids: Seq<i64>) -> Seq<Seq<char>> {
    stable_sort_by_key(ids.map_values(|id: i64| (workspace_key(id), id))).map_values(
        |p: (i32, i64)| text::signed_decimal(p.1 as int),
    )
}

/// A workspace id sorts by its own value when it fits in an `i32`, and as 0
/// otherwise.
pub proof fn workspace_key_value(id: i64)
    ensures
        i32::MIN <= id <= i32::MAX ==> workspace_key(id) == id,
        (id < i32::MIN || id > i32::MAX) ==> workspace_key(id) == 0,
{
    if i32::MIN <= id <= i32::MAX {
        text::parse_i32_of_decimal(id as i32);
    } else {
        text::parse_i32_of_wide_decimal(id as int);
    }
}

proof fn lemma_sorted_insert_at(s: Seq<(i32, i64)>, x: (i32, i64), j: int)
    requires
        0 <= j <= s.len(),
        forall|m: int| j <= m < s.len() ==> #[trigger] s[m].0 > x.0,
        j == 0 || s[j - 1].0 <= x.0,
    ensures
        sorted_insert(s, x) == s.take(j).push(x) + s.skip(j),
    decreases s.len(),
{
    if s.len() == 0 {
        assert(s.take(j).push(x) + s.skip(j) =~= seq![x]);
    } else if j == s.len() {
        assert(s.take(j) =~= s);
        assert(s.take(j).push(x) + s.skip(j) =~= s.push(x));
    } else {
        let t = s.drop_last();
        assert forall|m: int| j <= m < t.len() implies #[trigger] t[m].0 > x.0 by {
            assert(t[m] == s[m]);
        }
        if j > 0 {
            assert(t[j - 1] == s[j - 1]);
        }
        lemma_sorted_insert_at(t, x, j);
        assert(t.take(j) =~= s.take(j));
        assert((t.take(j).push(x) + t.skip(j)).push(s.last()) =~= s.take(j).push(x) + s.skip(j));
    }
}

/// The workspace key of `id`, computed as it is defined: the id formatted
/// in decimal, then read back as an `i32`.
fn key_of(id: i64) -> (k: i32)
    ensures
        k == workspace_key(id),
{
    let t = chars_of(i64_to_decimal(id).as_str());
    assert(t@.subrange(0, t@.len() as int) =~= t@);
    match parse_i32_range(&t, 0, t.len()) {
        Some(v) => v,
        None => 0,
    }
}

/// The Hyprland workspaces to visit, in order.
pub fn hyprland_workspaces(ids: &Vec<i64>) -> (names: Vec<String>)
    ensures
        names@.map_values(|s: String| s@) == hyprland_order(ids@),
{
    let ghost keyed = ids@.map_values(|id: i64| (workspace_key(id), id));
    let mut sorted: Vec<(i32, i64)> = Vec::new();
    let mut i: usize = 0;
    while i < ids.len()
        invariant
            i <= ids@.len(),
            keyed == ids@.map_values(|id: i64| (workspace_key(id), id)),
            sorted@ == stable_sort_by_key(keyed.take(i as int)),
        decreases ids.len() - i,
    {
        let id = ids[i];
        let x = (key_of(id), id);
        assert(keyed[i as int] == x);
        assert(keyed.take(i + 1).drop_last() =~= keyed.take(i as int));
        let mut j: usize = sorted.len();
        while j > 0 && sorted[j - 1].0 > x.0
            invariant
                j <= sorted@.len(),
                forall|m: int| j <= m < sorted@.len() ==> #[trigger] sorted@[m].0 > x.0,
            decreases j,
        {
            j -= 1;
        }
        proof {
            lemma_sorted_insert_at(sorted@, x, j as int);
        }
        let ghost before = sorted@;
        sorted.insert(j, x);
        assert(sorted@ =~= before.take(j as int).push(x) + before.skip(j as int));
        i += 1;
    }
    assert(keyed.take(i as int) =~= keyed);
    let mut names: Vec<String> = Vec::new();
    let mut k: usize = 0;
    while k < sorted.len()
        invariant
            k <= sorted@.len(),
            names@.len() == k,
            forall|m: int| 0 <= m < k ==> #[trigger] names@[m]@ == text::signed_decimal(sorted@[m].1 as int),
        decreases sorted.len() - k,
    {
        names.push(i64_to_decimal(sorted[k].1));
        k += 1;
    }
    assert(names@.map_values(|s: String| s@) =~= hyprland_order(ids@));
    names
}

/// A MangoWC tag as `mmsg get all-tags` reports it (missing values already
/// replaced: no client count is 0, no index is 1).
#[derive(Debug, Clone, Copy, PartialEq, Eq, Structural)]
pub struct MangoTag {
    pub client_count: i64,
    pub index: i64,
    pub is_active: bool,
}

/// MangoWC workspaces: the indices of the tags that hold clients, in order,
/// or just "1" when there are none.
pub open spec fn tag_occupied() -> spec_fn(MangoTag) -> bool {
    |t: MangoTag| t.client_count > 0
}

pub open spec fn tag_name() -> spec_fn(MangoTag) -> Seq<char> {
    |t: MangoTag| text::signed_decimal(t.index as int)
}

pub open spec fn mango_order(tags: Seq<MangoTag>) -> Seq<Seq<char>> {
    let occupied = tags.filter(tag_occupied()).map_values(tag_name());
    if occupied.len() == 0 { seq!["1"@] } else { occupied }
}

/// The MangoWC workspaces to visit, in order.
pub fn mango_workspaces(tags: &Vec<MangoTag>) -> (names: Vec<String>)
    ensures
        names@.map_values(|s: String| s@) == mango_order(tags@),
{
    let mut names: Vec<String> = Vec::new();
    let mut i: usize = 0;
    while i < tags.len()
        invariant
            i <= tags@.len(),
            names@.map_values(|s: String| s@) == tags@.take(i as int).filter(tag_occupied()).map_values(tag_name()),
        decreases tags.len() - i,
    {
        let ghost before = names@;
        let ghost f = tags@.take(i + 1);
        let ghost prev = tags@.take(i as int).filter(tag_occupied());
        assert(f.drop_last() =~= tags@.take(i as int));
        assert(f.last() == tags@[i as int]);
        reveal_with_fuel(Seq::filter, 1);
        if tags[i].client_count > 0 {
            assert(f.filter(tag_occupied()) == prev.push(tags@[i as int]));
            let t = i64_to_decimal(tags[i].index);
            assert(t@ == tag_name()(tags@[i as int]));
            names.push(t);
            assert(before.map_values(|s: String| s@) == prev.map_values(tag_name()));
            assert(before.map_values(|s: String| s@).len() == before.len());
            assert(prev.map_values(tag_name()).len() == prev.len());
            assert(before.len() == prev.len());
            assert forall|k: int| 0 <= k < names@.len() implies names@.map_values(|s: String| s@)[k]
                == prev.push(tags@[i as int]).map_values(tag_name())[k] by {
                if k < before.len() {
                    assert(names@[k] == before[k]);
                    assert(before.map_values(|s: String| s@)[k] == prev.map_values(tag_name())[k]);
                }
            }
            assert(names@.map_values(|s: String| s@) =~= prev.push(tags@[i as int]).map_values(tag_name()));
        } else {
            assert(f.filter(tag_occupied()) == prev);
        }
        i += 1;
    }
    assert(tags@.take(i as int) =~= tags@);
    if names.len() == 0 {
        names.push(String::from_str("1"));
        assert(names@.map_values(|s: String| s@) =~= seq!["1"@]);
    }
    names
}

/// A Sway workspace as `swaymsg -t get_workspaces` reports it.
#[derive(Debug, Clone)]
pub struct SwayWorkspace {
    pub focused: bool,
    pub name: Option<String>,
}

/// The current Hyprland workspace: the active workspace's id, 1 when absent.
pub fn hyprland_current_workspace(id: Option<i64>) -> (name: String)
    ensures
        name@ == text::signed_decimal(match id { Some(v) => v as int, None => 1 }),
{
    i64_to_decimal(match id { Some(v) => v, None => 1 })
}

/// The current Sway workspace: the name of the first focused workspace
/// ("1" when it has none), or "1" when none is focused.
pub fn sway_current_workspace(workspaces: &Vec<SwayWorkspace>) -> (name: String)
    ensures
        (exists|i: int| 0 <= i < workspaces@.len() && workspaces@[i].focused) ==> ({
            let i = choose|i: int| 0 <= i < workspaces@.len() && workspaces@[i].focused
                && forall|j: int| 0 <= j < i ==> !workspaces@[j].focused;
            name@ == match workspaces@[i].name { Some(n) => n@, None => "1"@ }
        }),
        (forall|i: int| 0 <= i < workspaces@.len() ==> !workspaces@[i].focused) ==> name@ == "1"@,
{
    let mut i: usize = 0;
    while i < workspaces.len()
        invariant
            i <= workspaces@.len(),
            forall|j: int| 0 <= j < i ==> !workspaces@[j].focused,
        decreases workspaces.len() - i,
    {
        if workspaces[i].focused {
            let ghost c = choose|c: int| 0 <= c < workspaces@.len() && workspaces@[c].focused
                && forall|j: int| 0 <= j < c ==> !workspaces@[j].focused;
            assert(c == i) by {
                if c < i {
                    assert(!workspaces@[c].focused);
                } else if c > i {
                    assert(!workspaces@[i as int].focused);
                }
            }
            return match &workspaces[i].name {
                Some(n) => n.clone(),
                None => String::from_str("1"),
            };
        }
        i += 1;
    }
    String::from_str("1")
}

/// The current MangoWC workspace: the index of the first active tag, or "1".
pub fn mango_current_workspace(tags: &Vec<MangoTag>) -> (name: String)
    ensures
        (exists|i: int| 0 <= i < tags@.len() && tags@[i].is_active) ==> ({
            let i = choose|i: int| 0 <= i < tags@.len() && tags@[i].is_active
                && forall|j: int| 0 <= j < i ==> !tags@[j].is_active;
            name@ == text::signed_decimal(tags@[i].index as int)
        }),
        (forall|i: int| 0 <= i < tags@.len() ==> !tags@[i].is_active) ==> name@ == "1"@,
{
    let mut i: usize = 0;
    while i < tags.len()
        invariant
            i <= tags@.len(),
            forall|j: int| 0 <= j < i ==> !tags@[j].is_active,
        decreases tags.len() - i,
    {
        if tags[i].is_active {
            let ghost c = choose|c: int| 0 <= c < tags@.len() && tags@[c].is_active
                && forall|j: int| 0 <= j < c ==> !tags@[j].is_active;
            assert(c == i) by {
                if c < i {
                    assert(!tags@[c].is_active);
                } else if c > i {
                    assert(!tags@[i as int].is_active);
                }
            }
            return i64_to_decimal(tags[i].index);
        }
        i += 1;
    }
    String::from_str("1")
}

// ── Stitching check ────────────────────────────────────────────────────────

/// Whether buffers can be stitched without overflow or out-of-range reads:
/// fewer than two always can (nothing is copied), more when `stitch_fits`.
pub fn can_stitch(buffers: &Vec<CaptureBuffer>) -> (ok: bool)
    ensures
        ok == (buffers@.len() >= 2 ==> stitch_fits(views(buffers@))),
{
    let ghost bs = views(buffers@);
    let n = buffers.len();
    if n < 2 {
        return true;
    }
    let mut tw: u64 = 0;
    let mut mh: u32 = 0;
    let mut j: usize = 0;
    while j < n
        invariant
            j <= n,
            n >= 2,
            n == buffers@.len(),
            bs == views(buffers@),
            tw == sum_widths(bs, j as int),
            mh == max_height(bs, j as int),
            tw * 4 <= u32::MAX,
            forall|k: int| 0 <= k < j && #[trigger] bs[k].height > 0 ==> {
                &&& (bs[k].height - 1) * bs[k].stride <= u32::MAX
                &&& (bs[k].height - 1) * bs[k].stride + bs[k].width * 4 <= bs[k].data.len()
            },
        decreases n - j,
    {
        let b = &buffers[j];
        assert(bs[j as int] == b@);
        let w = b.width as u64;
        if tw + w > 0x3FFF_FFFF {
            proof {
                assert(sum_widths(bs, j + 1) == tw + w);
                lemma_sum_widths_mono(bs, j + 1, n as int);
                assert(bs.len() == n);
            }
            return false;
        }
        if b.height > 0 {
            let h1 = (b.height - 1) as u64;
            let st = b.stride as u64;
            assert(h1 * st <= 0xFFFF_FFFFu64 * 0xFFFF_FFFFu64) by (nonlinear_arith)
                requires h1 <= 0xFFFF_FFFFu64, st <= 0xFFFF_FFFFu64;
            let off = h1 * st;
            if off > 0xFFFF_FFFF || off + w * 4 > b.data.len() as u64 {
                assert(bs[j as int].height > 0);
                return false;
            }
        }
        tw = tw + w;
        if b.height > mh {
            mh = b.height;
        }
        j += 1;
    }
    let t4 = tw * 4;
    assert(t4 * (mh as u64) <= 0xFFFF_FFFFu64 * 0xFFFF_FFFFu64) by (nonlinear_arith)
        requires t4 <= 0xFFFF_FFFFu64, mh <= 0xFFFF_FFFFu32;
    let ok = t4 * (mh as u64) <= 0xFFFF_FFFF;
    assert(tw * mh * 4 == t4 * mh) by (nonlinear_arith)
        requires t4 == tw * 4;
    ok
}

// ── Touring the workspaces ─────────────────────────────────────────────────

/// The compositors whose workspaces can be listed and switched.
#[derive(Debug, Clone, Copy, PartialEq, Eq, Structural)]
pub enum Compositor {
    Hyprland,
    Sway,
    MangoWm,
    Unknown,
}

/// Which compositor runs: Hyprland when its instance signature is set, else
/// Sway when its socket is set, else MangoWC when `mmsg` can be run (this is
/// asked only when neither variable is set).
pub fn detect_compositor(hyprland_signature: bool, sway_socket: bool, mmsg_runs: bool) -> (c: Compositor)
    ensures
        c == (if hyprland_signature {
            Compositor::Hyprland
        } else if sway_socket {
            Compositor::Sway
        } else if mmsg_runs {
            Compositor::MangoWm
        } else {
            Compositor::Unknown
        }),
{
    if hyprland_signature {
        Compositor::Hyprland
    } else if sway_socket {
        Compositor::Sway
    } else if mmsg_runs {
        Compositor::MangoWm
    } else {
        Compositor::Unknown
    }
}

/// Where a workspace tour stands.
#[derive(Debug, Clone, Copy, PartialEq, Eq, Structural)]
pub enum TourPhase {
    /// Switch to workspace `i` next.
    Visit(usize),
    /// Workspace `i` is shown: capture it.
    Shoot(usize),
    /// All workspaces were visited: switch back to the one the user was on.
    Restore,
    /// Back on the workspace the user was on.
    Done,
}

/// What the caller does next.
#[derive(Debug)]
pub enum TourAction {
    /// Switch to this workspace (then let the compositor render it).
    SwitchTo(String),
    /// Capture all outputs.
    Capture,
    /// Switch back to this workspace.
    Restore(String),
    /// The tour is over: stitch the captures.
    Finish,
}

/// What happened when the caller did it.
#[derive(Debug)]
pub enum TourEvent {
    /// The switch to the workspace worked or failed.
    Switched(bool),
    /// The capture, when it worked.
    Captured(Option<CaptureBuffer>),
    /// The switch back was made (whether it worked does not matter).
    Restored,
}

/// Capturing every workspace in turn: switch to each (in order), capture it
/// when the switch worked, keep the captures that worked, switch back to the
/// workspace the user was on, and stitch the captures side by side.
#[derive(Debug)]
pub struct WorkspaceTour {
    /// The workspace the user was on, to come back to.
    pub start: String,
    /// The workspaces to capture, in order.
    pub workspaces: Vec<String>,
    pub phase: TourPhase,
    /// The captures that worked, in the order of their workspaces.
    pub captures: Vec<CaptureBuffer>,
}

/// The phase after the workspaces before `j` were handled.
pub open spec fn phase_from(j: int, n: int) -> TourPhase {
    if j < n { TourPhase::Visit(j as usize) } else { TourPhase::Restore }
}

/// Steps left before the tour is over: two per workspace still to visit.
pub open spec fn steps_left(p: TourPhase, n: int) -> int {
    match p {
        TourPhase::Visit(i) => 2 * (n - i) + 1,
        TourPhase::Shoot(i) => 2 * (n - i),
        TourPhase::Restore => 1,
        TourPhase::Done => 0,
    }
}

/// The event answers the action of the phase.
pub open spec fn event_fits(p: TourPhase, e: TourEvent) -> bool {
    match (p, e) {
        (TourPhase::Visit(_), TourEvent::Switched(_)) => true,
        (TourPhase::Shoot(_), TourEvent::Captured(_)) => true,
        (TourPhase::Restore, TourEvent::Restored) => true,
        _ => false,
    }
}

impl WorkspaceTour {
    /// The phase names a workspace of the list.
    pub open spec fn well_formed(&self) -> bool {
        match self.phase {
            TourPhase::Visit(i) => i < self.workspaces@.len(),
            TourPhase::Shoot(i) => i < self.workspaces@.len(),
            _ => true,
        }
    }

    /// A tour of `workspaces`, starting from the workspace `start`.
    pub fn new(start: String, workspaces: Vec<String>) -> (t: Self)
        ensures
            t.well_formed(),
            t.start == start,
            t.workspaces == workspaces,
            t.phase == phase_from(0, workspaces@.len() as int),
            t.captures@.len() == 0,
    {
        let phase = if workspaces.len() > 0 { TourPhase::Visit(0) } else { TourPhase::Restore };
        WorkspaceTour { start, workspaces, phase, captures: Vec::new() }
    }

    /// The action of the current phase.
    pub fn action(&self) -> (a: TourAction)
        requires
            self.well_formed(),
        ensures
            match self.phase {
                TourPhase::Visit(i) => a matches TourAction::SwitchTo(w) && w@ == self.workspaces@[i as int]@,
                TourPhase::Shoot(_) => a is Capture,
                TourPhase::Restore => a matches TourAction::Restore(o) && o@ == self.start@,
                TourPhase::Done => a is Finish,
            },
    {
        match self.phase {
            TourPhase::Visit(i) => TourAction::SwitchTo(self.workspaces[i].clone()),
            TourPhase::Shoot(_) => TourAction::Capture,
            TourPhase::Restore => TourAction::Restore(self.start.clone()),
            TourPhase::Done => TourAction::Finish,
        }
    }

    /// Record what the action gave. A successful switch leads to a capture
    /// of that workspace, a failed one skips it; a capture is kept when it
    /// worked, and the tour goes on with the next workspace, then the switch
    /// back. An event that does not answer the current action changes
    /// nothing; one that does brings the tour one step closer to its end.
    pub fn record(&mut self, event: TourEvent)
        requires
            old(self).well_formed(),
        ensures
            final(self).well_formed(),
            final(self).start == old(self).start,
            final(self).workspaces == old(self).workspaces,
            ({
                let n = old(self).workspaces@.len() as int;
                match (old(self).phase, event) {
                    (TourPhase::Visit(i), TourEvent::Switched(ok)) => {
                        &&& final(self).phase == (if ok { TourPhase::Shoot(i) } else { phase_from(i + 1, n) })
                        &&& final(self).captures@ == old(self).captures@
                    },
                    (TourPhase::Shoot(i), TourEvent::Captured(c)) => {
                        &&& final(self).phase == phase_from(i + 1, n)
                        &&& final(self).captures@ == match c {
                            Some(b) => old(self).captures@.push(b),
                            None => old(self).captures@,
                        }
                    },
                    (TourPhase::Restore, TourEvent::Restored) => {
                        &&& final(self).phase == TourPhase::Done
                        &&& final(self).captures@ == old(self).captures@
                    },
                    _ => {
                        &&& final(self).phase == old(self).phase
                        &&& final(self).captures@ == old(self).captures@
                    },
                }
            }),
            event_fits(old(self).phase, event) ==> steps_left(final(self).phase, old(self).workspaces@.len() as int)
                < steps_left(old(self).phase, old(self).workspaces@.len() as int),
    {
        let n = self.workspaces.len();
        match (self.phase, event) {
            (TourPhase::Visit(i), TourEvent::Switched(ok)) => {
                self.phase = if ok {
                    TourPhase::Shoot(i)
                } else if i + 1 < n {
                    TourPhase::Visit(i + 1)
                } else {
                    TourPhase::Restore
                };
            },
            (TourPhase::Shoot(i), TourEvent::Captured(c)) => {
                match c {
                    Some(b) => self.captures.push(b),
                    None => {},
                }
                self.phase = if i + 1 < n { TourPhase::Visit(i + 1) } else { TourPhase::Restore };
            },
            (TourPhase::Restore, TourEvent::Restored) => {
                self.phase = TourPhase::Done;
            },
            _ => {},
        }
    }

    /// The result of the tour: no capture at all is an error, otherwise the
    /// captures stitched side by side (a single one as it is).
    pub fn finish(self) -> (res: Result<CaptureBuffer, WlsnipError>)
        requires
            self.captures@.len() >= 2 ==> stitch_fits(views(self.captures@)),
        ensures
            self.captures@.len() == 0 ==> (res matches Err(e) && exists|m: String| e == WlsnipError::Capture(m)
                && m@ == "Failed to capture any workspaces"@),
            self.captures@.len() == 1 ==> (res matches Ok(b) && b@ == self.captures@[0]@),
            self.captures@.len() >= 2 ==> (res matches Ok(b) && b@ == stitched(views(self.captures@))),
    {
        if self.captures.len() == 0 {
            return Err(WlsnipError::Capture(String::from_str("Failed to capture any workspaces")));
        }
        stitch_buffers_horizontally(self.captures)
    }
}

} // verus!
