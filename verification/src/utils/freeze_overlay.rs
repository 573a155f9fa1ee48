use vstd::prelude::*;
use crate::error::{error_text, WlsnipError};
use crate::utils::geometry::Region;
use crate::utils::text;
use crate::utils::text::{chars_of, contains, u64_to_decimal};
use font8x8::UnicodeFonts;

verus! {

/// The rows of the 8x8 glyph that `font8x8::BASIC_FONTS` holds for `c`
/// (bit `j` of row `r` set means pixel `(j, r)` is lit), if it has one.
pub uninterp spec fn basic_glyph(c: char) -> Option<Seq<u8>>;

/// `<BasicFonts as UnicodeFonts>::get` on `font8x8::BASIC_FONTS`: the
/// glyph rows that `basic_glyph` names for the character, or none exactly
/// when it names none.
#[verifier::external_body]
pub(crate) fn glyph_of(c: char) -> (g: Option<[u8; 8]>)
    ensures
        match g {
            Some(rows) => basic_glyph(c) == Some(rows@),
            None => basic_glyph(c) is None,
        },
{
    font8x8::BASIC_FONTS.get(c)
}

/// Linux input key code of Escape.
pub const KEY_ESC: u32 = 1;
/// Linux input button code of the left mouse button.
pub const BTN_LEFT: u32 = 272;
/// Linux input button code of the right mouse button.
pub const BTN_RIGHT: u32 = 273;

/// What a pointer button event does to the selection.
#[derive(Debug, Clone, Copy, PartialEq, Eq, Structural)]
pub enum ButtonAction {
    /// Left button pressed: start dragging from the current position.
    StartDrag,
    /// Left button released: stop dragging and take the selection.
    FinishDrag,
    /// Right button pressed: cancel the selection.
    Cancel,
    /// Any other button event.
    Ignore,
}

/// Selection by dragging with the left button; the right button cancels.
pub open spec fn button_effect(button: u32, pressed: bool) -> ButtonAction {
    if pressed && button == BTN_LEFT {
        ButtonAction::StartDrag
    } else if pressed && button == BTN_RIGHT {
        ButtonAction::Cancel
    } else if !pressed && button == BTN_LEFT {
        ButtonAction::FinishDrag
    } else {
        ButtonAction::Ignore
    }
}

/// What a pointer button event does to the selection.
pub fn button_action(button: u32, pressed: bool) -> (a: ButtonAction)
    ensures
        a == button_effect(button, pressed),
{
    if pressed {
        if button == BTN_LEFT {
            ButtonAction::StartDrag
        } else if button == BTN_RIGHT {
            ButtonAction::Cancel
        } else {
            ButtonAction::Ignore
        }
    } else if button == BTN_LEFT {
        ButtonAction::FinishDrag
    } else {
        ButtonAction::Ignore
    }
}

/// Pressing Escape cancels the selection (and dismisses a pinned image).
pub open spec fn escape_pressed(key: u32, pressed: bool) -> bool {
    pressed && key == KEY_ESC
}

/// Whether a key event cancels the selection.
pub fn key_cancels(key: u32, pressed: bool) -> (cancel: bool)
    ensures
        cancel == escape_pressed(key, pressed),
{
    pressed && key == KEY_ESC
}

// ── Pointer tracking ───────────────────────────────────────────────────────

/// An input event on the overlay, with pointer positions of type `P`
/// (surface coordinates).
#[derive(Debug, Clone, Copy)]
pub enum PointerEvent<P> {
    /// The pointer entered a surface: the index of the overlay layer it
    /// entered, if it is one of ours, and the position.
    Enter { layer: Option<usize>, pos: P },
    /// The pointer left the surface.
    Leave,
    /// The pointer moved.
    Motion { pos: P },
    /// A pointer button was pressed or released.
    Button { button: u32, pressed: bool },
    /// A key was pressed or released.
    Key { key: u32, pressed: bool },
}

/// The state of a drag selection on the frozen frame.
#[derive(Debug, Clone, Copy)]
pub struct PointerTracker<P> {
    /// The overlay layer under the pointer.
    pub focus: Option<usize>,
    /// Where the drag started.
    pub start: Option<P>,
    /// The latest pointer position.
    pub current: Option<P>,
    /// The left button is held.
    pub dragging: bool,
    /// The finished drag: from where to where.
    pub selected: Option<(P, P)>,
    /// The user cancelled (right button or Escape).
    pub canceled: bool,
}

/// What the selection loop does after an event has been handled.
#[derive(Debug, Clone, Copy)]
pub enum SelectionProgress<P> {
    /// The selection was cancelled.
    Canceled,
    /// The drag finished between these two positions.
    Selected(P, P),
    /// A drag is under way between these positions on this layer: redraw it.
    Dragging { start: P, end: P, layer: usize },
    /// Nothing to do yet.
    Waiting,
}

/// The tracker after one input event (see `PointerTracker::apply`).
pub open spec fn tracker_step<P>(t: PointerTracker<P>, event: PointerEvent<P>) -> PointerTracker<P> {
    match event {
        PointerEvent::Enter { layer, pos } => PointerTracker {
            focus: layer,
            current: if t.dragging { t.current } else { Some(pos) },
            ..t
        },
        PointerEvent::Leave => if t.dragging {
            t
        } else {
            PointerTracker { focus: None, current: None, ..t }
        },
        PointerEvent::Motion { pos } => if t.focus is Some {
            PointerTracker { current: Some(pos), ..t }
        } else {
            t
        },
        PointerEvent::Button { button, pressed } => match button_effect(button, pressed) {
            ButtonAction::StartDrag => PointerTracker { dragging: true, start: t.current, ..t },
            ButtonAction::Cancel => PointerTracker { canceled: true, ..t },
            ButtonAction::FinishDrag => PointerTracker {
                dragging: false,
                selected: if t.start is Some && t.current is Some && t.focus is Some {
                    Some((t.start->0, t.current->0))
                } else {
                    t.selected
                },
                ..t
            },
            ButtonAction::Ignore => t,
        },
        PointerEvent::Key { key, pressed } => if escape_pressed(key, pressed) {
            PointerTracker { canceled: true, ..t }
        } else {
            t
        },
    }
}

/// Where a selection stands (see `PointerTracker::progress`).
pub open spec fn progress_of<P>(t: PointerTracker<P>) -> SelectionProgress<P> {
    if t.canceled {
        SelectionProgress::Canceled
    } else {
        match t.selected {
            Some((s, e)) => SelectionProgress::Selected(s, e),
            None => if t.dragging && t.start is Some && t.current is Some && t.focus is Some {
                SelectionProgress::Dragging { start: t.start->0, end: t.current->0, layer: t.focus->0 }
            } else {
                SelectionProgress::Waiting
            },
        }
    }
}

/// Escape and the right button cancel the selection whatever state it is
/// in, and a cancelled selection stays cancelled whatever comes next.
pub proof fn cancellation_is_final<P>(t: PointerTracker<P>, event: PointerEvent<P>)
    ensures
        (event matches PointerEvent::Key { key, pressed } && key == KEY_ESC && pressed)
            ==> progress_of(tracker_step(t, event)) is Canceled,
        (event matches PointerEvent::Button { button, pressed } && button == BTN_RIGHT && pressed)
            ==> progress_of(tracker_step(t, event)) is Canceled,
        t.canceled ==> progress_of(tracker_step(t, event)) is Canceled,
{
}

impl<P: Copy> PointerTracker<P> {
    pub fn new() -> (t: Self)
        ensures
            t.focus is None,
            t.start is None,
            t.current is None,
            !t.dragging,
            t.selected is None,
            !t.canceled,
    {
        PointerTracker { focus: None, start: None, current: None, dragging: false, selected: None, canceled: false }
    }

    /// Handle one input event. Entering a layer focuses it (and moves the
    /// position unless a drag is under way); leaving forgets both unless a
    /// drag is under way; motion is followed only over a focused layer.
    /// Pressing the left button starts a drag at the current position and
    /// releasing it ends the drag, which is selected when it has a start, an
    /// end and a focused layer. The right button or Escape cancels.
    pub fn apply(&mut self, event: PointerEvent<P>)
        ensures
            *final(self) == tracker_step(*old(self), event),
    {
        match event {
            PointerEvent::Enter { layer, pos } => {
                self.focus = layer;
                if !self.dragging {
                    self.current = Some(pos);
                }
            },
            PointerEvent::Leave => {
                if !self.dragging {
                    self.focus = None;
                    self.current = None;
                }
            },
            PointerEvent::Motion { pos } => {
                if self.focus.is_some() {
                    self.current = Some(pos);
                }
            },
            PointerEvent::Button { button, pressed } => {
                match button_action(button, pressed) {
                    ButtonAction::StartDrag => {
                        self.dragging = true;
                        self.start = self.current;
                    },
                    ButtonAction::Cancel => {
                        self.canceled = true;
                    },
                    ButtonAction::FinishDrag => {
                        self.dragging = false;
                        match (self.start, self.current, self.focus) {
                            (Some(s), Some(e), Some(_)) => {
                                self.selected = Some((s, e));
                            },
                            _ => {},
                        }
                    },
                    ButtonAction::Ignore => {},
                }
            },
            PointerEvent::Key { key, pressed } => {
                if key_cancels(key, pressed) {
                    self.canceled = true;
                }
            },
        }
    }

    /// Where the selection stands: a cancellation wins over a finished drag,
    /// which wins over one under way.
    pub fn progress(&self) -> (p: SelectionProgress<P>)
        ensures
            p == progress_of(*self),
    {
        if self.canceled {
            return SelectionProgress::Canceled;
        }
        match self.selected {
            Some((s, e)) => {
                return SelectionProgress::Selected(s, e);
            },
            None => {},
        }
        if self.dragging {
            match (self.start, self.current, self.focus) {
                (Some(s), Some(e), Some(l)) => {
                    return SelectionProgress::Dragging { start: s, end: e, layer: l };
                },
                _ => {},
            }
        }
        SelectionProgress::Waiting
    }
}

/// A pinned image is dismissed by pressing any pointer button, or Escape.
pub fn pin_dismissed_by<P>(event: &PointerEvent<P>) -> (dismiss: bool)
    ensures
        dismiss == match *event {
            PointerEvent::Button { pressed, .. } => pressed,
            PointerEvent::Key { key, pressed } => escape_pressed(key, pressed),
            _ => false,
        },
{
    match event {
        PointerEvent::Button { pressed, .. } => *pressed,
        PointerEvent::Key { key, pressed } => key_cancels(*key, *pressed),
        _ => false,
    }
}

/// What selecting with slurp over the frozen frame gives: its region, or no
/// region at all when the error says the selection was cancelled (slurp
/// exiting unsuccessfully counts as such); other errors are passed on.
pub fn slurp_outcome(res: Result<Region, WlsnipError>) -> (out: Result<Option<Region>, WlsnipError>)
    ensures
        match res {
            Ok(r) => out == Ok::<Option<Region>, WlsnipError>(Some(r)),
            Err(e) => if text::contains_text(error_text(e), "cancelled"@) {
                out == Ok::<Option<Region>, WlsnipError>(None)
            } else {
                out == Err::<Option<Region>, WlsnipError>(e)
            },
        },
{
    match res {
        Ok(r) => Ok(Some(r)),
        Err(e) => {
            let m = chars_of(e.message().as_str());
            if contains(&m, &chars_of("cancelled")) {
                Ok(None)
            } else {
                Err(e)
            }
        },
    }
}

/// A selection rectangle in buffer pixels, before clamping to the image.
#[derive(Debug, Clone, Copy, PartialEq, Eq, Structural)]
pub struct Selection {
    pub min_x: usize,
    pub min_y: usize,
    pub max_x: usize,
    pub max_y: usize,
}

pub open spec fn clamp(v: int, hi: int) -> int {
    if v < hi { v } else { hi }
}

/// The label drawn next to the selection: "WxH" in decimal.
pub open spec fn label_text(sel_w: int, sel_h: int) -> Seq<char> {
    text::decimal(sel_w as nat) + seq!['x'] + text::decimal(sel_h as nat)
}

/// Top-left corner of the label: 4 pixels right of and below the clamped
/// selection's far corner, moved to the other side of the selection (or to
/// 0) on an axis where it would not fit in the image.
pub open spec fn label_origin(xa: int, ya: int, xb: int, yb: int, len: int, w: int, h: int) -> (int, int) {
    let tw = len * 16;
    let tx = if xb + 4 + tw > w { if xa >= tw + 4 { xa - (tw + 4) } else { 0 } } else { xb + 4 };
    let ty = if yb + 4 + 16 > h { if ya >= 20 { ya - 20 } else { 0 } } else { yb + 4 };
    (tx, ty)
}

/// Pixel `(x, y)` belongs to a lit glyph dot of the label, drawn at twice the
/// glyph size from `(tx, ty)`, 16 pixels per character.
pub open spec fn label_pixel(label: Seq<char>, tx: int, ty: int, x: int, y: int) -> bool {
    let dx = x - tx;
    let dy = y - ty;
    let i = dx / 16;
    let c = (dx % 16) / 2;
    let r = dy / 2;
    &&& dx >= 0
    &&& dy >= 0
    &&& i < label.len()
    &&& r < 8
    &&& basic_glyph(label[i]) matches Some(g) && g[r] & (1u8 << (c as u8)) != 0
}

/// The selection border: the column just left of and just right of the
/// clamped rectangle (over its rows), and the row just above and just below
/// it (over its columns), where they lie inside the image.
pub open spec fn border_pixel(xa: int, ya: int, xb: int, yb: int, w: int, h: int, x: int, y: int) -> bool {
    ||| ya <= y < yb && ((xa > 0 && x == xa - 1) || (xb < w && x == xb))
    ||| xa <= x < xb && ((ya > 0 && y == ya - 1) || (yb < h && y == yb))
}

/// Byte `k` of a pixel in the rendered frame, where `v` is the base byte.
/// Pixels are little-endian 32-bit words: the label is white 0x00FFFFFF,
/// the border red 0x00FF0000, pixels outside the selection are halved
/// channel by channel, the rest keep their value.
pub open spec fn overlay_pixel_byte(
    base: Seq<u8>, w: int, h: int, sel: Selection, x: int, y: int, k: int, v: u8,
) -> u8 {
    let xa = clamp(sel.min_x as int, w);
    let xb = clamp(sel.max_x as int, w);
    let ya = clamp(sel.min_y as int, h);
    let yb = clamp(sel.max_y as int, h);
    let sel_w = xb - xa;
    let sel_h = yb - ya;
    let label = label_text(sel_w, sel_h);
    let origin = label_origin(xa, ya, xb, yb, label.len() as int, w, h);
    if sel_w > 0 && sel_h > 0 && label_pixel(label, origin.0, origin.1, x, y) {
        if k == 3 { 0u8 } else { 0xFFu8 }
    } else if border_pixel(xa, ya, xb, yb, w, h, x, y) {
        if k == 2 { 0xFFu8 } else { 0u8 }
    } else if y < ya || y >= yb || x < xa || x >= xb {
        v >> 1
    } else {
        v
    }
}

/// Byte `i` of the rendered frame: the frame is read as pixels of 4 bytes,
/// `s4` pixels per row; pixels of the `w` x `h` image are drawn on, the rest
/// (row padding, data past the last row) keep their value.
pub open spec fn overlay_byte(base: Seq<u8>, w: int, h: int, s4: int, sel: Selection, i: int) -> u8 {
    let p = i / 4;
    let y = p / s4;
    let x = p % s4;
    if s4 > 0 && y < h && x < w {
        overlay_pixel_byte(base, w, h, sel, x, y, i % 4, base[i])
    } else {
        base[i]
    }
}

/// The rendered frame.
pub open spec fn overlay_frame(base: Seq<u8>, w: int, h: int, stride: int, sel: Selection) -> Seq<u8> {
    Seq::new(base.len(), |i: int| overlay_byte(base, w, h, stride / 4, sel, i))
}

/// Over the frozen frame, every image pixel outside the selection rectangle
/// (clamped to the image) that is neither on the border nor under the label
/// is dimmed, each byte halved, whether it lies above, below, left or right
/// of the selection; every pixel inside the rectangle and off the label keeps
/// its bytes.
pub proof fn outside_dimmed_inside_kept(
    base: Seq<u8>, w: int, h: int, stride: int, sel: Selection, x: int, y: int, k: int,
)
    requires
        4 <= stride,
        w <= stride / 4,
        0 <= x < w,
        0 <= y < h,
        0 <= k < 4,
        (y * (stride / 4) + x) * 4 + k < base.len(),
    ensures
        ({
            let xa = clamp(sel.min_x as int, w);
            let xb = clamp(sel.max_x as int, w);
            let ya = clamp(sel.min_y as int, h);
            let yb = clamp(sel.max_y as int, h);
            let label = label_text(xb - xa, yb - ya);
            let origin = label_origin(xa, ya, xb, yb, label.len() as int, w, h);
            let on_label = xb - xa > 0 && yb - ya > 0 && label_pixel(label, origin.0, origin.1, x, y);
            let i = (y * (stride / 4) + x) * 4 + k;
            let out = overlay_frame(base, w, h, stride, sel)[i];
            &&& (!on_label && !border_pixel(xa, ya, xb, yb, w, h, x, y) && (x < xa || x >= xb || y < ya || y >= yb))
                ==> out == base[i] >> 1
            &&& (!on_label && xa <= x < xb && ya <= y < yb) ==> out == base[i]
        }),
{
    let s4 = stride / 4;
    let i = (y * s4 + x) * 4 + k;
    let p = y * s4 + x;
    crate::buffers::lemma_split_index(i, 4, p, k);
    crate::buffers::lemma_split_index(p, s4, y, x);
}

/// The label text "WxH", as characters.
fn label_chars(sel_w: usize, sel_h: usize) -> (v: Vec<char>)
    ensures
        v@ == label_text(sel_w as int, sel_h as int),
{
    let a = text::chars_of(u64_to_decimal(sel_w as u64).as_str());
    let b = text::chars_of(u64_to_decimal(sel_h as u64).as_str());
    let mut v: Vec<char> = Vec::new();
    let mut i: usize = 0;
    while i < a.len()
        invariant
            i <= a@.len(),
            v@ == a@.take(i as int),
        decreases a.len() - i,
    {
        v.push(a[i]);
        i += 1;
    }
    v.push('x');
    let mut j: usize = 0;
    while j < b.len()
        invariant
            j <= b@.len(),
            v@ == a@ + seq!['x'] + b@.take(j as int),
        decreases b.len() - j,
    {
        v.push(b[j]);
        j += 1;
    }
    assert(a@.take(a@.len() as int) =~= a@);
    assert(b@.take(b@.len() as int) =~= b@);
    v
}

pub open spec fn pow10(k: nat) -> nat
    decreases k,
{
    if k == 0 { 1 } else { 10 * pow10((k - 1) as nat) }
}

proof fn lemma_decimal_len(n: nat, k: nat)
    requires
        k >= 1,
        n < pow10(k),
    ensures
        1 <= text::decimal(n).len() <= k,
    decreases n,
{
    if n >= 10 {
        assert(k >= 2) by {
            if k == 1 {
                assert(pow10(0) == 1);
            }
        }
        assert(pow10(k) == 10 * pow10((k - 1) as nat));
        lemma_decimal_len(n / 10, (k - 1) as nat);
    }
}

/// Whether the label has a lit dot at `(x, y)`, given the glyph of each label character.
fn is_label_pixel(label: &Vec<char>, glyphs: &Vec<Option<[u8; 8]>>, tx: usize, ty: usize, x: usize, y: usize) -> (b: bool)
    requires
        glyphs@.len() == label@.len(),
        forall|i: int| 0 <= i < label@.len() ==> match #[trigger] glyphs@[i] {
            Some(g) => basic_glyph(label@[i]) == Some(g@),
            None => basic_glyph(label@[i]) is None,
        },
    ensures
        b == label_pixel(label@, tx as int, ty as int, x as int, y as int),
{
    if x < tx || y < ty {
        return false;
    }
    let dx = x - tx;
    let dy = y - ty;
    let i = dx / 16;
    let c = (dx % 16) / 2;
    let r = dy / 2;
    if i >= label.len() || r >= 8 {
        return false;
    }
    match glyphs[i] {
        Some(g) => {
            let row = g[r];
            row & (1u8 << (c as u8)) != 0
        },
        None => false,
    }
}

/// Render the frozen frame with the current selection: dim everything
/// outside the selection, draw a red border around it and its size as a
/// white "WxH" label at twice the 8x8 font size. Data whose length is not a
/// whole number of 32-bit pixels is left as is.
pub fn render_selection(base: &Vec<u8>, width: usize, height: usize, stride: u32, sel: Selection) -> (frame: Vec<u8>)
    requires
        sel.min_x <= sel.max_x,
        sel.min_y <= sel.max_y,
        width + 1024 <= usize::MAX,
        height + 1024 <= usize::MAX,
        width <= (stride / 4) as int,
    ensures
        base@.len() % 4 == 0 ==> frame@ == overlay_frame(base@, width as int, height as int, stride as int, sel),
        base@.len() % 4 != 0 ==> frame@ == base@,
{
    if base.len() % 4 != 0 {
        return crate::buffers::copy_bytes(base);
    }
    let s4 = (stride / 4) as usize;
    let xa = if sel.min_x < width { sel.min_x } else { width };
    let xb = if sel.max_x < width { sel.max_x } else { width };
    let ya = if sel.min_y < height { sel.min_y } else { height };
    let yb = if sel.max_y < height { sel.max_y } else { height };
    let sel_w = xb - xa;
    let sel_h = yb - ya;
    let label = label_chars(sel_w, sel_h);
    proof {
        reveal_with_fuel(pow10, 21);
        assert(pow10(20) == 100000000000000000000nat);
        lemma_decimal_len(sel_w as nat, 20);
        lemma_decimal_len(sel_h as nat, 20);
    }
    let mut glyphs: Vec<Option<[u8; 8]>> = Vec::new();
    let mut g: usize = 0;
    while g < label.len()
        invariant
            g <= label@.len(),
            glyphs@.len() == g,
            forall|i: int| 0 <= i < g ==> match #[trigger] glyphs@[i] {
                Some(rows) => basic_glyph(label@[i]) == Some(rows@),
                None => basic_glyph(label@[i]) is None,
            },
        decreases label.len() - g,
    {
        glyphs.push(glyph_of(label[g]));
        g += 1;
    }
    let tw = label.len() * 16;
    let tx = if xb + 4 + tw > width { if xa >= tw + 4 { xa - (tw + 4) } else { 0 } } else { xb + 4 };
    let ty = if yb + 4 + 16 > height { if ya >= 20 { ya - 20 } else { 0 } } else { yb + 4 };
    let draw_label = sel_w > 0 && sel_h > 0;
    let ghost w = width as int;
    let ghost h = height as int;
    assert(label_origin(xa as int, ya as int, xb as int, yb as int, label@.len() as int, w, h) == (tx as int, ty as int));

    let n = base.len();
    let mut frame: Vec<u8> = Vec::with_capacity(n);
    let mut i: usize = 0;
    let mut x: usize = 0;
    let mut y: usize = 0;
    while i < n
        invariant
            n == base@.len(),
            n % 4 == 0,
            i % 4 == 0,
            i <= n,
            frame@.len() == i,
            s4 == stride / 4,
            w == width,
            h == height,
            width <= s4,
            xa == clamp(sel.min_x as int, w),
            xb == clamp(sel.max_x as int, w),
            ya == clamp(sel.min_y as int, h),
            yb == clamp(sel.max_y as int, h),
            xa <= xb <= width,
            ya <= yb <= height,
            sel_w == xb - xa,
            sel_h == yb - ya,
            draw_label == (sel_w > 0 && sel_h > 0),
            label@ == label_text(sel_w as int, sel_h as int),
            label_origin(xa as int, ya as int, xb as int, yb as int, label@.len() as int, w, h) == (tx as int, ty as int),
            glyphs@.len() == label@.len(),
            forall|j: int| 0 <= j < label@.len() ==> match #[trigger] glyphs@[j] {
                Some(rows) => basic_glyph(label@[j]) == Some(rows@),
                None => basic_glyph(label@[j]) is None,
            },
            s4 > 0 ==> x < s4 && i / 4 == y * s4 + x,
            y <= i / 4,
            forall|j: int| 0 <= j < i ==> frame@[j] == #[trigger] overlay_byte(base@, w, h, s4 as int, sel, j),
        decreases n - i,
    {
        let in_image = s4 > 0 && y < height && x < width;
        let on_label = in_image && draw_label && is_label_pixel(&label, &glyphs, tx, ty, x, y);
        let on_border = in_image && ((ya <= y && y < yb && ((xa > 0 && x == xa - 1) || (xb < width && x == xb)))
            || (xa <= x && x < xb && ((ya > 0 && y == ya - 1) || (yb < height && y == yb))));
        let outside = y < ya || y >= yb || x < xa || x >= xb;
        proof {
            if s4 > 0 {
                crate::buffers::lemma_split_index((i / 4) as int, s4 as int, y as int, x as int);
            }
        }
        let mut k: usize = 0;
        while k < 4
            invariant
                k <= 4,
                i + 4 <= n,
                i % 4 == 0,
                n == base@.len(),
                frame@.len() == i + k,
                s4 == stride / 4,
                w == width,
                h == height,
                xa == clamp(sel.min_x as int, w),
                xb == clamp(sel.max_x as int, w),
                ya == clamp(sel.min_y as int, h),
                yb == clamp(sel.max_y as int, h),
                sel_w == xb - xa,
                sel_h == yb - ya,
                label@ == label_text(sel_w as int, sel_h as int),
                label_origin(xa as int, ya as int, xb as int, yb as int, label@.len() as int, w, h) == (tx as int, ty as int),
                s4 > 0 ==> (i as int / 4) / (s4 as int) == y && (i as int / 4) % (s4 as int) == x,
                in_image == (s4 > 0 && y < height && x < width),
                on_label == (in_image && sel_w > 0 && sel_h > 0 && label_pixel(label@, tx as int, ty as int, x as int, y as int)),
                on_border == (in_image && border_pixel(xa as int, ya as int, xb as int, yb as int, w, h, x as int, y as int)),
                outside == (y < ya || y >= yb || x < xa || x >= xb),
                forall|j: int| 0 <= j < i + k ==> frame@[j] == #[trigger] overlay_byte(base@, w, h, s4 as int, sel, j),
            decreases 4 - k,
        {
            let v = base[i + k];
            let out: u8 = if !in_image {
                v
            } else if on_label {
                if k == 3 { 0 } else { 0xFF }
            } else if on_border {
                if k == 2 { 0xFF } else { 0 }
            } else if outside {
                v >> 1
            } else {
                v
            };
            assert((i + k) / 4 == i / 4 && (i + k) % 4 == k);
            frame.push(out);
            k += 1;
        }
        i += 4;
        if s4 > 0 {
            if x + 1 == s4 {
                assert((y + 1) * s4 == y * s4 + s4) by (nonlinear_arith);
                x = 0;
                y += 1;
            } else {
                x += 1;
            }
        }
    }
    assert(frame@ =~= overlay_frame(base@, width as int, height as int, stride as int, sel));
    frame
}

} // verus!
