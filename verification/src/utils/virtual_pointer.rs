//! The path of a simulated drag, in the absolute coordinates of a virtual
//! pointer (wlr-virtual-pointer), used to exercise the selection overlay.

use vstd::prelude::*;

verus! {

/// How far a drag moves along one axis: forward only, a coordinate below the
/// start gives no movement.
pub open spec fn forward(start: u32, end: u32) -> int {
    if end > start { end - start } else { 0 }
}

/// Position `i` (counted from 1) of a drag along one axis cut into `steps` equal steps.
pub open spec fn drag_coordinate(start: u32, end: u32, i: int, steps: u32) -> int {
    start + forward(start, end) * i / (steps as int)
}

/// The positions a drag from `(start_x, start_y)` to `(end_x, end_y)` passes
/// through, one per step, after the start.
pub fn drag_points(start_x: u32, start_y: u32, end_x: u32, end_y: u32, steps: u32) -> (points: Vec<(u32, u32)>)
    requires
        steps > 0,
        forward(start_x, end_x) * steps <= u32::MAX,
        forward(start_y, end_y) * steps <= u32::MAX,
    ensures
        points@.len() == steps,
        forall|k: int| 0 <= k < steps ==> #[trigger] points@[k] == (
            drag_coordinate(start_x, end_x, k + 1, steps) as u32,
            drag_coordinate(start_y, end_y, k + 1, steps) as u32,
        ),
        points@[steps - 1] == (
            (start_x + forward(start_x, end_x)) as u32,
            (start_y + forward(start_y, end_y)) as u32,
        ),
{
    let dx: u32 = if end_x > start_x { end_x - start_x } else { 0 };
    let dy: u32 = if end_y > start_y { end_y - start_y } else { 0 };
    let mut points: Vec<(u32, u32)> = Vec::new();
    let mut k: u32 = 0;
    while k < steps
        invariant
            k <= steps,
            steps > 0,
            dx == forward(start_x, end_x),
            dy == forward(start_y, end_y),
            dx * steps <= u32::MAX,
            dy * steps <= u32::MAX,
            points@.len() == k,
            forall|j: int| 0 <= j < k ==> #[trigger] points@[j] == (
                drag_coordinate(start_x, end_x, j + 1, steps) as u32,
                drag_coordinate(start_y, end_y, j + 1, steps) as u32,
            ),
        decreases steps - k,
    {
        let i = k + 1;
        assert(dx * i <= dx * steps) by (nonlinear_arith)
            requires i <= steps, dx >= 0;
        assert(dy * i <= dy * steps) by (nonlinear_arith)
            requires i <= steps, dy >= 0;
        let mx = dx * i;
        let my = dy * i;
        assert(mx / steps <= dx) by (nonlinear_arith)
            requires mx == dx * i, i <= steps, steps > 0, dx >= 0;
        assert(my / steps <= dy) by (nonlinear_arith)
            requires my == dy * i, i <= steps, steps > 0, dy >= 0;
        let cx = start_x + mx / steps;
        let cy = start_y + my / steps;
        points.push((cx, cy));
        k += 1;
    }
    assert(dx * steps / (steps as int) == dx as int) by (nonlinear_arith)
        requires steps > 0;
    assert(dy * steps / (steps as int) == dy as int) by (nonlinear_arith)
        requires steps > 0;
    assert(points@[steps - 1] == (
        drag_coordinate(start_x, end_x, steps as int, steps) as u32,
        drag_coordinate(start_y, end_y, steps as int, steps) as u32,
    ));
    points
}

} // verus!
