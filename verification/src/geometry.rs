//! Planar geometry on fixed-point coordinates: squared distances,
//! point-in-rectangle containment and rectangle overlap.
//!
//! Rectangles are axis-aligned and given by their top-left corner and
//! extent; both containment and overlap include the boundary, matching
//! the rectangle tests of the rendering backend the simulation is
//! paired with.
use vstd::prelude::*;

use crate::fixed::{abs_spec, euclid_mod};
use crate::{MAX_SPEED, OFFSET_LIMIT, VIEW_LIMIT};

verus! {

/// Coordinates this module accepts: squared differences of values this
/// large stay well inside the 128-bit intermediates used below.
pub const GEOM_LIMIT: i64 = 4_000_000_000_000;

/// Squared Euclidean distance between two points.
pub open spec fn dist_sq_spec(ax: int, ay: int, bx: int, by: int) -> int {
    (bx - ax) * (bx - ax) + (by - ay) * (by - ay)
}

/// Squared Euclidean distance; squaring avoids the square root where
/// only a comparison against a threshold is needed.
pub fn dist_sq(ax: i64, ay: i64, bx: i64, by: i64) -> (d: i128)
    requires
        abs_spec(ax as int) <= GEOM_LIMIT,
        abs_spec(ay as int) <= GEOM_LIMIT,
        abs_spec(bx as int) <= GEOM_LIMIT,
        abs_spec(by as int) <= GEOM_LIMIT,
    ensures
        d == dist_sq_spec(ax as int, ay as int, bx as int, by as int),
        0 <= d,
{
    let dx: i128 = bx as i128 - ax as i128;
    let dy: i128 = by as i128 - ay as i128;
    proof {
        assert(dx * dx + dy * dy <= i128::MAX && dx * dx >= 0 && dy * dy >= 0)
            by (nonlinear_arith)
            requires
                abs_spec(dx as int) <= 2 * GEOM_LIMIT,
                abs_spec(dy as int) <= 2 * GEOM_LIMIT,
        ;
    }
    dx * dx + dy * dy
}

/// Whether the point `(px, py)` lies in the rectangle with top-left
/// corner `(rx, ry)`, width `rw` and height `rh`, boundary included.
pub open spec fn point_in_rect_spec(
    px: int,
    py: int,
    rx: int,
    ry: int,
    rw: int,
    rh: int,
) -> bool {
    &&& rx <= px <= rx + rw
    &&& ry <= py <= ry + rh
}

/// Point-in-rectangle containment, boundary included.
pub fn point_in_rect(px: i64, py: i64, rx: i64, ry: i64, rw: i64, rh: i64) -> (r: bool)
    requires
        i64::MIN <= rx + rw <= i64::MAX,
        i64::MIN <= ry + rh <= i64::MAX,
    ensures
        r == point_in_rect_spec(px as int, py as int, rx as int, ry as int, rw as int, rh as int),
{
    rx <= px && px <= rx + rw && ry <= py && py <= ry + rh
}

/// Whether two axis-aligned rectangles share at least one point,
/// boundary included.
pub open spec fn rects_overlap_spec(
    ax: int,
    ay: int,
    aw: int,
    ah: int,
    bx: int,
    by: int,
    bw: int,
    bh: int,
) -> bool {
    &&& ax <= bx + bw
    &&& ax + aw >= bx
    &&& ay <= by + bh
    &&& ay + ah >= by
}

/// Rectangle-rectangle overlap, boundary included.
pub fn rects_overlap(
    ax: i64,
    ay: i64,
    aw: i64,
    ah: i64,
    bx: i64,
    by: i64,
    bw: i64,
    bh: i64,
) -> (r: bool)
    requires
        i64::MIN <= ax + aw <= i64::MAX,
        i64::MIN <= ay + ah <= i64::MAX,
        i64::MIN <= bx + bw <= i64::MAX,
        i64::MIN <= by + bh <= i64::MAX,
    ensures
        r == rects_overlap_spec(
            ax as int,
            ay as int,
            aw as int,
            ah as int,
            bx as int,
            by as int,
            bw as int,
            bh as int,
        ),
{
    ax <= bx + bw && ax + aw >= bx && ay <= by + bh && ay + ah >= by
}

/// Where to start tiling a background texture of extent `tex` along one
/// axis, and how many tiles cover a viewport of extent `screen`: the
/// start is the world offset wrapped modulo the texture, negated so the
/// tiles scroll with the world, and the count rounds the cover up with
/// one spare tile for the partial one at the start.
pub fn background_tiling(world_offset: i64, tex: i64, screen: i64) -> (r: (i64, i64))
    requires
        1 <= tex <= VIEW_LIMIT,
        0 <= screen <= VIEW_LIMIT,
        abs_spec(world_offset as int) <= OFFSET_LIMIT + MAX_SPEED,
    ensures
        r.0 == -((world_offset as int) % (tex as int)),
        -tex < r.0 <= 0,
        r.1 == (screen + tex - 1) / (tex as int) + 1,
        1 <= r.1,
{
    proof {
        vstd::arithmetic::div_mod::lemma_div_pos_is_pos(
            screen as int + tex as int - 1,
            tex as int,
        );
    }
    let start = -euclid_mod(world_offset, tex);
    let tiles = (screen + tex - 1) / tex + 1;
    (start, tiles)
}

} // verus!
