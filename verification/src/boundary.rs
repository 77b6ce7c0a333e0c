//! The boundary controller: the piston wall and the box floor/ceiling
//! transform derived from the control point's horizontal position.

use vstd::prelude::*;
use crate::config::Config;
use crate::numeric::Frac;

verus! {

/// Horizontal transform of the box's floor and ceiling: a scale factor
/// relative to the full box width, and the center of the scaled wall.
#[derive(Clone, Copy, Debug)]
pub struct WallTransform {
    pub scale: Frac,
    pub center: Frac,
}

/// The piston's horizontal position is the control point's.
pub fn piston_x(cfg: &Config, handle_x: i64) -> (r: i64)
    requires
        cfg.wf(),
    ensures
        r == handle_x,
{
    handle_x
}

/// Derives the floor/ceiling transform from the control point.  The wall
/// spans from the box's left edge to the piston's inner face, so the
/// scale is that span over the full box width and the center is the
/// span's midpoint.  The scale is never negative: the piston cannot
/// cross the box's left edge while the control point is clamped.
pub fn wall_transform(cfg: &Config, handle_x: i64) -> (r: WallTransform)
    requires
        cfg.wf(),
        cfg.handle_min_x() <= handle_x <= cfg.handle_max_x(),
    ensures
        r.scale.num == handle_x + cfg.wall_thickness / 2 - cfg.box_left,
        r.scale.den == cfg.box_right - cfg.box_left,
        r.center.num == handle_x + cfg.wall_thickness / 2 + cfg.box_left,
        r.center.den == 2,
        r.scale.num >= 0,
        r.scale.wf(),
        r.center.wf(),
{
    let half = cfg.wall_thickness / 2;
    WallTransform {
        scale: Frac::new(handle_x + half - cfg.box_left, cfg.box_right - cfg.box_left),
        center: Frac::new(handle_x + half + cfg.box_left, 2),
    }
}

} // verus!
