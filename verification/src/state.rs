//! The state model: the bidirectional mapping between the control point's
//! screen position and the gas state (volume, pressure, temperature,
//! internal energy), and the clamp that guards its domain.

use vstd::prelude::*;
use crate::config::Config;
use crate::numeric::{Frac, div_round, lemma_div_round_exact};

verus! {

/// A point on the integer screen grid.
#[derive(Clone, Copy, Debug, PartialEq, Eq, Structural)]
pub struct Point {
    pub x: i64,
    pub y: i64,
}

/// Volume in pixel units: the control point's distance from the plot's
/// left edge.  The physical volume is this over `volume_scale`.
pub open spec fn vs(cfg: Config, x: int) -> int {
    x - cfg.plot_left
}

/// Pressure in pixel units: the control point's distance from the plot's
/// bottom edge.  The physical pressure is this over `pressure_scale`.
pub open spec fn ps(cfg: Config, y: int) -> int {
    y - cfg.plot_bottom
}

/// `v` limited to `[lo, hi]`.
pub open spec fn spec_clamp(v: int, lo: int, hi: int) -> int
    recommends
        lo <= hi,
{
    if v < lo {
        lo
    } else if v > hi {
        hi
    } else {
        v
    }
}

/// Limits `v` to `[lo, hi]`.
pub fn clamp_i64(v: i64, lo: i64, hi: i64) -> (r: i64)
    requires
        lo <= hi,
    ensures
        r == spec_clamp(v as int, lo as int, hi as int),
{
    if v < lo {
        lo
    } else if v > hi {
        hi
    } else {
        v
    }
}

/// Limits a control point to the plot rectangle inset by the handle
/// radius on all sides.
pub fn clamp_handle(cfg: &Config, p: Point) -> (r: Point)
    requires
        cfg.wf(),
    ensures
        r.x == spec_clamp(p.x as int, cfg.handle_min_x(), cfg.handle_max_x()),
        r.y == spec_clamp(p.y as int, cfg.handle_min_y(), cfg.handle_max_y()),
        cfg.handle_in_range(r.x as int, r.y as int),
{
    Point {
        x: clamp_i64(p.x, cfg.plot_left + cfg.handle_radius, cfg.plot_right - cfg.handle_radius),
        y: clamp_i64(p.y, cfg.plot_bottom + cfg.handle_radius, cfg.plot_top - cfg.handle_radius),
    }
}

/// Clamping an in-range value is a no-op, and clamping twice is the same
/// as clamping once.
pub proof fn lemma_clamp_idempotent(v: int, lo: int, hi: int)
    requires
        lo <= hi,
    ensures
        lo <= v <= hi ==> spec_clamp(v, lo, hi) == v,
        spec_clamp(spec_clamp(v, lo, hi), lo, hi) == spec_clamp(v, lo, hi),
{
}

/// The gas volume at horizontal control-point position `x`, as the exact
/// rational `(x - plot_left) / volume_scale`.
pub fn volume(cfg: &Config, x: i64) -> (r: Frac)
    requires
        cfg.wf(),
        cfg.plot_left <= x <= cfg.plot_right,
    ensures
        r.num == vs(*cfg, x as int),
        r.den == cfg.volume_scale,
        r.wf(),
        r.num >= 0,
{
    Frac::new(x - cfg.plot_left, cfg.volume_scale)
}

/// The gas pressure at vertical control-point position `y`, as the exact
/// rational `(y - plot_bottom) / pressure_scale`.
pub fn pressure(cfg: &Config, y: i64) -> (r: Frac)
    requires
        cfg.wf(),
        cfg.plot_bottom <= y <= cfg.plot_top,
    ensures
        r.num == ps(*cfg, y as int),
        r.den == cfg.pressure_scale,
        r.wf(),
        r.num >= 0,
{
    Frac::new(y - cfg.plot_bottom, cfg.pressure_scale)
}

/// The gas temperature `volume * pressure / (n * R)` at control point
/// `(x, y)`, as an exact rational.
pub fn temperature(cfg: &Config, x: i64, y: i64) -> (r: Frac)
    requires
        cfg.wf(),
        cfg.plot_left <= x <= cfg.plot_right,
        cfg.plot_bottom <= y <= cfg.plot_top,
    ensures
        r.num == vs(*cfg, x as int) * ps(*cfg, y as int) * cfg.gas_den,
        r.den == cfg.volume_scale * cfg.pressure_scale * cfg.gas_num,
        r.wf(),
{
    proof {
        lemma_state_products_bounded(*cfg, x as int, y as int);
    }
    Frac::new(
        (x - cfg.plot_left) * (y - cfg.plot_bottom) * cfg.gas_den,
        cfg.volume_scale * cfg.pressure_scale * cfg.gas_num,
    )
}

/// The internal energy `(3/2) * n * R * T == (3/2) * volume * pressure`
/// of the monatomic gas at control point `(x, y)`, as an exact rational.
pub fn energy(cfg: &Config, x: i64, y: i64) -> (r: Frac)
    requires
        cfg.wf(),
        cfg.plot_left <= x <= cfg.plot_right,
        cfg.plot_bottom <= y <= cfg.plot_top,
    ensures
        r.num == 3 * (vs(*cfg, x as int) * ps(*cfg, y as int)),
        r.den == 2 * (cfg.volume_scale * cfg.pressure_scale),
        r.wf(),
        r.num >= 0,
{
    proof {
        lemma_state_products_bounded(*cfg, x as int, y as int);
    }
    Frac::new(
        3 * ((x - cfg.plot_left) * (y - cfg.plot_bottom)),
        2 * (cfg.volume_scale * cfg.pressure_scale),
    )
}

/// The products formed by the state maps stay far inside `i64`.
pub proof fn lemma_state_products_bounded(cfg: Config, x: int, y: int)
    requires
        cfg.wf(),
        cfg.plot_left <= x <= cfg.plot_right,
        cfg.plot_bottom <= y <= cfg.plot_top,
    ensures
        0 <= vs(cfg, x) * ps(cfg, y) <= 0x100_0000,
        0 < cfg.volume_scale * cfg.pressure_scale <= 100_000_000,
        0 <= vs(cfg, x) * ps(cfg, y) * cfg.gas_den <= 0x4_0000_0000_0000,
        0 < cfg.volume_scale * cfg.pressure_scale * cfg.gas_num <= 0x4_0000_0000_0000,
{
    assert(0 <= vs(cfg, x) * ps(cfg, y) <= 0x100_0000) by (nonlinear_arith)
        requires
            0 <= vs(cfg, x) <= 4096,
            0 <= ps(cfg, y) <= 4096,
    ;
    assert(0 < cfg.volume_scale * cfg.pressure_scale <= 100_000_000) by (nonlinear_arith)
        requires
            1 <= cfg.volume_scale <= 10_000,
            1 <= cfg.pressure_scale <= 10_000,
    ;
    assert(0 <= vs(cfg, x) * ps(cfg, y) * cfg.gas_den <= 0x4_0000_0000_0000) by (nonlinear_arith)
        requires
            0 <= vs(cfg, x) * ps(cfg, y) <= 0x100_0000,
            1 <= cfg.gas_den <= 1_000_000,
    ;
    assert(0 < cfg.volume_scale * cfg.pressure_scale * cfg.gas_num <= 0x4_0000_0000_0000)
        by (nonlinear_arith)
        requires
            0 < cfg.volume_scale * cfg.pressure_scale <= 100_000_000,
            1 <= cfg.gas_num <= 1_000_000,
    ;
}

/// The horizontal screen position whose volume is `v`: the exact inverse
/// of `volume`, rounded to the pixel grid.
pub fn x_from_volume(cfg: &Config, v: Frac) -> (r: i64)
    requires
        cfg.wf(),
        v.wf(),
        v.den < 0x4000_0000_0000_0000,
        -0x100_0000_0000 <= v.num <= 0x100_0000_0000,
    ensures
        r == cfg.plot_left + div_round(v.num * cfg.volume_scale, v.den as int),
{
    proof {
        assert(-0x4000_0000_0000_0000 < v.num * cfg.volume_scale < 0x4000_0000_0000_0000)
            by (nonlinear_arith)
            requires
                -0x100_0000_0000 <= v.num <= 0x100_0000_0000,
                1 <= cfg.volume_scale <= 10_000,
        ;
    }
    let scaled = crate::numeric::div_round_i64(v.num * cfg.volume_scale, v.den);
    cfg.plot_left + scaled
}

/// The vertical screen position whose pressure is `p`: the exact inverse
/// of `pressure`, rounded to the pixel grid.
pub fn y_from_pressure(cfg: &Config, p: Frac) -> (r: i64)
    requires
        cfg.wf(),
        p.wf(),
        p.den < 0x4000_0000_0000_0000,
        -0x100_0000_0000 <= p.num <= 0x100_0000_0000,
    ensures
        r == cfg.plot_bottom + div_round(p.num * cfg.pressure_scale, p.den as int),
{
    proof {
        assert(-0x4000_0000_0000_0000 < p.num * cfg.pressure_scale < 0x4000_0000_0000_0000)
            by (nonlinear_arith)
            requires
                -0x100_0000_0000 <= p.num <= 0x100_0000_0000,
                1 <= cfg.pressure_scale <= 10_000,
        ;
    }
    let scaled = crate::numeric::div_round_i64(p.num * cfg.pressure_scale, p.den);
    cfg.plot_bottom + scaled
}

/// Round trip: mapping a horizontal position to a volume and back returns
/// the position unchanged, for every `x` on the plot.
pub proof fn lemma_x_round_trip(cfg: Config, x: int)
    requires
        cfg.wf(),
        cfg.plot_left <= x <= cfg.plot_right,
    ensures
        cfg.plot_left + div_round(vs(cfg, x) * cfg.volume_scale, cfg.volume_scale as int) == x,
{
    lemma_div_round_exact(vs(cfg, x), cfg.volume_scale as int);
}

/// Round trip: mapping a vertical position to a pressure and back returns
/// the position unchanged, for every `y` on the plot.
pub proof fn lemma_y_round_trip(cfg: Config, y: int)
    requires
        cfg.wf(),
        cfg.plot_bottom <= y <= cfg.plot_top,
    ensures
        cfg.plot_bottom + div_round(ps(cfg, y) * cfg.pressure_scale, cfg.pressure_scale as int)
            == y,
{
    lemma_div_round_exact(ps(cfg, y), cfg.pressure_scale as int);
}

} // verus!
