//! The curve generator: samples the four classical process curves
//! through the current state point, one screen unit per step, without
//! leaving the plot rectangle.
//!
//! The isobaric and isochoric curves are straight lines.  The isothermal
//! and adiabatic curves are sampled in two branches, matching how the
//! path is drawn: one walks the vertical screen range upward from the
//! state point, one walks the horizontal range rightward.  Together the
//! branches cover both directions because both laws are decreasing.

use vstd::prelude::*;
use vstd::arithmetic::power::pow;
use crate::config::Config;
use crate::numeric::{
    div_round,
    div_round_i64,
    lemma_div_round_exact,
    lemma_div_round_range,
    lemma_pow_base_monotone,
    lemma_pow_base_strict,
    lemma_root_of_power,
    pow3_u128,
    pow5_u128,
    root_floor,
};
use crate::state::{Point, vs, ps};

verus! {

/// Horizontal position of the isothermal curve at vertical position
/// `y`, for the curve through `(x0, y0)`: the position whose volume is
/// `V0 * P0 / P(y)`, rounded to the pixel grid.
pub open spec fn iso_x(cfg: Config, x0: int, y0: int, y: int) -> int {
    cfg.plot_left + div_round(vs(cfg, x0) * ps(cfg, y0), ps(cfg, y))
}

/// Vertical position of the isothermal curve at horizontal position
/// `x`: the position whose pressure is `P0 * V0 / V(x)`.
pub open spec fn iso_y(cfg: Config, x0: int, y0: int, x: int) -> int {
    cfg.plot_bottom + div_round(vs(cfg, x0) * ps(cfg, y0), vs(cfg, x))
}

/// The conserved quantity of the adiabatic curve through `(x0, y0)` in
/// pixel units: `V0^5 * P0^3`.  For a monatomic gas `P * V^(5/3)` is
/// constant, which for positive values is equivalent to `V^5 * P^3`
/// being constant; the fifth/third powers keep everything integral.
pub open spec fn adia_const(cfg: Config, x0: int, y0: int) -> int {
    pow(vs(cfg, x0), 5) * pow(ps(cfg, y0), 3)
}

/// `x` is the adiabatic curve's horizontal position at height `y`: its
/// volume is the largest pixel volume whose fifth power times `P(y)^3`
/// does not exceed the conserved quantity.  This brackets
/// `V^5 * P^3 == V0^5 * P0^3` to within one pixel of volume.
pub open spec fn adia_x_ok(cfg: Config, x0: int, y0: int, y: int, x: int) -> bool {
    &&& vs(cfg, x) >= 0
    &&& pow(vs(cfg, x), 5) * pow(ps(cfg, y), 3) <= adia_const(cfg, x0, y0)
    &&& adia_const(cfg, x0, y0) < pow(vs(cfg, x) + 1, 5) * pow(ps(cfg, y), 3)
}

/// `y` is the adiabatic curve's vertical position at `x`: its pressure
/// is the largest pixel pressure whose cube times `V(x)^5` does not
/// exceed the conserved quantity.
pub open spec fn adia_y_ok(cfg: Config, x0: int, y0: int, x: int, y: int) -> bool {
    &&& ps(cfg, y) >= 0
    &&& pow(vs(cfg, x), 5) * pow(ps(cfg, y), 3) <= adia_const(cfg, x0, y0)
    &&& adia_const(cfg, x0, y0) < pow(vs(cfg, x), 5) * pow(ps(cfg, y) + 1, 3)
}

/// The isobaric curve: a horizontal line at the state point's height,
/// across the full plot width.
pub fn isobaric_points(cfg: &Config, y0: i64) -> (r: Vec<Point>)
    requires
        cfg.wf(),
        cfg.handle_min_y() <= y0 <= cfg.handle_max_y(),
    ensures
        r@.len() == 2,
        r@[0] == (Point { x: cfg.plot_left, y: y0 }),
        r@[1] == (Point { x: cfg.plot_right, y: y0 }),
{
    let mut out: Vec<Point> = Vec::new();
    out.push(Point { x: cfg.plot_left, y: y0 });
    out.push(Point { x: cfg.plot_right, y: y0 });
    out
}

/// The isochoric curve: a vertical line at the state point's horizontal
/// position, across the full plot height.
pub fn isochoric_points(cfg: &Config, x0: i64) -> (r: Vec<Point>)
    requires
        cfg.wf(),
        cfg.handle_min_x() <= x0 <= cfg.handle_max_x(),
    ensures
        r@.len() == 2,
        r@[0] == (Point { x: x0, y: cfg.plot_bottom }),
        r@[1] == (Point { x: x0, y: cfg.plot_top }),
{
    let mut out: Vec<Point> = Vec::new();
    out.push(Point { x: x0, y: cfg.plot_bottom });
    out.push(Point { x: x0, y: cfg.plot_top });
    out
}

/// The isothermal curve passes exactly through the state point: at the
/// state point's own coordinate the sampled position is the state point.
pub proof fn lemma_isothermal_through_state(cfg: Config, x0: int, y0: int)
    requires
        cfg.wf(),
        cfg.handle_in_range(x0, y0),
    ensures
        iso_x(cfg, x0, y0, y0) == x0,
        iso_y(cfg, x0, y0, x0) == y0,
{
    lemma_div_round_exact(vs(cfg, x0), ps(cfg, y0));
    assert(vs(cfg, x0) * ps(cfg, y0) == ps(cfg, y0) * vs(cfg, x0)) by (nonlinear_arith);
    lemma_div_round_exact(ps(cfg, y0), vs(cfg, x0));
}

/// Every sampled isothermal point keeps `P * V` within half a pixel
/// pressure of the state point's `P0 * V0`: in pixel units,
/// `2 * |V(x) * P(y) - V0 * P0| <= P(y) + 1` on the vertical branch.
pub proof fn lemma_isothermal_tolerance_y(cfg: Config, x0: int, y0: int, y: int)
    requires
        cfg.wf(),
        cfg.handle_in_range(x0, y0),
        y0 <= y <= cfg.plot_top,
    ensures
        2 * vstd::math::abs(
            vs(cfg, iso_x(cfg, x0, y0, y)) * ps(cfg, y) - vs(cfg, x0) * ps(cfg, y0),
        ) <= ps(cfg, y) + 1,
{
    crate::numeric::lemma_div_round_close(vs(cfg, x0) * ps(cfg, y0), ps(cfg, y));
}

/// The horizontal-branch form of the same tolerance:
/// `2 * |P(y) * V(x) - V0 * P0| <= V(x) + 1`.
pub proof fn lemma_isothermal_tolerance_x(cfg: Config, x0: int, y0: int, x: int)
    requires
        cfg.wf(),
        cfg.handle_in_range(x0, y0),
        x0 <= x <= cfg.plot_right,
    ensures
        2 * vstd::math::abs(
            ps(cfg, iso_y(cfg, x0, y0, x)) * vs(cfg, x) - vs(cfg, x0) * ps(cfg, y0),
        ) <= vs(cfg, x) + 1,
{
    crate::numeric::lemma_div_round_close(vs(cfg, x0) * ps(cfg, y0), vs(cfg, x));
    assert(ps(cfg, iso_y(cfg, x0, y0, x)) * vs(cfg, x) == div_round(
        vs(cfg, x0) * ps(cfg, y0),
        vs(cfg, x),
    ) * vs(cfg, x));
}

/// The isothermal curve's vertical branch: one point per screen unit
/// from the state point up to the plot's top edge, each on the curve
/// `V = V0 * P0 / P(y)` and none outside the plot.
#[verifier::loop_isolation(false)]
pub fn isothermal_branch_y(cfg: &Config, x0: i64, y0: i64) -> (r: Vec<Point>)
    requires
        cfg.wf(),
        cfg.handle_in_range(x0 as int, y0 as int),
    ensures
        r@.len() == cfg.plot_top - y0 + 1,
        forall|i: int| 0 <= i < r@.len() ==> (#[trigger] r@[i]).y == y0 + i,
        forall|i: int|
            0 <= i < r@.len() ==> (#[trigger] r@[i]).x == iso_x(
                *cfg,
                x0 as int,
                y0 as int,
                y0 + i,
            ),
        forall|i: int| 0 <= i < r@.len() ==> cfg.plot_left <= (#[trigger] r@[i]).x <= x0,
        r@[0] == (Point { x: x0, y: y0 }),
{
    proof {
        assert(0 <= (x0 - cfg.plot_left) * (y0 - cfg.plot_bottom) <= 0x100_0000)
            by (nonlinear_arith)
            requires
                0 <= x0 - cfg.plot_left <= 4096,
                0 <= y0 - cfg.plot_bottom <= 4096,
        ;
    }
    let n = (x0 - cfg.plot_left) * (y0 - cfg.plot_bottom);
    let mut out: Vec<Point> = Vec::new();
    let mut y: i64 = y0;
    while y <= cfg.plot_top
        invariant
            y0 <= y <= cfg.plot_top + 1,
            out@.len() == y - y0,
            forall|i: int| 0 <= i < out@.len() ==> (#[trigger] out@[i]).y == y0 + i,
            forall|i: int|
                0 <= i < out@.len() ==> (#[trigger] out@[i]).x == iso_x(
                    *cfg,
                    x0 as int,
                    y0 as int,
                    y0 + i,
                ),
            forall|i: int| 0 <= i < out@.len() ==> cfg.plot_left <= (#[trigger] out@[i]).x <= x0,
        decreases cfg.plot_top + 1 - y,
    {
        let d = y - cfg.plot_bottom;
        proof {
            lemma_div_round_range(vs(*cfg, x0 as int), ps(*cfg, y0 as int), ps(*cfg, y as int));
        }
        let q = div_round_i64(n, d);
        out.push(Point { x: cfg.plot_left + q, y });
        y = y + 1;
    }
    proof {
        assert(out@[0].y == y0 + 0 && out@[0].x == iso_x(*cfg, x0 as int, y0 as int, y0 + 0));
        lemma_isothermal_through_state(*cfg, x0 as int, y0 as int);
        assert(out@[0] == (Point { x: x0, y: y0 }));
    }
    out
}

/// The isothermal curve's horizontal branch: one point per screen unit
/// from the state point right to the plot's edge, each on the curve
/// `P = P0 * V0 / V(x)` and none outside the plot.
#[verifier::loop_isolation(false)]
pub fn isothermal_branch_x(cfg: &Config, x0: i64, y0: i64) -> (r: Vec<Point>)
    requires
        cfg.wf(),
        cfg.handle_in_range(x0 as int, y0 as int),
    ensures
        r@.len() == cfg.plot_right - x0 + 1,
        forall|i: int| 0 <= i < r@.len() ==> (#[trigger] r@[i]).x == x0 + i,
        forall|i: int|
            0 <= i < r@.len() ==> (#[trigger] r@[i]).y == iso_y(
                *cfg,
                x0 as int,
                y0 as int,
                x0 + i,
            ),
        forall|i: int| 0 <= i < r@.len() ==> cfg.plot_bottom <= (#[trigger] r@[i]).y <= y0,
        r@[0] == (Point { x: x0, y: y0 }),
{
    proof {
        assert(0 <= (x0 - cfg.plot_left) * (y0 - cfg.plot_bottom) <= 0x100_0000)
            by (nonlinear_arith)
            requires
                0 <= x0 - cfg.plot_left <= 4096,
                0 <= y0 - cfg.plot_bottom <= 4096,
        ;
    }
    let n = (x0 - cfg.plot_left) * (y0 - cfg.plot_bottom);
    let mut out: Vec<Point> = Vec::new();
    let mut x: i64 = x0;
    while x <= cfg.plot_right
        invariant
            x0 <= x <= cfg.plot_right + 1,
            out@.len() == x - x0,
            forall|i: int| 0 <= i < out@.len() ==> (#[trigger] out@[i]).x == x0 + i,
            forall|i: int|
                0 <= i < out@.len() ==> (#[trigger] out@[i]).y == iso_y(
                    *cfg,
                    x0 as int,
                    y0 as int,
                    x0 + i,
                ),
            forall|i: int| 0 <= i < out@.len() ==> cfg.plot_bottom <= (#[trigger] out@[i]).y <= y0,
        decreases cfg.plot_right + 1 - x,
    {
        let d = x - cfg.plot_left;
        proof {
            assert(vs(*cfg, x0 as int) * ps(*cfg, y0 as int) == ps(*cfg, y0 as int) * vs(
                *cfg,
                x0 as int,
            )) by (nonlinear_arith);
            lemma_div_round_range(ps(*cfg, y0 as int), vs(*cfg, x0 as int), vs(*cfg, x as int));
        }
        let q = div_round_i64(n, d);
        out.push(Point { x, y: cfg.plot_bottom + q });
        x = x + 1;
    }
    proof {
        assert(out@[0].x == x0 + 0 && out@[0].y == iso_y(*cfg, x0 as int, y0 as int, x0 + 0));
        lemma_isothermal_through_state(*cfg, x0 as int, y0 as int);
        assert(out@[0] == (Point { x: x0, y: y0 }));
    }
    out
}

/// An adiabatic sample at height `y` from the floor fifth root is on
/// the curve and no further right than the state point.
proof fn lemma_adia_x_sample(cfg: Config, x0: int, y0: int, y: int, q: int, v: int)
    requires
        cfg.wf(),
        cfg.handle_in_range(x0, y0),
        y0 <= y <= cfg.plot_top,
        q == adia_const(cfg, x0, y0) / pow(ps(cfg, y), 3),
        0 <= v,
        pow(v, 5) <= q < pow(v + 1, 5),
    ensures
        adia_x_ok(cfg, x0, y0, y, cfg.plot_left + v),
        0 <= v <= vs(cfg, x0),
{
    let n = adia_const(cfg, x0, y0);
    let d = pow(ps(cfg, y), 3);
    let p0c = pow(ps(cfg, y0), 3);
    let v0q = pow(vs(cfg, x0), 5);
    vstd::arithmetic::power::lemma_pow_positive(ps(cfg, y), 3);
    vstd::arithmetic::power::lemma_pow_positive(ps(cfg, y0), 3);
    vstd::arithmetic::power::lemma_pow_positive(vs(cfg, x0), 5);
    vstd::arithmetic::div_mod::lemma_fundamental_div_mod(n, d);
    assert(pow(v, 5) * d <= n) by (nonlinear_arith)
        requires
            pow(v, 5) <= q,
            d > 0,
            n == d * q + n % d,
            0 <= n % d,
    ;
    assert(n < pow(v + 1, 5) * d) by (nonlinear_arith)
        requires
            q + 1 <= pow(v + 1, 5),
            d > 0,
            n == d * q + n % d,
            n % d < d,
    ;
    lemma_pow_base_monotone(ps(cfg, y0) as nat, ps(cfg, y) as nat, 3);
    vstd::arithmetic::power::lemma0_pow(5);
    lemma_pow_base_monotone(0, v as nat, 5);
    assert(pow(v, 5) * p0c <= n) by (nonlinear_arith)
        requires
            pow(v, 5) * d <= n,
            0 < p0c <= d,
            pow(v, 5) >= 0,
    ;
    if v > vs(cfg, x0) {
        lemma_pow_base_strict(vs(cfg, x0) as nat, v as nat, 5);
        assert(pow(v, 5) * p0c > v0q * p0c) by (nonlinear_arith)
            requires
                pow(v, 5) > v0q,
                p0c > 0,
        ;
        assert(false);
    }
}

/// An adiabatic sample at horizontal position `x` from the floor cube
/// root is on the curve and no higher than the state point.
proof fn lemma_adia_y_sample(cfg: Config, x0: int, y0: int, x: int, q: int, p: int)
    requires
        cfg.wf(),
        cfg.handle_in_range(x0, y0),
        x0 <= x <= cfg.plot_right,
        q == adia_const(cfg, x0, y0) / pow(vs(cfg, x), 5),
        0 <= p,
        pow(p, 3) <= q < pow(p + 1, 3),
    ensures
        adia_y_ok(cfg, x0, y0, x, cfg.plot_bottom + p),
        0 <= p <= ps(cfg, y0),
{
    let n = adia_const(cfg, x0, y0);
    let d = pow(vs(cfg, x), 5);
    let v0q = pow(vs(cfg, x0), 5);
    let p0c = pow(ps(cfg, y0), 3);
    vstd::arithmetic::power::lemma_pow_positive(vs(cfg, x), 5);
    vstd::arithmetic::power::lemma_pow_positive(vs(cfg, x0), 5);
    vstd::arithmetic::power::lemma_pow_positive(ps(cfg, y0), 3);
    vstd::arithmetic::div_mod::lemma_fundamental_div_mod(n, d);
    assert(pow(p, 3) * d <= n) by (nonlinear_arith)
        requires
            pow(p, 3) <= q,
            d > 0,
            n == d * q + n % d,
            0 <= n % d,
    ;
    assert(n < pow(p + 1, 3) * d) by (nonlinear_arith)
        requires
            q + 1 <= pow(p + 1, 3),
            d > 0,
            n == d * q + n % d,
            n % d < d,
    ;
    assert(pow(vs(cfg, x), 5) * pow(p, 3) <= n && n < pow(vs(cfg, x), 5) * pow(p + 1, 3))
        by (nonlinear_arith)
        requires
            pow(p, 3) * d <= n,
            n < pow(p + 1, 3) * d,
            d == pow(vs(cfg, x), 5),
    ;
    lemma_pow_base_monotone(vs(cfg, x0) as nat, vs(cfg, x) as nat, 5);
    vstd::arithmetic::power::lemma0_pow(3);
    lemma_pow_base_monotone(0, p as nat, 3);
    assert(pow(p, 3) * v0q <= n) by (nonlinear_arith)
        requires
            pow(p, 3) * d <= n,
            0 < v0q <= d,
            pow(p, 3) >= 0,
    ;
    if p > ps(cfg, y0) {
        lemma_pow_base_strict(ps(cfg, y0) as nat, p as nat, 3);
        assert(pow(p, 3) * v0q > p0c * v0q) by (nonlinear_arith)
            requires
                pow(p, 3) > p0c,
                v0q > 0,
        ;
        assert(n == v0q * p0c && p0c * v0q == v0q * p0c) by (nonlinear_arith)
            requires
                n == pow(vs(cfg, x0), 5) * pow(ps(cfg, y0), 3),
                v0q == pow(vs(cfg, x0), 5),
                p0c == pow(ps(cfg, y0), 3),
        ;
        assert(false);
    }
}

/// The adiabatic curve passes exactly through the state point: the only
/// bracketed position at the state point's own height is the state
/// point itself.
pub proof fn lemma_adiabatic_through_state(cfg: Config, x0: int, y0: int, x: int)
    requires
        cfg.wf(),
        cfg.handle_in_range(x0, y0),
        adia_x_ok(cfg, x0, y0, y0, x),
    ensures
        x == x0,
{
    let vsx = vs(cfg, x);
    let v0 = vs(cfg, x0);
    let p0c = pow(ps(cfg, y0), 3);
    vstd::arithmetic::power::lemma_pow_positive(ps(cfg, y0), 3);
    assert(pow(vsx, 5) <= pow(v0, 5) < pow(vsx + 1, 5)) by (nonlinear_arith)
        requires
            pow(vsx, 5) * p0c <= pow(v0, 5) * p0c,
            pow(v0, 5) * p0c < pow(vsx + 1, 5) * p0c,
            p0c > 0,
    ;
    lemma_root_of_power(vsx as nat, v0 as nat, 5);
}

/// The adiabatic curve's vertical branch: one point per screen unit
/// from the state point up to the plot's top edge, each bracketing
/// `V^5 * P^3 == V0^5 * P0^3` and none outside the plot.
#[verifier::loop_isolation(false)]
pub fn adiabatic_branch_y(cfg: &Config, x0: i64, y0: i64) -> (r: Vec<Point>)
    requires
        cfg.wf(),
        cfg.handle_in_range(x0 as int, y0 as int),
    ensures
        r@.len() == cfg.plot_top - y0 + 1,
        forall|i: int| 0 <= i < r@.len() ==> (#[trigger] r@[i]).y == y0 + i,
        forall|i: int|
            0 <= i < r@.len() ==> adia_x_ok(
                *cfg,
                x0 as int,
                y0 as int,
                y0 + i,
                (#[trigger] r@[i]).x as int,
            ),
        forall|i: int| 0 <= i < r@.len() ==> cfg.plot_left <= (#[trigger] r@[i]).x <= x0,
        r@[0] == (Point { x: x0, y: y0 }),
{
    let a5 = pow5_u128((x0 - cfg.plot_left) as u128);
    let p3 = pow3_u128((y0 - cfg.plot_bottom) as u128);
    proof {
        assert(a5 * p3 <= 0x1000_0000_0000_0000 * 0x10_0000_0000u128) by (nonlinear_arith)
            requires
                a5 <= 0x1000_0000_0000_0000,
                p3 <= 0x10_0000_0000,
        ;
    }
    let n = a5 * p3;
    let mut out: Vec<Point> = Vec::new();
    let mut y: i64 = y0;
    while y <= cfg.plot_top
        invariant
            y0 <= y <= cfg.plot_top + 1,
            n == adia_const(*cfg, x0 as int, y0 as int),
            n <= 0x1_0000_0000_0000_0000_0000_0000,
            out@.len() == y - y0,
            forall|i: int| 0 <= i < out@.len() ==> (#[trigger] out@[i]).y == y0 + i,
            forall|i: int|
                0 <= i < out@.len() ==> adia_x_ok(
                    *cfg,
                    x0 as int,
                    y0 as int,
                    y0 + i,
                    (#[trigger] out@[i]).x as int,
                ),
            forall|i: int| 0 <= i < out@.len() ==> cfg.plot_left <= (#[trigger] out@[i]).x <= x0,
        decreases cfg.plot_top + 1 - y,
    {
        let d3 = pow3_u128((y - cfg.plot_bottom) as u128);
        proof {
            vstd::arithmetic::power::lemma_pow_positive(ps(*cfg, y as int), 3);
        }
        let q = n / d3;
        let v128 = root_floor(q, 5);
        proof {
            lemma_adia_x_sample(
                *cfg,
                x0 as int,
                y0 as int,
                y as int,
                q as int,
                v128 as int,
            );
        }
        let v = v128 as i64;
        out.push(Point { x: cfg.plot_left + v, y });
        y = y + 1;
    }
    proof {
        assert(out@[0].y == y0 + 0 && adia_x_ok(
            *cfg,
            x0 as int,
            y0 as int,
            y0 + 0,
            out@[0].x as int,
        ));
        lemma_adiabatic_through_state(*cfg, x0 as int, y0 as int, out@[0].x as int);
        assert(out@[0] == (Point { x: x0, y: y0 }));
    }
    out
}

/// The adiabatic curve's horizontal branch: one point per screen unit
/// from the state point right to the plot's edge, each bracketing
/// `V^5 * P^3 == V0^5 * P0^3` and none outside the plot.
#[verifier::loop_isolation(false)]
pub fn adiabatic_branch_x(cfg: &Config, x0: i64, y0: i64) -> (r: Vec<Point>)
    requires
        cfg.wf(),
        cfg.handle_in_range(x0 as int, y0 as int),
    ensures
        r@.len() == cfg.plot_right - x0 + 1,
        forall|i: int| 0 <= i < r@.len() ==> (#[trigger] r@[i]).x == x0 + i,
        forall|i: int|
            0 <= i < r@.len() ==> adia_y_ok(
                *cfg,
                x0 as int,
                y0 as int,
                x0 + i,
                (#[trigger] r@[i]).y as int,
            ),
        forall|i: int| 0 <= i < r@.len() ==> cfg.plot_bottom <= (#[trigger] r@[i]).y <= y0,
{
    let a5 = pow5_u128((x0 - cfg.plot_left) as u128);
    let p3 = pow3_u128((y0 - cfg.plot_bottom) as u128);
    proof {
        assert(a5 * p3 <= 0x1000_0000_0000_0000 * 0x10_0000_0000u128) by (nonlinear_arith)
            requires
                a5 <= 0x1000_0000_0000_0000,
                p3 <= 0x10_0000_0000,
        ;
    }
    let n = a5 * p3;
    let mut out: Vec<Point> = Vec::new();
    let mut x: i64 = x0;
    while x <= cfg.plot_right
        invariant
            x0 <= x <= cfg.plot_right + 1,
            n == adia_const(*cfg, x0 as int, y0 as int),
            n <= 0x1_0000_0000_0000_0000_0000_0000,
            out@.len() == x - x0,
            forall|i: int| 0 <= i < out@.len() ==> (#[trigger] out@[i]).x == x0 + i,
            forall|i: int|
                0 <= i < out@.len() ==> adia_y_ok(
                    *cfg,
                    x0 as int,
                    y0 as int,
                    x0 + i,
                    (#[trigger] out@[i]).y as int,
                ),
            forall|i: int| 0 <= i < out@.len() ==> cfg.plot_bottom <= (#[trigger] out@[i]).y <= y0,
        decreases cfg.plot_right + 1 - x,
    {
        let d5 = pow5_u128((x - cfg.plot_left) as u128);
        proof {
            vstd::arithmetic::power::lemma_pow_positive(vs(*cfg, x as int), 5);
        }
        let q = n / d5;
        let p128 = root_floor(q, 3);
        proof {
            lemma_adia_y_sample(
                *cfg,
                x0 as int,
                y0 as int,
                x as int,
                q as int,
                p128 as int,
            );
        }
        let p = p128 as i64;
        out.push(Point { x, y: cfg.plot_bottom + p });
        x = x + 1;
    }
    out
}

} // verus!
