//! The running account of mechanical work, updated by trapezoidal
//! integration of `P * dV` as the control point moves.

use vstd::prelude::*;
use crate::config::Config;
use crate::state::{vs, ps};

verus! {

/// The fixed denominator of the work total: `2 * volume_scale *
/// pressure_scale`.  The factor 2 comes from the trapezoid rule.
pub open spec fn work_den(cfg: Config) -> int {
    2 * (cfg.volume_scale * cfg.pressure_scale)
}

/// Numerator of one trapezoidal work step over `work_den`:
/// `(P_old + P_new) / 2 * (V_new - V_old)`, positive when the gas
/// expands and does work, negative when it is compressed.
pub open spec fn work_delta_num(cfg: Config, x0: int, y0: int, x1: int, y1: int) -> int {
    (ps(cfg, y0) + ps(cfg, y1)) * (vs(cfg, x1) - vs(cfg, x0))
}

/// Running total of work done by the gas, as the numerator over the
/// fixed denominator `work_den`.
#[derive(Clone, Copy, Debug, PartialEq, Eq, Structural)]
pub struct WorkAccumulator {
    pub total_num: i64,
}

impl WorkAccumulator {
    /// A fresh accumulator holding zero work.
    pub fn new() -> (r: WorkAccumulator)
        ensures
            r.total_num == 0,
    {
        WorkAccumulator { total_num: 0 }
    }

    /// Adds one trapezoidal step for a control-point move from
    /// `(x0, y0)` to `(x1, y1)`.  A move that goes nowhere adds nothing.
    pub fn update(&mut self, cfg: &Config, x0: i64, y0: i64, x1: i64, y1: i64)
        requires
            cfg.wf(),
            cfg.handle_in_range(x0 as int, y0 as int),
            cfg.handle_in_range(x1 as int, y1 as int),
            i64::MIN <= old(self).total_num + work_delta_num(*cfg, x0 as int, y0 as int, x1 as int, y1 as int) <= i64::MAX,
        ensures
            final(self).total_num == old(self).total_num + work_delta_num(
                *cfg,
                x0 as int,
                y0 as int,
                x1 as int,
                y1 as int,
            ),
            x0 == x1 && y0 == y1 ==> final(self).total_num == old(self).total_num,
    {
        proof {
            lemma_work_delta_bounded(*cfg, x0 as int, y0 as int, x1 as int, y1 as int);
        }
        let p_sum = (y0 - cfg.plot_bottom) + (y1 - cfg.plot_bottom);
        let v_diff = x1 - x0;
        let delta = p_sum * v_diff;
        self.total_num = self.total_num + delta;
    }

    /// The accumulated work as an exact rational.
    pub fn total(&self, cfg: &Config) -> (r: crate::numeric::Frac)
        requires
            cfg.wf(),
        ensures
            r.num == self.total_num,
            r.den == work_den(*cfg),
            r.wf(),
    {
        proof {
            assert(0 < 2 * (cfg.volume_scale * cfg.pressure_scale) <= 200_000_000)
                by (nonlinear_arith)
                requires
                    1 <= cfg.volume_scale <= 10_000,
                    1 <= cfg.pressure_scale <= 10_000,
            ;
        }
        crate::numeric::Frac::new(self.total_num, 2 * (cfg.volume_scale * cfg.pressure_scale))
    }
}

/// One trapezoidal step is small: its numerator fits well inside `i64`.
pub proof fn lemma_work_delta_bounded(cfg: Config, x0: int, y0: int, x1: int, y1: int)
    requires
        cfg.wf(),
        cfg.handle_in_range(x0, y0),
        cfg.handle_in_range(x1, y1),
    ensures
        -0x8000_0000 <= work_delta_num(cfg, x0, y0, x1, y1) <= 0x8000_0000,
        x0 == x1 && y0 == y1 ==> work_delta_num(cfg, x0, y0, x1, y1) == 0,
{
    assert(-0x8000_0000 <= (ps(cfg, y0) + ps(cfg, y1)) * (vs(cfg, x1) - vs(cfg, x0))
        <= 0x8000_0000) by (nonlinear_arith)
        requires
            0 <= ps(cfg, y0) <= 4096,
            0 <= ps(cfg, y1) <= 4096,
            -4096 <= vs(cfg, x1) - vs(cfg, x0) <= 4096,
    ;
    if x0 == x1 && y0 == y1 {
        vstd::arithmetic::mul::lemma_mul_by_zero_is_zero(ps(cfg, y0) + ps(cfg, y1));
    }
}

/// At constant pressure, one work step is exactly the pressure times the
/// signed volume change: the trapezoid collapses to `P * (V1 - V0)`.
/// In particular a volume decrease at positive pressure lowers the total
/// (the surroundings do work on the gas) and an increase raises it.
pub proof fn lemma_work_constant_pressure(cfg: Config, x0: int, y0: int, x1: int)
    requires
        cfg.wf(),
        cfg.handle_in_range(x0, y0),
        cfg.handle_in_range(x1, y0),
    ensures
        work_delta_num(cfg, x0, y0, x1, y0) == 2 * (ps(cfg, y0) * (vs(cfg, x1) - vs(cfg, x0))),
        vs(cfg, x1) < vs(cfg, x0) ==> work_delta_num(cfg, x0, y0, x1, y0) < 0,
        vs(cfg, x1) > vs(cfg, x0) ==> work_delta_num(cfg, x0, y0, x1, y0) > 0,
{
    let p = ps(cfg, y0);
    let dv = vs(cfg, x1) - vs(cfg, x0);
    assert((p + p) * dv == 2 * (p * dv)) by (nonlinear_arith);
    assert(p >= 1);
    assert(dv < 0 ==> p * dv < 0) by (nonlinear_arith)
        requires
            p >= 1,
    ;
    assert(dv > 0 ==> p * dv > 0) by (nonlinear_arith)
        requires
            p >= 1,
    ;
}

} // verus!
