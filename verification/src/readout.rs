//! The readout: rounded temperature, accumulated work, and inferred
//! heat, and the display text built from them.

use vstd::prelude::*;
use crate::config::Config;
use crate::numeric::div_round;
use crate::state::{vs, ps};
use crate::work::work_den;

verus! {

/// Decimal digits of a nonnegative number, most significant first.
pub open spec fn dec_rep(n: int) -> Seq<u8>
    recommends
        n >= 0,
    decreases n,
{
    if n < 10 {
        seq![(48 + n) as u8]
    } else {
        dec_rep(n / 10).push((48 + n % 10) as u8)
    }
}

/// Decimal text of an integer, with a leading minus sign if negative.
pub open spec fn int_text(n: int) -> Seq<u8> {
    if n < 0 {
        seq![45u8].add(dec_rep(-n))
    } else {
        dec_rep(n)
    }
}

/// The three-line display text `T = <t> K`, `W = <w> J`, `Q = <q> J`.
pub open spec fn readout_seq(t: int, w: int, q: int) -> Seq<u8> {
    seq![84u8, 32u8, 61u8, 32u8].add(int_text(t)).add(seq![32u8, 75u8, 10u8]).add(
        seq![87u8, 32u8, 61u8, 32u8],
    ).add(int_text(w)).add(seq![32u8, 74u8, 10u8]).add(seq![81u8, 32u8, 61u8, 32u8]).add(
        int_text(q),
    ).add(seq![32u8, 74u8])
}

/// Rounded temperature of the control point: `V * P / (n * R)` to the
/// nearest whole unit.
pub open spec fn spec_temp_round(cfg: Config, x: int, y: int) -> int {
    div_round(vs(cfg, x) * ps(cfg, y) * cfg.gas_den, cfg.volume_scale * cfg.pressure_scale
        * cfg.gas_num)
}

/// Rounded accumulated work.
pub open spec fn spec_work_round(cfg: Config, work_num: int) -> int {
    div_round(work_num, work_den(cfg))
}

/// Rounded inferred heat `Q = U + W`, from the first law with `W` the
/// work done by the gas.
pub open spec fn spec_heat_round(cfg: Config, x: int, y: int, work_num: int) -> int {
    div_round(3 * (vs(cfg, x) * ps(cfg, y)) + work_num, work_den(cfg))
}

/// Computes the three rounded readout values: temperature, work, heat.
pub fn readout_values(cfg: &Config, x: i64, y: i64, work_num: i64) -> (r: (i64, i64, i64))
    requires
        cfg.wf(),
        cfg.plot_left <= x <= cfg.plot_right,
        cfg.plot_bottom <= y <= cfg.plot_top,
        -0x1000_0000_0000_0000 <= work_num <= 0x1000_0000_0000_0000,
    ensures
        r.0 == spec_temp_round(*cfg, x as int, y as int),
        r.1 == spec_work_round(*cfg, work_num as int),
        r.2 == spec_heat_round(*cfg, x as int, y as int, work_num as int),
{
    proof {
        crate::state::lemma_state_products_bounded(*cfg, x as int, y as int);
    }
    let tn = (x - cfg.plot_left) * (y - cfg.plot_bottom) * cfg.gas_den;
    let td = cfg.volume_scale * cfg.pressure_scale * cfg.gas_num;
    let t = crate::numeric::div_round_i64(tn, td);
    let wd = 2 * (cfg.volume_scale * cfg.pressure_scale);
    let w = crate::numeric::div_round_i64(work_num, wd);
    let qn = 3 * ((x - cfg.plot_left) * (y - cfg.plot_bottom)) + work_num;
    let q = crate::numeric::div_round_i64(qn, wd);
    (t, w, q)
}

/// Appends the decimal digits of `n`, most significant first.
pub fn push_dec(out: &mut Vec<u8>, n: u64)
    ensures
        final(out)@ == old(out)@.add(dec_rep(n as int)),
    decreases n,
{
    if n < 10 {
        out.push(48 + n as u8);
        proof {
            assert(out@ =~= old(out)@.add(dec_rep(n as int)));
        }
    } else {
        proof {
            vstd::arithmetic::div_mod::lemma_div_is_strictly_smaller(n as int, 10);
            vstd::arithmetic::div_mod::lemma_div_pos_is_pos(n as int, 10);
        }
        push_dec(out, n / 10);
        out.push(48 + (n % 10) as u8);
        proof {
            assert(out@ =~= old(out)@.add(dec_rep(n as int)));
        }
    }
}

/// Appends the decimal text of `n`, with a sign when negative.
pub fn push_int(out: &mut Vec<u8>, n: i64)
    requires
        n > i64::MIN,
    ensures
        final(out)@ == old(out)@.add(int_text(n as int)),
{
    if n < 0 {
        out.push(45);
        push_dec(out, (-n) as u64);
        proof {
            assert(out@ =~= old(out)@.add(int_text(n as int)));
        }
    } else {
        push_dec(out, n as u64);
    }
}

/// Builds the display text for rounded temperature `t`, work `w`, and
/// heat `q`, as the bytes of `T = <t> K`, `W = <w> J`, `Q = <q> J` on
/// three lines.
pub fn readout_text(t: i64, w: i64, q: i64) -> (r: Vec<u8>)
    requires
        t > i64::MIN,
        w > i64::MIN,
        q > i64::MIN,
    ensures
        r@ == readout_seq(t as int, w as int, q as int),
{
    let mut out: Vec<u8> = Vec::new();
    out.push(84);
    out.push(32);
    out.push(61);
    out.push(32);
    push_int(&mut out, t);
    out.push(32);
    out.push(75);
    out.push(10);
    out.push(87);
    out.push(32);
    out.push(61);
    out.push(32);
    push_int(&mut out, w);
    out.push(32);
    out.push(74);
    out.push(10);
    out.push(81);
    out.push(32);
    out.push(61);
    out.push(32);
    push_int(&mut out, q);
    out.push(32);
    out.push(74);
    proof {
        assert(out@ =~= readout_seq(t as int, w as int, q as int));
    }
    out
}

} // verus!
