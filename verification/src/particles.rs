//! The particle population: its kinetic-energy measure, the relocator
//! that reseeds particles left outside a shrunk box, and the rescaler
//! that keeps kinetic energy on the commanded internal energy.

use vstd::prelude::*;
use vstd::pervasive::VecAdditionalExecFns;
use crate::config::Config;
use crate::rng::rng_range;

verus! {

/// Largest velocity component magnitude a well-formed particle can have.
pub const V_LIMIT: i64 = 0x8000_0000;

/// A gas particle: position and velocity on the integer grid.
/// Velocities are in grid units per second.
#[derive(Clone, Copy, Debug, PartialEq, Eq, Structural)]
pub struct Particle {
    pub x: i64,
    pub y: i64,
    pub vx: i64,
    pub vy: i64,
}

impl Particle {
    /// Velocity components stay within the rescaler's working range.
    pub open spec fn wf(self) -> bool {
        &&& -V_LIMIT <= self.vx <= V_LIMIT
        &&& -V_LIMIT <= self.vy <= V_LIMIT
    }
}

/// Every particle of the collection is well formed.
pub open spec fn all_wf(s: Seq<Particle>) -> bool {
    forall|i: int| 0 <= i < s.len() ==> (#[trigger] s[i]).wf()
}

/// The summed squared speed `sum |v_i|^2` of the collection.  Kinetic
/// energy is `mass / 2` times this; the constant factor lives in the
/// configuration's rescale ratio.
pub open spec fn ke2(s: Seq<Particle>) -> int
    decreases s.len(),
{
    if s.len() == 0 {
        0
    } else {
        ke2(s.drop_last()) + s.last().vx * s.last().vx + s.last().vy * s.last().vy
    }
}

/// The summed squared speed is never negative.
pub proof fn lemma_ke2_nonneg(s: Seq<Particle>)
    ensures
        ke2(s) >= 0,
    decreases s.len(),
{
    if s.len() > 0 {
        lemma_ke2_nonneg(s.drop_last());
        assert(s.last().vx * s.last().vx >= 0) by (nonlinear_arith);
        assert(s.last().vy * s.last().vy >= 0) by (nonlinear_arith);
    }
}

/// One particle's squared speed never exceeds the collection's total.
pub proof fn lemma_ke2_elem(s: Seq<Particle>, i: int)
    requires
        0 <= i < s.len(),
    ensures
        s[i].vx * s[i].vx + s[i].vy * s[i].vy <= ke2(s),
        s[i].vx * s[i].vx <= ke2(s),
        s[i].vy * s[i].vy <= ke2(s),
    decreases s.len(),
{
    assert(s[i].vx * s[i].vx >= 0) by (nonlinear_arith);
    assert(s[i].vy * s[i].vy >= 0) by (nonlinear_arith);
    if i == s.len() - 1 {
        lemma_ke2_nonneg(s.drop_last());
    } else {
        lemma_ke2_elem(s.drop_last(), i);
        assert(s.drop_last()[i] == s[i]);
        assert(s.last().vx * s.last().vx >= 0) by (nonlinear_arith);
        assert(s.last().vy * s.last().vy >= 0) by (nonlinear_arith);
    }
}

/// Computes the collection's summed squared speed.
#[verifier::loop_isolation(false)]
pub fn total_speed_sq(parts: &Vec<Particle>) -> (r: u128)
    requires
        all_wf(parts@),
        parts@.len() <= 0x1_0000_0000,
    ensures
        r == ke2(parts@),
{
    let mut acc: u128 = 0;
    let mut i: usize = 0;
    proof {
        assert(parts@.take(0) =~= Seq::<Particle>::empty());
    }
    while i < parts.len()
        invariant
            0 <= i <= parts@.len(),
            acc == ke2(parts@.take(i as int)),
            acc <= i * 0x1_0000_0000_0000_0000,
        decreases parts@.len() - i,
    {
        let p = parts[i];
        let vx = p.vx as i128;
        let vy = p.vy as i128;
        proof {
            assert(0 <= vx * vx <= 0x4000_0000_0000_0000 && 0 <= vy * vy
                <= 0x4000_0000_0000_0000) by (nonlinear_arith)
                requires
                    -0x8000_0000 <= vx <= 0x8000_0000,
                    -0x8000_0000 <= vy <= 0x8000_0000,
            ;
        }
        let sq = (vx * vx + vy * vy) as u128;
        proof {
            assert(parts@.take(i + 1).drop_last() =~= parts@.take(i as int));
            assert(parts@.take(i + 1).last() == parts@[i as int]);
            assert((i + 1) * 0x1_0000_0000_0000_0000 == i * 0x1_0000_0000_0000_0000
                + 0x1_0000_0000_0000_0000) by (nonlinear_arith);
        }
        acc = acc + sq;
        i = i + 1;
    }
    proof {
        assert(parts@.take(parts@.len() as int) =~= parts@);
    }
    acc
}

/// Denominator of the fixed-point velocity scale factor.
pub const SCALE_DEN: u64 = 0x1_0000;

/// `s / SCALE_DEN` is the right velocity scale for reaching `target2`
/// from `current2`: the floor of `SCALE_DEN * sqrt(target2 / current2)`.
pub open spec fn is_scale(s: int, target2: int, current2: int) -> bool {
    &&& 0 <= s
    &&& s * s * current2 <= target2 * ((SCALE_DEN as int) * (SCALE_DEN as int))
    &&& target2 * ((SCALE_DEN as int) * (SCALE_DEN as int)) < (s + 1) * (s + 1) * current2
}

/// A velocity component scaled by `s / SCALE_DEN`, truncated toward
/// zero so that scaling never gains energy over the exact value.
pub open spec fn scale_v(v: int, s: int) -> int {
    if v >= 0 {
        (v * s) / (SCALE_DEN as int)
    } else {
        -(((-v) * s) / (SCALE_DEN as int))
    }
}

/// Scaling shrinks the square against the exact product:
/// `scale_v(v, s)^2 * SCALE_DEN^2 <= v^2 * s^2`.
pub proof fn lemma_scale_v_sq(v: int, s: int)
    requires
        s >= 0,
    ensures
        scale_v(v, s) * scale_v(v, s) * ((SCALE_DEN as int) * (SCALE_DEN as int)) <= (v * v) * (s
            * s),
{
    let sd = SCALE_DEN as int;
    let m = if v >= 0 { v } else { -v };
    assert(m * s >= 0) by (nonlinear_arith)
        requires
            m >= 0,
            s >= 0,
    ;
    let q = (m * s) / sd;
    vstd::arithmetic::div_mod::lemma_div_pos_is_pos(m * s, sd);
    vstd::arithmetic::div_mod::lemma_fundamental_div_mod(m * s, sd);
    assert(q * sd <= m * s) by (nonlinear_arith)
        requires
            m * s == sd * q + (m * s) % sd,
            0 <= (m * s) % sd,
    ;
    assert((q * sd) * (q * sd) <= (m * s) * (m * s)) by (nonlinear_arith)
        requires
            0 <= q * sd <= m * s,
    ;
    assert(scale_v(v, s) * scale_v(v, s) == q * q) by (nonlinear_arith)
        requires
            scale_v(v, s) == q || scale_v(v, s) == -q,
    ;
    assert(q * q * (sd * sd) == (q * sd) * (q * sd)) by (nonlinear_arith);
    assert((m * s) * (m * s) == (m * m) * (s * s)) by (nonlinear_arith);
    assert(m * m == v * v) by (nonlinear_arith)
        requires
            m == v || m == -v,
    ;
}

/// Computes the fixed-point scale factor `sqrt(target2 / current2)`,
/// as the floor of `SCALE_DEN` times the real square root.
pub fn rescale_factor(target2: u128, current2: u128) -> (s: u64)
    requires
        1 <= current2,
        target2 <= 0x4000_0000_0000_0000,
    ensures
        is_scale(s as int, target2 as int, current2 as int),
        s <= 0x8000_0000_0000,
{
    let sd2: u128 = (SCALE_DEN as u128) * (SCALE_DEN as u128);
    let q = target2 * sd2 / current2;
    let s128 = crate::numeric::root_floor(q, 2);
    proof {
        vstd::arithmetic::power::lemma_pow0(s128 as int);
        vstd::arithmetic::power::lemma_pow1(s128 as int);
        assert(vstd::arithmetic::power::pow(s128 as int, 2) == s128 * s128) by {
            vstd::arithmetic::power::lemma_pow_adds(s128 as int, 1, 1);
        }
        assert(vstd::arithmetic::power::pow((s128 + 1) as int, 2) == (s128 + 1) * (s128 + 1)) by {
            vstd::arithmetic::power::lemma_pow1((s128 + 1) as int);
            vstd::arithmetic::power::lemma_pow_adds((s128 + 1) as int, 1, 1);
        }
        let n: int = (target2 as int) * (sd2 as int);
        let c: int = current2 as int;
        let qi: int = q as int;
        assert(qi == n / c);
        vstd::arithmetic::div_mod::lemma_fundamental_div_mod(n, c);
        assert((s128 * s128) * c <= n) by (nonlinear_arith)
            requires
                s128 * s128 <= qi,
                c >= 1,
                n == c * qi + n % c,
                0 <= n % c,
        ;
        assert(n < ((s128 + 1) * (s128 + 1)) * c) by (nonlinear_arith)
            requires
                qi + 1 <= (s128 + 1) * (s128 + 1),
                c >= 1,
                n == c * qi + n % c,
                n % c < c,
        ;
        assert(qi <= n) by (nonlinear_arith)
            requires
                n == c * qi + n % c,
                c >= 1,
                0 <= n % c,
                qi >= 0,
        ;
        assert(n <= 0x4000_0000_0000_0000_0000_0000) by (nonlinear_arith)
            requires
                n == (target2 as int) * (sd2 as int),
                0 <= target2 <= 0x4000_0000_0000_0000,
                sd2 == 0x1_0000_0000,
        ;
        assert(s128 <= 0x8000_0000_0000) by (nonlinear_arith)
            requires
                s128 * s128 <= qi,
                qi <= 0x4000_0000_0000_0000_0000_0000,
        ;
        assert(n == (target2 as int) * ((SCALE_DEN as int) * (SCALE_DEN as int)));
    }
    s128 as u64
}

/// Scales one velocity component by `s / SCALE_DEN`, truncating toward
/// zero.
pub fn scale_component(v: i64, s: u64) -> (r: i64)
    requires
        -V_LIMIT <= v <= V_LIMIT,
        s <= 0x8000_0000_0000,
    ensures
        r == scale_v(v as int, s as int),
{
    let m: i128 = if v >= 0 {
        v as i128
    } else {
        (-v) as i128
    };
    proof {
        assert(0 <= m * (s as i128) <= 0x4000_0000_0000_0000_0000) by (nonlinear_arith)
            requires
                0 <= m <= 0x8000_0000,
                0 <= s <= 0x8000_0000_0000,
        ;
    }
    let prod = m * (s as i128);
    let q = prod / 0x1_0000;
    proof {
        vstd::arithmetic::div_mod::lemma_div_pos_is_pos(prod as int, 0x1_0000);
        vstd::arithmetic::div_mod::lemma_fundamental_div_mod(prod as int, 0x1_0000);
        assert(prod / 0x1_0000 <= 0x4000_0000_0000_0000) by (nonlinear_arith)
            requires
                prod == 0x1_0000 * (prod / 0x1_0000) + prod % 0x1_0000,
                0 <= prod % 0x1_0000,
                0 <= prod <= 0x4000_0000_0000_0000_0000,
        ;
    }
    if v >= 0 {
        q as i64
    } else {
        -(q as i64)
    }
}

/// Scales every velocity component by `s / SCALE_DEN`; positions are
/// untouched.
#[verifier::loop_isolation(false)]
pub fn apply_scale(parts: &mut Vec<Particle>, s: u64)
    requires
        all_wf(old(parts)@),
        s <= 0x8000_0000_0000,
    ensures
        final(parts)@.len() == old(parts)@.len(),
        forall|i: int|
            0 <= i < old(parts)@.len() ==> (#[trigger] final(parts)@[i]).x == old(parts)@[i].x
                && final(parts)@[i].y == old(parts)@[i].y,
        forall|i: int|
            0 <= i < old(parts)@.len() ==> (#[trigger] final(parts)@[i]).vx == scale_v(
                old(parts)@[i].vx as int,
                s as int,
            ) && final(parts)@[i].vy == scale_v(old(parts)@[i].vy as int, s as int),
{
    let mut idx: usize = 0;
    while idx < parts.len()
        invariant
            0 <= idx <= parts@.len(),
            parts@.len() == old(parts)@.len(),
            forall|i: int| idx <= i < parts@.len() ==> #[trigger] parts@[i] == old(parts)@[i],
            forall|i: int|
                0 <= i < idx ==> (#[trigger] parts@[i]).x == old(parts)@[i].x && parts@[i].y == old(
                    parts,
                )@[i].y,
            forall|i: int|
                0 <= i < idx ==> (#[trigger] parts@[i]).vx == scale_v(
                    old(parts)@[i].vx as int,
                    s as int,
                ) && parts@[i].vy == scale_v(old(parts)@[i].vy as int, s as int),
        decreases parts@.len() - idx,
    {
        let p = parts[idx];
        let nvx = scale_component(p.vx, s);
        let nvy = scale_component(p.vy, s);
        parts.set(idx, Particle { x: p.x, y: p.y, vx: nvx, vy: nvy });
        idx = idx + 1;
    }
}

/// Scaling a whole collection multiplies its summed squared speed by at
/// most `(s / SCALE_DEN)^2`.
pub proof fn lemma_scaled_ke2_bound(olds: Seq<Particle>, news: Seq<Particle>, s: int)
    requires
        news.len() == olds.len(),
        s >= 0,
        forall|i: int|
            0 <= i < olds.len() ==> (#[trigger] news[i]).vx == scale_v(olds[i].vx as int, s)
                && news[i].vy == scale_v(olds[i].vy as int, s),
    ensures
        ((SCALE_DEN as int) * (SCALE_DEN as int)) * ke2(news) <= (s * s) * ke2(olds),
    decreases olds.len(),
{
    let sd2 = (SCALE_DEN as int) * (SCALE_DEN as int);
    if olds.len() == 0 {
        assert(sd2 * 0 == 0) by (nonlinear_arith);
        assert(s * s * 0 == 0) by (nonlinear_arith);
    } else {
        let od = olds.drop_last();
        let nd = news.drop_last();
        assert(forall|i: int|
            0 <= i < od.len() ==> (#[trigger] nd[i]).vx == scale_v(od[i].vx as int, s) && nd[i].vy
                == scale_v(od[i].vy as int, s)) by {
            assert(forall|i: int| 0 <= i < od.len() ==> #[trigger] nd[i] == news[i]);
            assert(forall|i: int| 0 <= i < od.len() ==> #[trigger] od[i] == olds[i]);
        }
        lemma_scaled_ke2_bound(od, nd, s);
        let ol = olds.last();
        let nl = news.last();
        lemma_scale_v_sq(ol.vx as int, s);
        lemma_scale_v_sq(ol.vy as int, s);
        assert(nl.vx == scale_v(ol.vx as int, s) && nl.vy == scale_v(ol.vy as int, s));
        assert(sd2 * (ke2(nd) + nl.vx * nl.vx + nl.vy * nl.vy) <= (s * s) * (ke2(od) + ol.vx
            * ol.vx + ol.vy * ol.vy)) by (nonlinear_arith)
            requires
                sd2 * ke2(nd) <= (s * s) * ke2(od),
                nl.vx * nl.vx * sd2 <= (ol.vx * ol.vx) * (s * s),
                nl.vy * nl.vy * sd2 <= (ol.vy * ol.vy) * (s * s),
        ;
    }
}

/// Summed squared speed padded by one unit per component:
/// `sum (|vx| + 1)^2 + (|vy| + 1)^2`.  Because the rescaler truncates
/// each component, this padded total is what bounds the target from
/// above: the energy lost to truncation is below the padding.
pub open spec fn ke2_pad(s: Seq<Particle>) -> int
    decreases s.len(),
{
    if s.len() == 0 {
        0
    } else {
        ke2_pad(s.drop_last()) + (vstd::math::abs(s.last().vx as int) + 1) * (vstd::math::abs(
            s.last().vx as int,
        ) + 1) + (vstd::math::abs(s.last().vy as int) + 1) * (vstd::math::abs(s.last().vy as int)
            + 1)
    }
}

/// Truncation loses less than one scale unit per component:
/// `v^2 * s^2 < (|scale_v(v, s)| + 1)^2 * SCALE_DEN^2`.
pub proof fn lemma_scale_v_pad(v: int, s: int)
    requires
        s >= 0,
    ensures
        (v * v) * (s * s) < ((vstd::math::abs(scale_v(v, s)) + 1) * (vstd::math::abs(
            scale_v(v, s),
        ) + 1)) * ((SCALE_DEN as int) * (SCALE_DEN as int)),
{
    let sd = SCALE_DEN as int;
    let m = if v >= 0 { v } else { -v };
    assert(m * s >= 0) by (nonlinear_arith)
        requires
            m >= 0,
            s >= 0,
    ;
    let q = (m * s) / sd;
    vstd::arithmetic::div_mod::lemma_div_pos_is_pos(m * s, sd);
    vstd::arithmetic::div_mod::lemma_fundamental_div_mod(m * s, sd);
    assert(m * s < (q + 1) * sd) by (nonlinear_arith)
        requires
            m * s == sd * q + (m * s) % sd,
            (m * s) % sd < sd,
    ;
    assert((m * s) * (m * s) < ((q + 1) * sd) * ((q + 1) * sd)) by (nonlinear_arith)
        requires
            0 <= m * s < (q + 1) * sd,
    ;
    assert(scale_v(v, s) == q || scale_v(v, s) == -q);
    assert(vstd::math::abs(scale_v(v, s)) == q);
    assert(((q + 1) * sd) * ((q + 1) * sd) == ((q + 1) * (q + 1)) * (sd * sd))
        by (nonlinear_arith);
    assert((m * s) * (m * s) == (m * m) * (s * s)) by (nonlinear_arith);
    assert(m * m == v * v) by (nonlinear_arith)
        requires
            m == v || m == -v,
    ;
}

/// Scaling a whole collection loses less than the one-unit padding:
/// `s^2 * ke2(old) <= SCALE_DEN^2 * ke2_pad(new)`.
pub proof fn lemma_scaled_ke2_lower(olds: Seq<Particle>, news: Seq<Particle>, s: int)
    requires
        news.len() == olds.len(),
        s >= 0,
        forall|i: int|
            0 <= i < olds.len() ==> (#[trigger] news[i]).vx == scale_v(olds[i].vx as int, s)
                && news[i].vy == scale_v(olds[i].vy as int, s),
    ensures
        (s * s) * ke2(olds) <= ((SCALE_DEN as int) * (SCALE_DEN as int)) * ke2_pad(news),
    decreases olds.len(),
{
    let sd2 = (SCALE_DEN as int) * (SCALE_DEN as int);
    if olds.len() == 0 {
        assert(sd2 * 0 == 0) by (nonlinear_arith);
        assert(s * s * 0 == 0) by (nonlinear_arith);
    } else {
        let od = olds.drop_last();
        let nd = news.drop_last();
        assert(forall|i: int|
            0 <= i < od.len() ==> (#[trigger] nd[i]).vx == scale_v(od[i].vx as int, s) && nd[i].vy
                == scale_v(od[i].vy as int, s)) by {
            assert(forall|i: int| 0 <= i < od.len() ==> #[trigger] nd[i] == news[i]);
            assert(forall|i: int| 0 <= i < od.len() ==> #[trigger] od[i] == olds[i]);
        }
        lemma_scaled_ke2_lower(od, nd, s);
        let ol = olds.last();
        let nl = news.last();
        lemma_scale_v_pad(ol.vx as int, s);
        lemma_scale_v_pad(ol.vy as int, s);
        assert(nl.vx == scale_v(ol.vx as int, s) && nl.vy == scale_v(ol.vy as int, s));
        assert((s * s) * (ke2(od) + ol.vx * ol.vx + ol.vy * ol.vy) <= sd2 * (ke2_pad(nd) + (
        vstd::math::abs(nl.vx as int) + 1) * (vstd::math::abs(nl.vx as int) + 1) + (
        vstd::math::abs(nl.vy as int) + 1) * (vstd::math::abs(nl.vy as int) + 1)))
            by (nonlinear_arith)
            requires
                (s * s) * ke2(od) <= sd2 * ke2_pad(nd),
                (ol.vx * ol.vx) * (s * s) < ((vstd::math::abs(nl.vx as int) + 1) * (
                vstd::math::abs(nl.vx as int) + 1)) * sd2,
                (ol.vy * ol.vy) * (s * s) < ((vstd::math::abs(nl.vy as int) + 1) * (
                vstd::math::abs(nl.vy as int) + 1)) * sd2,
        ;
    }
}

/// The energy rescaler: with a live collection, scales every velocity
/// by `sqrt(target2 / current2)` in fixed point, so the new summed
/// squared speed never overshoots `target2`, and the shortfall stays
/// below the one-unit-per-component truncation padding; with all
/// particles at rest (`ke2 == 0`) it changes nothing, guarding the
/// undefined scale.
#[verifier::loop_isolation(false)]
pub fn rescale_energy(parts: &mut Vec<Particle>, target2: u128)
    requires
        all_wf(old(parts)@),
        old(parts)@.len() <= 0x1_0000_0000,
        target2 <= 0x4000_0000_0000_0000,
    ensures
        final(parts)@.len() == old(parts)@.len(),
        forall|i: int|
            0 <= i < old(parts)@.len() ==> (#[trigger] final(parts)@[i]).x == old(parts)@[i].x
                && final(parts)@[i].y == old(parts)@[i].y,
        ke2(old(parts)@) == 0 ==> final(parts)@ == old(parts)@,
        ke2(old(parts)@) > 0 ==> ke2(final(parts)@) <= target2,
        ke2(old(parts)@) > 0 ==> exists|s: int|
            is_scale(s, target2 as int, ke2(old(parts)@)) && (forall|i: int|
                0 <= i < old(parts)@.len() ==> (#[trigger] final(parts)@[i]).vx == scale_v(
                    old(parts)@[i].vx as int,
                    s,
                ) && final(parts)@[i].vy == scale_v(old(parts)@[i].vy as int, s)) && (
            target2 as int) * ((SCALE_DEN as int) * (SCALE_DEN as int)) < ((SCALE_DEN as int) * (
            SCALE_DEN as int)) * ke2_pad(final(parts)@) + (2 * s + 1) * ke2(old(parts)@),
        all_wf(final(parts)@),
{
    let current = total_speed_sq(parts);
    if current == 0 {
        proof {
            assert(final(parts)@ =~= old(parts)@);
        }
        return ;
    }
    proof {
        lemma_ke2_nonneg(parts@);
    }
    let s = rescale_factor(target2, current);
    apply_scale(parts, s);
    proof {
        let sd2 = (SCALE_DEN as int) * (SCALE_DEN as int);
        let c = ke2(old(parts)@);
        lemma_scaled_ke2_bound(old(parts)@, parts@, s as int);
        lemma_scaled_ke2_lower(old(parts)@, parts@, s as int);
        assert((target2 as int) * sd2 < sd2 * ke2_pad(parts@) + (2 * (s as int) + 1) * c)
            by (nonlinear_arith)
            requires
                (target2 as int) * sd2 < ((s as int) + 1) * ((s as int) + 1) * c,
                ((s as int) * (s as int)) * c <= sd2 * ke2_pad(parts@),
        ;
        assert(ke2(parts@) <= target2) by (nonlinear_arith)
            requires
                sd2 * ke2(parts@) <= ((s as int) * (s as int)) * c,
                (s as int) * (s as int) * c <= (target2 as int) * sd2,
                sd2 > 0,
        ;
        assert forall|i: int| 0 <= i < parts@.len() implies (#[trigger] parts@[i]).wf() by {
            lemma_ke2_elem(old(parts)@, i);
            lemma_scale_v_sq(old(parts)@[i].vx as int, s as int);
            lemma_scale_v_sq(old(parts)@[i].vy as int, s as int);
            let nvx = parts@[i].vx as int;
            let nvy = parts@[i].vy as int;
            let ovx = old(parts)@[i].vx as int;
            let ovy = old(parts)@[i].vy as int;
            assert(nvx * nvx <= target2 && nvy * nvy <= target2) by (nonlinear_arith)
                requires
                    nvx * nvx * sd2 <= (ovx * ovx) * ((s as int) * (s as int)),
                    nvy * nvy * sd2 <= (ovy * ovy) * ((s as int) * (s as int)),
                    ovx * ovx <= c,
                    ovy * ovy <= c,
                    (s as int) * (s as int) * c <= (target2 as int) * sd2,
                    (s as int) * (s as int) >= 0,
                    sd2 > 0,
            ;
            assert(-V_LIMIT <= nvx <= V_LIMIT && -V_LIMIT <= nvy <= V_LIMIT)
                by (nonlinear_arith)
                requires
                    nvx * nvx <= 0x4000_0000_0000_0000,
                    nvy * nvy <= 0x4000_0000_0000_0000,
                    V_LIMIT == 0x8000_0000,
            ;
        }
    }
}

/// Collections with the same velocities have the same summed squared
/// speed, whatever their positions.
pub proof fn lemma_ke2_velocities(a: Seq<Particle>, b: Seq<Particle>)
    requires
        a.len() == b.len(),
        forall|i: int|
            0 <= i < a.len() ==> (#[trigger] b[i]).vx == a[i].vx && b[i].vy == a[i].vy,
    ensures
        ke2(b) == ke2(a),
    decreases a.len(),
{
    if a.len() > 0 {
        let ad = a.drop_last();
        let bd = b.drop_last();
        assert(forall|i: int|
            0 <= i < ad.len() ==> (#[trigger] bd[i]).vx == ad[i].vx && bd[i].vy == ad[i].vy) by {
            assert(forall|i: int| 0 <= i < ad.len() ==> #[trigger] bd[i] == b[i]);
            assert(forall|i: int| 0 <= i < ad.len() ==> #[trigger] ad[i] == a[i]);
        }
        lemma_ke2_velocities(ad, bd);
        assert(b.last().vx == a.last().vx && b.last().vy == a.last().vy);
    }
}

/// The particle counts as inside the box when it is within the box
/// walls and left of the piston's inner face, as the relocator tests it.
pub open spec fn inside_box(cfg: Config, handle_x: int, p: Particle) -> bool {
    &&& p.x >= cfg.box_left
    &&& p.x <= handle_x - cfg.wall_thickness / 2
    &&& p.y >= cfg.box_bottom
    &&& p.y <= cfg.box_top
}

/// Lowest x a relocated particle can receive.
pub open spec fn interior_x_lo(cfg: Config) -> int {
    cfg.box_left + cfg.wall_thickness + cfg.particle_radius
}

/// Exclusive upper x bound for a relocated particle.
pub open spec fn interior_x_hi(cfg: Config, handle_x: int) -> int {
    handle_x - cfg.wall_thickness / 2 - cfg.particle_radius
}

/// Lowest y a relocated particle can receive.
pub open spec fn interior_y_lo(cfg: Config) -> int {
    cfg.box_bottom + cfg.wall_thickness + cfg.particle_radius
}

/// Exclusive upper y bound for a relocated particle.
pub open spec fn interior_y_hi(cfg: Config) -> int {
    cfg.box_top - cfg.wall_thickness - cfg.particle_radius
}

/// The particle sits strictly inside the box interior, inset by the
/// wall thickness and the particle radius.
pub open spec fn in_interior(cfg: Config, handle_x: int, p: Particle) -> bool {
    &&& interior_x_lo(cfg) <= p.x < interior_x_hi(cfg, handle_x)
    &&& interior_y_lo(cfg) <= p.y < interior_y_hi(cfg)
}

/// A particle in the inset interior is inside the box.
pub proof fn lemma_interior_inside(cfg: Config, handle_x: int, p: Particle)
    requires
        cfg.wf(),
        in_interior(cfg, handle_x, p),
    ensures
        inside_box(cfg, handle_x, p),
{
}

/// Relocates every particle that lies outside the current box interior
/// to a fresh position inside it; particles already inside, and all
/// velocities, are left untouched.  Afterwards every particle is inside
/// the box, so a second pass with the same piston position changes
/// nothing.
#[verifier::loop_isolation(false)]
pub fn relocate_particles(
    cfg: &Config,
    handle_x: i64,
    parts: &mut Vec<Particle>,
    rng: &mut rand::rngs::StdRng,
)
    requires
        cfg.wf(),
        cfg.handle_min_x() <= handle_x <= cfg.handle_max_x(),
    ensures
        final(parts)@.len() == old(parts)@.len(),
        forall|i: int|
            0 <= i < old(parts)@.len() && inside_box(*cfg, handle_x as int, old(parts)@[i])
                ==> final(parts)@[i] == old(parts)@[i],
        forall|i: int|
            0 <= i < old(parts)@.len() && !inside_box(*cfg, handle_x as int, old(parts)@[i])
                ==> in_interior(*cfg, handle_x as int, #[trigger] final(parts)@[i]),
        forall|i: int|
            0 <= i < old(parts)@.len() ==> (#[trigger] final(parts)@[i]).vx == old(parts)@[i].vx
                && final(parts)@[i].vy == old(parts)@[i].vy,
        forall|i: int|
            0 <= i < final(parts)@.len() ==> inside_box(
                *cfg,
                handle_x as int,
                #[trigger] final(parts)@[i],
            ),
{
    let x_lo = cfg.box_left + cfg.wall_thickness + cfg.particle_radius;
    let x_hi = handle_x - cfg.wall_thickness / 2 - cfg.particle_radius;
    let y_lo = cfg.box_bottom + cfg.wall_thickness + cfg.particle_radius;
    let y_hi = cfg.box_top - cfg.wall_thickness - cfg.particle_radius;
    let mut idx: usize = 0;
    while idx < parts.len()
        invariant
            0 <= idx <= parts@.len(),
            parts@.len() == old(parts)@.len(),
            x_lo == interior_x_lo(*cfg),
            x_hi == interior_x_hi(*cfg, handle_x as int),
            y_lo == interior_y_lo(*cfg),
            y_hi == interior_y_hi(*cfg),
            forall|i: int|
                idx <= i < parts@.len() ==> #[trigger] parts@[i] == old(parts)@[i],
            forall|i: int|
                0 <= i < idx && inside_box(*cfg, handle_x as int, old(parts)@[i])
                    ==> parts@[i] == old(parts)@[i],
            forall|i: int|
                0 <= i < idx && !inside_box(*cfg, handle_x as int, old(parts)@[i])
                    ==> in_interior(*cfg, handle_x as int, #[trigger] parts@[i]),
            forall|i: int|
                0 <= i < idx ==> (#[trigger] parts@[i]).vx == old(parts)@[i].vx && parts@[i].vy
                    == old(parts)@[i].vy,
        decreases parts@.len() - idx,
    {
        let p = parts[idx];
        if p.x < cfg.box_left || p.x > handle_x - cfg.wall_thickness / 2 || p.y < cfg.box_bottom
            || p.y > cfg.box_top {
            let nx = rng_range(rng, x_lo, x_hi);
            let ny = rng_range(rng, y_lo, y_hi);
            parts.set(idx, Particle { x: nx, y: ny, vx: p.vx, vy: p.vy });
        }
        idx = idx + 1;
    }
}

/// Number of rows in the initial particle grid.
pub open spec fn grid_rows(cfg: Config) -> int {
    2 * cfg.grid_half_y + 1
}

/// Number of particles in the initial grid.
pub open spec fn grid_count(cfg: Config) -> int {
    (2 * cfg.grid_half_x + 1) * grid_rows(cfg)
}

/// Grid column of the particle at index `i`, in `-grid_half_x ..= grid_half_x`.
pub open spec fn grid_gx(cfg: Config, i: int) -> int {
    i / grid_rows(cfg) - cfg.grid_half_x
}

/// Grid row of the particle at index `i`, in `-grid_half_y ..= grid_half_y`.
pub open spec fn grid_gy(cfg: Config, i: int) -> int {
    i % grid_rows(cfg) - cfg.grid_half_y
}

/// Horizontal center of the box.
pub open spec fn box_center_x(cfg: Config) -> int {
    cfg.box_left + (cfg.box_right - cfg.box_left) / 2
}

/// Vertical center of the box.
pub open spec fn box_center_y(cfg: Config) -> int {
    cfg.box_bottom + (cfg.box_top - cfg.box_bottom) / 2
}

/// Screen x of grid column `gx`: the box center offset by the column's
/// share of the usable width, rounded to the pixel grid.
pub open spec fn grid_pos_x(cfg: Config, gx: int) -> int {
    if cfg.grid_half_x == 0 {
        box_center_x(cfg)
    } else {
        box_center_x(cfg) + crate::numeric::div_round(
            gx * (cfg.box_right - cfg.box_left - 2 * cfg.wall_thickness - 3 * cfg.particle_radius),
            2 * cfg.grid_half_x,
        )
    }
}

/// Screen y of grid row `gy`.
pub open spec fn grid_pos_y(cfg: Config, gy: int) -> int {
    if cfg.grid_half_y == 0 {
        box_center_y(cfg)
    } else {
        box_center_y(cfg) + crate::numeric::div_round(
            gy * (cfg.box_top - cfg.box_bottom - 2 * cfg.wall_thickness - 3 * cfg.particle_radius),
            2 * cfg.grid_half_y,
        )
    }
}

/// Creates the initial particle population: a rectangular grid of
/// `(2 * grid_half_x + 1) * (2 * grid_half_y + 1)` particles centered
/// in the box, each with a velocity drawn uniformly from
/// `[-init_speed, init_speed)` per axis.
#[verifier::loop_isolation(false)]
pub fn spawn_grid(cfg: &Config, rng: &mut rand::rngs::StdRng) -> (r: Vec<Particle>)
    requires
        cfg.wf(),
        cfg.init_speed >= 1,
    ensures
        r@.len() == grid_count(*cfg),
        all_wf(r@),
        forall|i: int|
            0 <= i < r@.len() ==> -cfg.init_speed <= (#[trigger] r@[i]).vx < cfg.init_speed
                && -cfg.init_speed <= r@[i].vy < cfg.init_speed,
        forall|i: int|
            0 <= i < r@.len() ==> (#[trigger] r@[i]).x == grid_pos_x(*cfg, grid_gx(*cfg, i))
                && r@[i].y == grid_pos_y(*cfg, grid_gy(*cfg, i)),
{
    let a = cfg.grid_half_x;
    let b = cfg.grid_half_y;
    let m = 2 * b + 1;
    let mut out: Vec<Particle> = Vec::new();
    let mut gx: i64 = -a;
    proof {
        assert((gx + a) * m == 0) by (nonlinear_arith)
            requires
                gx == -a,
        ;
    }
    while gx <= a
        invariant
            -a <= gx <= a + 1,
            out@.len() == (gx + a) * m,
            all_wf(out@),
            forall|i: int|
                0 <= i < out@.len() ==> -cfg.init_speed <= (#[trigger] out@[i]).vx
                    < cfg.init_speed && -cfg.init_speed <= out@[i].vy < cfg.init_speed,
            forall|i: int|
                0 <= i < out@.len() ==> (#[trigger] out@[i]).x == grid_pos_x(
                    *cfg,
                    grid_gx(*cfg, i),
                ) && out@[i].y == grid_pos_y(*cfg, grid_gy(*cfg, i)),
        decreases a + 1 - gx,
    {
        let mut gy: i64 = -b;
        proof {
            assert((gx + a) * m + 0 == (gx + a) * m);
        }
        while gy <= b
            invariant
                -a <= gx <= a,
                -b <= gy <= b + 1,
                out@.len() == (gx + a) * m + (gy + b),
                all_wf(out@),
                forall|i: int|
                    0 <= i < out@.len() ==> -cfg.init_speed <= (#[trigger] out@[i]).vx
                        < cfg.init_speed && -cfg.init_speed <= out@[i].vy < cfg.init_speed,
                forall|i: int|
                    0 <= i < out@.len() ==> (#[trigger] out@[i]).x == grid_pos_x(
                        *cfg,
                        grid_gx(*cfg, i),
                    ) && out@[i].y == grid_pos_y(*cfg, grid_gy(*cfg, i)),
            decreases b + 1 - gy,
        {
            let px = grid_coord(cfg.box_left, cfg.box_right, cfg.wall_thickness,
                cfg.particle_radius, a, gx);
            let py = grid_coord(cfg.box_bottom, cfg.box_top, cfg.wall_thickness,
                cfg.particle_radius, b, gy);
            let vx = rng_range(rng, -cfg.init_speed, cfg.init_speed);
            let vy = rng_range(rng, -cfg.init_speed, cfg.init_speed);
            proof {
                let k = out@.len() as int;
                vstd::arithmetic::div_mod::lemma_fundamental_div_mod_converse_div(
                    k,
                    m as int,
                    gx + a,
                    gy + b,
                );
                vstd::arithmetic::div_mod::lemma_fundamental_div_mod_converse_mod(
                    k,
                    m as int,
                    gx + a,
                    gy + b,
                );
                assert(grid_gx(*cfg, k) == gx && grid_gy(*cfg, k) == gy);
            }
            out.push(Particle { x: px, y: py, vx, vy });
            gy = gy + 1;
        }
        proof {
            assert((gx + a) * m + m == (gx + 1 + a) * m) by (nonlinear_arith);
        }
        gx = gx + 1;
    }
    proof {
        assert((a + 1 + a) * m == grid_count(*cfg)) by (nonlinear_arith)
            requires
                m == 2 * b + 1,
                a == cfg.grid_half_x,
                b == cfg.grid_half_y,
        ;
    }
    out
}

/// One grid coordinate along an axis of the box: the axis center
/// offset by `g / (2 * half)` of the usable span.
fn grid_coord(lo: i64, hi: i64, thickness: i64, radius: i64, half: i64, g: i64) -> (r: i64)
    requires
        -0x10_0000 <= lo < hi <= 0x10_0000,
        0 <= thickness <= 0x10_0000,
        0 <= radius <= 0x10_0000,
        0 <= half <= 64,
        -half <= g <= half,
    ensures
        half == 0 ==> r == lo + (hi - lo) / 2,
        half > 0 ==> r == lo + (hi - lo) / 2 + crate::numeric::div_round(
            g * (hi - lo - 2 * thickness - 3 * radius),
            2 * half,
        ),
{
    let center = lo + (hi - lo) / 2;
    if half == 0 {
        center
    } else {
        let span = hi - lo - 2 * thickness - 3 * radius;
        proof {
            assert(-0x4000_0000_0000_0000 < g * span < 0x4000_0000_0000_0000)
                by (nonlinear_arith)
                requires
                    -64 <= g <= 64,
                    -0x1_0000_0000 <= span <= 0x1_0000_0000,
            ;
        }
        let off = crate::numeric::div_round_i64(g * span, 2 * half);
        center + off
    }
}

} // verus!
