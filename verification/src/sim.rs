//! The simulation state and its per-tick pipeline: input mapping and
//! work update, then particle relocation, then energy rescaling, in the
//! fixed order the demonstration requires.

use vstd::prelude::*;
use crate::config::Config;
use crate::state::{Point, spec_clamp, clamp_handle, vs, ps};
use crate::work::{WorkAccumulator, work_delta_num};
use crate::particles::{
    Particle,
    all_wf,
    inside_box,
    ke2,
    lemma_ke2_velocities,
    relocate_particles,
    rescale_energy,
};

verus! {

/// Target summed squared speed implied by the control point: the
/// internal energy expressed in velocity units through the
/// configuration's rescale ratio.
pub open spec fn spec_target2(cfg: Config, x: int, y: int) -> int {
    (vs(cfg, x) * ps(cfg, y) * cfg.rescale_num) / (cfg.rescale_den as int)
}

/// Computes the rescaler's target summed squared speed for control
/// point `(x, y)`.
pub fn target_speed_sq(cfg: &Config, x: i64, y: i64) -> (r: u128)
    requires
        cfg.wf(),
        cfg.plot_left <= x <= cfg.plot_right,
        cfg.plot_bottom <= y <= cfg.plot_top,
    ensures
        r == spec_target2(*cfg, x as int, y as int),
        r <= 0x4000_0000_0000_0000,
{
    proof {
        crate::state::lemma_state_products_bounded(*cfg, x as int, y as int);
        assert(0 <= (vs(*cfg, x as int) * ps(*cfg, y as int)) * cfg.rescale_num
            <= 0x1_0000_0000_0000) by (nonlinear_arith)
            requires
                0 <= vs(*cfg, x as int) * ps(*cfg, y as int) <= 0x100_0000,
                0 <= cfg.rescale_num <= 1_000_000,
        ;
        vstd::arithmetic::div_mod::lemma_div_pos_is_pos(
            (vs(*cfg, x as int) * ps(*cfg, y as int)) * cfg.rescale_num,
            cfg.rescale_den as int,
        );
        vstd::arithmetic::div_mod::lemma_div_nonincreasing(
            (vs(*cfg, x as int) * ps(*cfg, y as int)) * cfg.rescale_num,
            cfg.rescale_den as int,
        );
    }
    let n = (x - cfg.plot_left) * (y - cfg.plot_bottom) * cfg.rescale_num;
    let t = n / cfg.rescale_den;
    t as u128
}

/// The demonstration's whole mutable state: the configuration, the
/// control point, the work total, and the particle collection.
pub struct Sim {
    pub cfg: Config,
    pub handle: Point,
    pub work: WorkAccumulator,
    pub particles: Vec<Particle>,
}

impl Sim {
    /// The state invariant: a well-formed configuration, a clamped
    /// control point, and a well-formed particle collection.
    pub open spec fn wf(self) -> bool {
        &&& self.cfg.wf()
        &&& self.cfg.handle_in_range(self.handle.x as int, self.handle.y as int)
        &&& all_wf(self.particles@)
        &&& self.particles@.len() <= 0x1_0000_0000
    }

    /// The cursor input is acted on: the button is held and the cursor
    /// is strictly inside the plot rectangle.
    pub open spec fn input_accepted(self, cursor: Point, pressed: bool) -> bool {
        &&& pressed
        &&& self.cfg.plot_left < cursor.x < self.cfg.plot_right
        &&& self.cfg.plot_bottom < cursor.y < self.cfg.plot_top
    }

    /// Where an accepted cursor lands after the handle clamp.
    pub open spec fn clamped_cursor_x(self, cursor: Point) -> int {
        spec_clamp(cursor.x as int, self.cfg.handle_min_x(), self.cfg.handle_max_x())
    }

    /// Where an accepted cursor lands after the handle clamp.
    pub open spec fn clamped_cursor_y(self, cursor: Point) -> int {
        spec_clamp(cursor.y as int, self.cfg.handle_min_y(), self.cfg.handle_max_y())
    }

    /// The work-total change this input causes: one trapezoidal step
    /// for an accepted move, nothing otherwise.
    pub open spec fn input_delta(self, cursor: Point, pressed: bool) -> int {
        if self.input_accepted(cursor, pressed) {
            work_delta_num(
                self.cfg,
                self.handle.x as int,
                self.handle.y as int,
                self.clamped_cursor_x(cursor),
                self.clamped_cursor_y(cursor),
            )
        } else {
            0
        }
    }

    /// Builds a simulation around a starting control point (clamped to
    /// its legal rectangle), zero accumulated work, and a particle
    /// collection.
    pub fn new(cfg: Config, start: Point, particles: Vec<Particle>) -> (r: Sim)
        requires
            cfg.wf(),
            all_wf(particles@),
            particles@.len() <= 0x1_0000_0000,
        ensures
            r.wf(),
            r.cfg == cfg,
            r.handle.x == spec_clamp(start.x as int, cfg.handle_min_x(), cfg.handle_max_x()),
            r.handle.y == spec_clamp(start.y as int, cfg.handle_min_y(), cfg.handle_max_y()),
            r.work.total_num == 0,
            r.particles == particles,
    {
        let handle = clamp_handle(&cfg, start);
        Sim { cfg, handle, work: WorkAccumulator::new(), particles }
    }

    /// One input step: an accepted cursor is clamped to the handle
    /// rectangle, the trapezoidal work step for the move is added, and
    /// the control point follows; anything else is ignored unchanged.
    /// Clamping happens before any derived quantity is computed.
    pub fn apply_input(&mut self, cursor: Point, pressed: bool)
        requires
            old(self).wf(),
            i64::MIN <= old(self).work.total_num + old(self).input_delta(cursor, pressed)
                <= i64::MAX,
        ensures
            final(self).wf(),
            final(self).cfg == old(self).cfg,
            final(self).particles == old(self).particles,
            !old(self).input_accepted(cursor, pressed) ==> final(self).handle == old(self).handle
                && final(self).work == old(self).work,
            old(self).input_accepted(cursor, pressed) ==> final(self).handle.x == old(
                self,
            ).clamped_cursor_x(cursor) && final(self).handle.y == old(self).clamped_cursor_y(cursor)
                && final(self).work.total_num == old(self).work.total_num + old(self).input_delta(
                cursor,
                pressed,
            ),
    {
        if pressed && cursor.x > self.cfg.plot_left && cursor.x < self.cfg.plot_right && cursor.y
            > self.cfg.plot_bottom && cursor.y < self.cfg.plot_top {
            let cfg = self.cfg;
            let new_handle = clamp_handle(&cfg, cursor);
            let hx = self.handle.x;
            let hy = self.handle.y;
            self.work.update(&cfg, hx, hy, new_handle.x, new_handle.y);
            self.handle = new_handle;
        }
    }

    /// One full simulation tick, in the required order: input mapping
    /// and work update, then the boundary-driven particle relocation,
    /// then the energy rescale toward the new state's target.  After
    /// it, every particle is inside the box and the collection's
    /// summed squared speed does not exceed the commanded target
    /// (unless all particles were at rest, which leaves them at rest).
    pub fn tick(&mut self, cursor: Point, pressed: bool, rng: &mut rand::rngs::StdRng)
        requires
            old(self).wf(),
            i64::MIN <= old(self).work.total_num + old(self).input_delta(cursor, pressed)
                <= i64::MAX,
        ensures
            final(self).wf(),
            final(self).cfg == old(self).cfg,
            !old(self).input_accepted(cursor, pressed) ==> final(self).handle == old(self).handle
                && final(self).work == old(self).work,
            old(self).input_accepted(cursor, pressed) ==> final(self).handle.x == old(
                self,
            ).clamped_cursor_x(cursor) && final(self).handle.y == old(self).clamped_cursor_y(cursor)
                && final(self).work.total_num == old(self).work.total_num + old(self).input_delta(
                cursor,
                pressed,
            ),
            final(self).particles@.len() == old(self).particles@.len(),
            forall|i: int|
                0 <= i < final(self).particles@.len() ==> inside_box(
                    old(self).cfg,
                    final(self).handle.x as int,
                    #[trigger] final(self).particles@[i],
                ),
            ke2(old(self).particles@) == 0 ==> ke2(final(self).particles@) == 0,
            ke2(old(self).particles@) > 0 ==> ke2(final(self).particles@) <= spec_target2(
                old(self).cfg,
                final(self).handle.x as int,
                final(self).handle.y as int,
            ),
    {
        self.apply_input(cursor, pressed);
        let cfg = self.cfg;
        let hx = self.handle.x;
        let hy = self.handle.y;
        let ghost before_relocate = self.particles@;
        relocate_particles(&cfg, hx, &mut self.particles, rng);
        proof {
            lemma_ke2_velocities(before_relocate, self.particles@);
            assert(all_wf(self.particles@)) by {
                assert(forall|i: int|
                    0 <= i < self.particles@.len() ==> (#[trigger] self.particles@[i]).vx
                        == before_relocate[i].vx && self.particles@[i].vy
                        == before_relocate[i].vy);
            }
        }
        let ghost after_relocate = self.particles@;
        let t2 = target_speed_sq(&cfg, hx, hy);
        rescale_energy(&mut self.particles, t2);
        proof {
            lemma_ke2_velocities(after_relocate, before_relocate);
            if ke2(before_relocate) == 0 {
                assert(self.particles@ =~= after_relocate);
            }
            assert(forall|i: int|
                0 <= i < self.particles@.len() ==> inside_box(
                    cfg,
                    hx as int,
                    #[trigger] self.particles@[i],
                )) by {
                assert(forall|i: int|
                    0 <= i < self.particles@.len() ==> (#[trigger] self.particles@[i]).x
                        == after_relocate[i].x && self.particles@[i].y == after_relocate[i].y);
                assert(forall|i: int|
                    0 <= i < after_relocate.len() ==> inside_box(
                        cfg,
                        hx as int,
                        #[trigger] after_relocate[i],
                    ));
            }
        }
    }
}

} // verus!
