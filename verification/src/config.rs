//! Fixed per-run configuration: plot rectangle, box geometry, scale
//! factors, gas constant, and particle parameters.

use vstd::prelude::*;

verus! {

/// Largest magnitude allowed for a screen coordinate.
pub const COORD_LIMIT: i64 = 0x10_0000;

/// Largest allowed width or height of the plot rectangle.
pub const PLOT_SPAN_LIMIT: i64 = 4096;

/// Largest allowed linear scale factor (volume or pressure per pixel).
pub const SCALE_LIMIT: i64 = 10_000;

/// Largest allowed numerator or denominator of the molar gas term.
pub const GAS_LIMIT: i64 = 1_000_000;

/// Largest allowed numerator or denominator of the energy-to-speed factor.
pub const RESCALE_LIMIT: i64 = 1_000_000;

/// Largest allowed initial particle speed per axis.
pub const SPEED_LIMIT: i64 = 1_000_000;

/// Largest allowed half-extent of the initial particle grid.
pub const GRID_LIMIT: i64 = 64;

/// The demonstration's fixed geometry and physical constants.
///
/// Screen coordinates are integers; `x` grows to the right and `y` grows
/// upward.  Volume is `(x - plot_left) / volume_scale` and pressure is
/// `(y - plot_bottom) / pressure_scale`, so the plot's left and bottom
/// edges are the axes of the PV diagram.  The molar term `n * R` is the
/// rational `gas_num / gas_den`.  The target summed squared speed of the
/// particles is `vs * ps * rescale_num / rescale_den`, which folds the
/// particle mass and both scale factors into one rational constant.
#[derive(Clone, Copy, Debug)]
pub struct Config {
    pub plot_left: i64,
    pub plot_right: i64,
    pub plot_bottom: i64,
    pub plot_top: i64,
    pub handle_radius: i64,
    pub box_left: i64,
    pub box_right: i64,
    pub box_bottom: i64,
    pub box_top: i64,
    pub wall_thickness: i64,
    pub particle_radius: i64,
    pub volume_scale: i64,
    pub pressure_scale: i64,
    pub gas_num: i64,
    pub gas_den: i64,
    pub rescale_num: i64,
    pub rescale_den: i64,
    pub init_speed: i64,
    pub grid_half_x: i64,
    pub grid_half_y: i64,
}

impl Config {
    /// Well-formedness of a configuration.  Every bound here is a startup
    /// validation rule: a value outside it is a configuration defect.
    pub open spec fn wf(self) -> bool {
        &&& -COORD_LIMIT <= self.plot_left
        &&& self.plot_right <= COORD_LIMIT
        &&& -COORD_LIMIT <= self.plot_bottom
        &&& self.plot_top <= COORD_LIMIT
        &&& -COORD_LIMIT <= self.box_left
        &&& self.box_right <= COORD_LIMIT
        &&& -COORD_LIMIT <= self.box_bottom
        &&& self.box_top <= COORD_LIMIT
        &&& self.plot_left < self.plot_right
        &&& self.plot_bottom < self.plot_top
        &&& self.plot_right - self.plot_left <= PLOT_SPAN_LIMIT
        &&& self.plot_top - self.plot_bottom <= PLOT_SPAN_LIMIT
        &&& 1 <= self.handle_radius
        &&& self.plot_left + self.handle_radius <= self.plot_right - self.handle_radius
        &&& self.plot_bottom + self.handle_radius <= self.plot_top - self.handle_radius
        &&& self.box_left < self.box_right
        &&& self.box_bottom < self.box_top
        &&& 0 <= self.wall_thickness
        &&& self.wall_thickness % 2 == 0
        &&& 0 <= self.particle_radius
        &&& 1 <= self.volume_scale <= SCALE_LIMIT
        &&& 1 <= self.pressure_scale <= SCALE_LIMIT
        &&& 1 <= self.gas_num <= GAS_LIMIT
        &&& 1 <= self.gas_den <= GAS_LIMIT
        &&& 0 <= self.rescale_num <= RESCALE_LIMIT
        &&& 1 <= self.rescale_den <= RESCALE_LIMIT
        &&& 0 <= self.init_speed <= SPEED_LIMIT
        &&& 0 <= self.grid_half_x <= GRID_LIMIT
        &&& 0 <= self.grid_half_y <= GRID_LIMIT
        // The box interior stays a nonempty rectangle for every clamped
        // piston position, so a relocated particle always has room.
        &&& self.box_left + self.wall_thickness + self.particle_radius < self.plot_left
            + self.handle_radius - self.wall_thickness / 2 - self.particle_radius
        &&& self.box_bottom + self.wall_thickness + self.particle_radius < self.box_top
            - self.wall_thickness - self.particle_radius
        // The piston never crosses the box's left edge, so the derived
        // wall scale is never negative.
        &&& self.plot_left + self.handle_radius + self.wall_thickness / 2 >= self.box_left
    }

    /// Lowest x a clamped control point can take.
    pub open spec fn handle_min_x(self) -> int {
        self.plot_left + self.handle_radius
    }

    /// Highest x a clamped control point can take.
    pub open spec fn handle_max_x(self) -> int {
        self.plot_right - self.handle_radius
    }

    /// Lowest y a clamped control point can take.
    pub open spec fn handle_min_y(self) -> int {
        self.plot_bottom + self.handle_radius
    }

    /// Highest y a clamped control point can take.
    pub open spec fn handle_max_y(self) -> int {
        self.plot_top - self.handle_radius
    }

    /// The point lies within the clamped (inset) handle rectangle.
    pub open spec fn handle_in_range(self, x: int, y: int) -> bool {
        &&& self.handle_min_x() <= x <= self.handle_max_x()
        &&& self.handle_min_y() <= y <= self.handle_max_y()
    }
}

/// The geometry and constants of the reference demonstration: a 1000 x 250
/// box above an 808 x 250 plot, one mole of monatomic gas, and a 17 x 9
/// grid of particles.
pub fn demo_config() -> (r: Config)
    ensures
        r.wf(),
        r.plot_left == -404 && r.plot_right == 404,
        r.plot_bottom == -315 && r.plot_top == -65,
        r.handle_radius == 16,
        r.box_left == -500 && r.box_right == 500,
        r.box_bottom == -15 && r.box_top == 235,
        r.wall_thickness == 32,
        r.particle_radius == 4,
        r.volume_scale == 10 && r.pressure_scale == 10,
        r.gas_num == 4157 && r.gas_den == 500,
        r.rescale_num == 30 && r.rescale_den == 1,
        r.init_speed == 200,
        r.grid_half_x == 8 && r.grid_half_y == 4,
{
    Config {
        plot_left: -404,
        plot_right: 404,
        plot_bottom: -315,
        plot_top: -65,
        handle_radius: 16,
        box_left: -500,
        box_right: 500,
        box_bottom: -15,
        box_top: 235,
        wall_thickness: 32,
        particle_radius: 4,
        volume_scale: 10,
        pressure_scale: 10,
        gas_num: 4157,
        gas_den: 500,
        rescale_num: 30,
        rescale_den: 1,
        init_speed: 200,
        grid_half_x: 8,
        grid_half_y: 4,
    }
}

} // verus!
