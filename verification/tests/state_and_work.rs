use ideal_gas::config::demo_config;
use ideal_gas::state::{clamp_handle, clamp_i64, energy, pressure, temperature, volume, x_from_volume, y_from_pressure, Point};
use ideal_gas::work::WorkAccumulator;
use ideal_gas::boundary::{piston_x, wall_transform};
use ideal_gas::config::Config;

fn small_config() -> Config {
    Config {
        plot_left: -50,
        plot_right: 50,
        plot_bottom: -30,
        plot_top: 30,
        handle_radius: 1,
        box_left: -200,
        box_right: 200,
        box_bottom: -100,
        box_top: 100,
        wall_thickness: 0,
        particle_radius: 0,
        volume_scale: 10,
        pressure_scale: 10,
        gas_num: 1,
        gas_den: 1,
        rescale_num: 1,
        rescale_den: 1,
        init_speed: 1,
        grid_half_x: 1,
        grid_half_y: 1,
    }
}

#[test]
fn volume_and_pressure_are_affine_in_position() {
    let cfg = demo_config();
    let v = volume(&cfg, 0);
    assert_eq!(v.num, 404);
    assert_eq!(v.den, 10);
    let p = pressure(&cfg, -190);
    assert_eq!(p.num, 125);
    assert_eq!(p.den, 10);
}

#[test]
fn temperature_and_energy_at_plot_center() {
    let cfg = demo_config();
    let t = temperature(&cfg, 0, -190);
    assert_eq!(t.num, 404 * 125 * 500);
    assert_eq!(t.den, 10 * 10 * 4157);
    let u = energy(&cfg, 0, -190);
    assert_eq!(u.num, 3 * 404 * 125);
    assert_eq!(u.den, 2 * 10 * 10);
}

#[test]
fn position_to_volume_round_trip_is_exact() {
    let cfg = demo_config();
    let mut x = cfg.plot_left;
    while x <= cfg.plot_right {
        assert_eq!(x_from_volume(&cfg, volume(&cfg, x)), x);
        x += 1;
    }
}

#[test]
fn position_to_pressure_round_trip_is_exact() {
    let cfg = demo_config();
    let mut y = cfg.plot_bottom;
    while y <= cfg.plot_top {
        assert_eq!(y_from_pressure(&cfg, pressure(&cfg, y)), y);
        y += 1;
    }
}

#[test]
fn clamp_is_idempotent_and_keeps_in_range_points() {
    assert_eq!(clamp_i64(5, 0, 10), 5);
    assert_eq!(clamp_i64(-3, 0, 10), 0);
    assert_eq!(clamp_i64(15, 0, 10), 10);
    assert_eq!(clamp_i64(clamp_i64(-3, 0, 10), 0, 10), clamp_i64(-3, 0, 10));
    assert_eq!(clamp_i64(clamp_i64(15, 0, 10), 0, 10), clamp_i64(15, 0, 10));

    let cfg = demo_config();
    let inside = Point { x: 0, y: -190 };
    let c1 = clamp_handle(&cfg, inside);
    assert_eq!(c1, inside);
    let outside = Point { x: 1000, y: -1000 };
    let c2 = clamp_handle(&cfg, outside);
    assert_eq!(c2, Point { x: 404 - 16, y: -315 + 16 });
    assert_eq!(clamp_handle(&cfg, c2), c2);
}

#[test]
fn constant_pressure_compression_steps_work_by_p_dv() {
    let cfg = small_config();
    let mut acc = WorkAccumulator::new();
    // V0 = 5, P0 = 3 at (0, 0); move to V1 = 4 at the same pressure.
    acc.update(&cfg, 0, 0, -10, 0);
    let w = acc.total(&cfg);
    // One trapezoid step: (P0 + P0) * (Vs1 - Vs0) = 60 * -10 over 200,
    // exactly P0 * (V1 - V0) = -3: compression lowers the work the gas
    // has done.
    assert_eq!(w.num, -600);
    assert_eq!(w.den, 200);
    assert!(w.eq_value(&ideal_gas::Frac::new(-3, 1)));
    assert!(!w.eq_value(&ideal_gas::Frac::new(3, 1)));
}

#[test]
fn work_update_is_a_no_op_without_motion() {
    let cfg = demo_config();
    let mut acc = WorkAccumulator::new();
    acc.update(&cfg, 10, -200, 10, -200);
    assert_eq!(acc.total_num, 0);
}

#[test]
fn expansion_and_compression_cancel_over_a_round_trip() {
    let cfg = demo_config();
    let mut acc = WorkAccumulator::new();
    acc.update(&cfg, 0, -190, 100, -150);
    acc.update(&cfg, 100, -150, 0, -190);
    assert_eq!(acc.total_num, 0);
}

#[test]
fn wall_transform_follows_the_piston() {
    let cfg = demo_config();
    assert_eq!(piston_x(&cfg, 42), 42);
    let t = wall_transform(&cfg, 0);
    assert_eq!(t.scale.num, 516);
    assert_eq!(t.scale.den, 1000);
    assert_eq!(t.center.num, -484);
    assert_eq!(t.center.den, 2);
    // At the leftmost clamped position the wall never inverts.
    let t2 = wall_transform(&cfg, -388);
    assert!(t2.scale.num >= 0);
}
