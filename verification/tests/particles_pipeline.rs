use ideal_gas::config::demo_config;
use ideal_gas::particles::{
    relocate_particles, rescale_energy, spawn_grid, total_speed_sq, Particle,
};
use ideal_gas::sim::{target_speed_sq, Sim};
use ideal_gas::state::Point;
use rand::SeedableRng;

fn rng(seed: u64) -> rand::rngs::StdRng {
    rand::rngs::StdRng::seed_from_u64(seed)
}

fn speed_sq(parts: &Vec<Particle>) -> u128 {
    total_speed_sq(parts)
}

#[test]
fn rescaling_brings_kinetic_energy_to_the_target() {
    let mut parts = vec![
        Particle { x: 0, y: 100, vx: 30_000, vy: -40_000 },
        Particle { x: 5, y: 110, vx: -12_345, vy: 6_789 },
        Particle { x: -5, y: 120, vx: 111, vy: -222 },
    ];
    let before = speed_sq(&parts);
    assert!(before > 0);
    let target: u128 = 5_000_000_000;
    rescale_energy(&mut parts, target);
    let after = speed_sq(&parts);
    // Never overshoots, and lands within a small relative tolerance.
    assert!(after <= target);
    assert!(target - after < target / 10_000);
    // Positions are untouched.
    assert_eq!((parts[0].x, parts[0].y), (0, 100));
    assert_eq!((parts[2].x, parts[2].y), (-5, 120));
    // Directions are kept.
    assert!(parts[0].vx > 0 && parts[0].vy < 0);
}

#[test]
fn rescaling_at_rest_is_skipped() {
    let mut empty: Vec<Particle> = Vec::new();
    rescale_energy(&mut empty, 1_000_000);
    assert!(empty.is_empty());

    let mut still = vec![Particle { x: 1, y: 2, vx: 0, vy: 0 }];
    rescale_energy(&mut still, 1_000_000);
    assert_eq!(still[0], Particle { x: 1, y: 2, vx: 0, vy: 0 });
}

#[test]
fn relocation_reseeds_outside_particles_inside_the_box() {
    let cfg = demo_config();
    let mut r = rng(7);
    let handle_x = 0;
    // Interior for this piston position: x in [-464, -20), y in [21, 199).
    let mut parts = vec![
        Particle { x: 450, y: 100, vx: 3, vy: 4 },
        Particle { x: -100, y: 100, vx: -5, vy: 6 },
        Particle { x: -100, y: 500, vx: 7, vy: -8 },
    ];
    relocate_particles(&cfg, handle_x, &mut parts, &mut r);
    // The first and third were outside and landed in the inset interior.
    for p in [&parts[0], &parts[2]] {
        assert!(-464 <= p.x && p.x < -20);
        assert!(21 <= p.y && p.y < 199);
    }
    // The second was already inside and kept its position.
    assert_eq!((parts[1].x, parts[1].y), (-100, 100));
    // Velocities never change.
    assert_eq!((parts[0].vx, parts[0].vy), (3, 4));
    assert_eq!((parts[1].vx, parts[1].vy), (-5, 6));
    assert_eq!((parts[2].vx, parts[2].vy), (7, -8));
    // A second pass with the same piston position changes nothing.
    let snapshot = parts.clone();
    relocate_particles(&cfg, handle_x, &mut parts, &mut r);
    assert_eq!(parts, snapshot);
}

#[test]
fn spawn_grid_builds_the_centered_population() {
    let cfg = demo_config();
    let mut r = rng(11);
    let parts = spawn_grid(&cfg, &mut r);
    assert_eq!(parts.len(), 17 * 9);
    for p in &parts {
        assert!(-200 <= p.vx && p.vx < 200);
        assert!(-200 <= p.vy && p.vy < 200);
    }
    // The middle particle sits at the box center.
    let mid = &parts[8 * 9 + 4];
    assert_eq!((mid.x, mid.y), (0, 110));
    // The corner columns/rows use the usable span: 8 * 924 / 16 = 462
    // horizontally and 4 * 174 / 8 = 87 vertically.
    let corner = &parts[16 * 9 + 8];
    assert_eq!((corner.x, corner.y), (462, 110 + 87));
    let first = &parts[0];
    assert_eq!((first.x, first.y), (-462, 110 - 87));
}

#[test]
fn target_energy_follows_the_control_point() {
    let cfg = demo_config();
    assert_eq!(target_speed_sq(&cfg, 0, -190), 404 * 125 * 30);
    assert_eq!(target_speed_sq(&cfg, -388, -299), 16 * 16 * 30);
}

#[test]
fn a_tick_runs_the_whole_pipeline_in_order() {
    let cfg = demo_config();
    let mut r = rng(3);
    let parts = spawn_grid(&cfg, &mut r);
    let mut sim = Sim::new(cfg, Point { x: 0, y: -190 }, parts);
    assert_eq!((sim.handle.x, sim.handle.y), (0, -190));
    assert_eq!(sim.work.total_num, 0);

    // Drag the control point left at constant height: compression.
    sim.tick(Point { x: -100, y: -190 }, true, &mut r);
    assert_eq!((sim.handle.x, sim.handle.y), (-100, -190));
    // (P + P) * (Vs1 - Vs0) = 250 * -100.
    assert_eq!(sim.work.total_num, -25_000);
    // Every particle is inside the shrunk box.
    for p in &sim.particles {
        assert!(p.x >= cfg.box_left);
        assert!(p.x <= sim.handle.x - cfg.wall_thickness / 2);
        assert!(p.y >= cfg.box_bottom && p.y <= cfg.box_top);
    }
    // Kinetic energy does not exceed the commanded target.
    let target = target_speed_sq(&cfg, sim.handle.x, sim.handle.y);
    assert!(speed_sq(&sim.particles) <= target);

    // A released button or an off-plot cursor changes nothing.
    let before = (sim.handle, sim.work.total_num);
    sim.tick(Point { x: 50, y: -200 }, false, &mut r);
    assert_eq!((sim.handle, sim.work.total_num), before);
    sim.tick(Point { x: 5000, y: -200 }, true, &mut r);
    assert_eq!((sim.handle, sim.work.total_num), before);
}
