use ideal_gas::config::demo_config;
use ideal_gas::curves::{
    adiabatic_branch_x, adiabatic_branch_y, isobaric_points, isochoric_points,
    isothermal_branch_x, isothermal_branch_y,
};
use ideal_gas::readout::{readout_text, readout_values};

#[test]
fn isobaric_and_isochoric_lines_span_the_plot() {
    let cfg = demo_config();
    let iso_p = isobaric_points(&cfg, -190);
    assert_eq!(iso_p.len(), 2);
    assert_eq!((iso_p[0].x, iso_p[0].y), (-404, -190));
    assert_eq!((iso_p[1].x, iso_p[1].y), (404, -190));
    let iso_v = isochoric_points(&cfg, 0);
    assert_eq!(iso_v.len(), 2);
    assert_eq!((iso_v[0].x, iso_v[0].y), (0, -315));
    assert_eq!((iso_v[1].x, iso_v[1].y), (0, -65));
}

#[test]
fn isothermal_samples_conserve_pressure_times_volume() {
    let cfg = demo_config();
    let (x0, y0) = (0i64, -190i64);
    let c0 = (x0 - cfg.plot_left) as i128 * (y0 - cfg.plot_bottom) as i128;

    let up = isothermal_branch_y(&cfg, x0, y0);
    assert_eq!(up.len(), (cfg.plot_top - y0 + 1) as usize);
    assert_eq!((up[0].x, up[0].y), (x0, y0));
    for (i, p) in up.iter().enumerate() {
        assert_eq!(p.y, y0 + i as i64);
        assert!(cfg.plot_left <= p.x && p.x <= x0);
        let c = (p.x - cfg.plot_left) as i128 * (p.y - cfg.plot_bottom) as i128;
        let tol = (p.y - cfg.plot_bottom) as i128;
        assert!(2 * (c - c0).abs() <= tol + 1);
    }

    let right = isothermal_branch_x(&cfg, x0, y0);
    assert_eq!(right.len(), (cfg.plot_right - x0 + 1) as usize);
    assert_eq!((right[0].x, right[0].y), (x0, y0));
    for (i, p) in right.iter().enumerate() {
        assert_eq!(p.x, x0 + i as i64);
        assert!(cfg.plot_bottom <= p.y && p.y <= y0);
        let c = (p.x - cfg.plot_left) as i128 * (p.y - cfg.plot_bottom) as i128;
        let tol = (p.x - cfg.plot_left) as i128;
        assert!(2 * (c - c0).abs() <= tol + 1);
    }
}

fn pow_u128(b: u128, k: u32) -> u128 {
    let mut acc: u128 = 1;
    for _ in 0..k {
        acc *= b;
    }
    acc
}

#[test]
fn adiabatic_samples_conserve_the_adiabatic_invariant() {
    let cfg = demo_config();
    let (x0, y0) = (0i64, -190i64);
    let n0 = pow_u128((x0 - cfg.plot_left) as u128, 5) * pow_u128((y0 - cfg.plot_bottom) as u128, 3);

    let up = adiabatic_branch_y(&cfg, x0, y0);
    assert_eq!(up.len(), (cfg.plot_top - y0 + 1) as usize);
    assert_eq!((up[0].x, up[0].y), (x0, y0));
    for (i, p) in up.iter().enumerate() {
        assert_eq!(p.y, y0 + i as i64);
        assert!(cfg.plot_left <= p.x && p.x <= x0);
        let v = (p.x - cfg.plot_left) as u128;
        let pr = (p.y - cfg.plot_bottom) as u128;
        // V^5 * P^3 brackets the conserved V0^5 * P0^3 within one pixel
        // of volume: the sharpest integer statement of P * V^gamma
        // being constant.
        assert!(pow_u128(v, 5) * pow_u128(pr, 3) <= n0);
        assert!(n0 < pow_u128(v + 1, 5) * pow_u128(pr, 3));
    }

    let right = adiabatic_branch_x(&cfg, x0, y0);
    assert_eq!(right.len(), (cfg.plot_right - x0 + 1) as usize);
    for (i, p) in right.iter().enumerate() {
        assert_eq!(p.x, x0 + i as i64);
        assert!(cfg.plot_bottom <= p.y && p.y <= y0);
        let v = (p.x - cfg.plot_left) as u128;
        let pr = (p.y - cfg.plot_bottom) as u128;
        assert!(pow_u128(v, 5) * pow_u128(pr, 3) <= n0);
        assert!(n0 < pow_u128(v, 5) * pow_u128(pr + 1, 3));
    }
}

#[test]
fn adiabatic_falls_faster_than_isothermal_on_expansion() {
    let cfg = demo_config();
    let (x0, y0) = (0i64, -190i64);
    let iso = isothermal_branch_x(&cfg, x0, y0);
    let adia = adiabatic_branch_x(&cfg, x0, y0);
    // Past the state point, the adiabatic curve sits at or below the
    // isothermal one.
    for i in 1..iso.len() {
        assert!(adia[i].y <= iso[i].y);
    }
}

#[test]
fn readout_rounds_temperature_work_and_heat() {
    let cfg = demo_config();
    // At the plot center: T = 40.4 * 12.5 / 8.314 = 60.74 -> 61,
    // W = 0, Q = U + W = 757.5 -> 758 (halves round away from zero).
    let (t, w, q) = readout_values(&cfg, 0, -190, 0);
    assert_eq!((t, w, q), (61, 0, 758));
    // With 100 pixel-units of accumulated work: W = 0.5 -> 1.
    let (_, w2, q2) = readout_values(&cfg, 0, -190, 100);
    assert_eq!(w2, 1);
    assert_eq!(q2, 758);
}

#[test]
fn readout_text_formats_three_lines() {
    let text = readout_text(61, 0, 758);
    assert_eq!(text, b"T = 61 K\nW = 0 J\nQ = 758 J".to_vec());
    let negative = readout_text(-5, -120, 0);
    assert_eq!(negative, b"T = -5 K\nW = -120 J\nQ = 0 J".to_vec());
}
