use ternary_gauge_theory::{Lattice, Z3};

#[test]
fn z3_arithmetic() {
    // Multiplication
    assert_eq!(Z3::omega() * Z3::omega(), Z3::omega2());
    assert_eq!(Z3::omega() * Z3::omega2(), Z3::one());
    assert_eq!(Z3::one() * Z3::omega(), Z3::omega());

    // Inverse
    assert_eq!(Z3::omega().inv(), Z3::omega2());
    assert_eq!(Z3::omega2().inv(), Z3::omega());
    assert_eq!(Z3::one().inv(), Z3::one());

    // Power
    assert_eq!(Z3::omega().pow(3), Z3::one());
    assert_eq!(Z3::omega().pow(0), Z3::one());
}

#[test]
fn cold_start_conservation() {
    let lat = Lattice::new(4, 4);
    let (ok, violations) = lat.verify_conservation();
    assert!(ok, "Conservation violated: {:?}", violations);
}

#[test]
fn single_link_change_breaks_plaquettes() {
    let mut lat = Lattice::new(4, 4);
    lat.set_link(1, 1, 0, Z3::omega());
    // The plaquette at (1,1) is now ω, so Re = -1/2
    let p = lat.plaquette(1, 1);
    assert_ne!(p, Z3::one(), "Plaquette should have changed");
}

#[test]
fn wilson_loop_cold_start() {
    let lat = Lattice::new(4, 4);
    // All links = 1 → Wilson loop = 1
    for r in 1..=3 {
        for t in 1..=3 {
            let z3 = lat.wilson_loop(0, 0, r, t);
            let re = z3.twice_re() as f64 / 2.0;
            assert_eq!(z3, Z3::one());
            assert!((re - 1.0).abs() < 1e-10, "W({},{}) = {}", r, t, re);
        }
    }
}

#[test]
fn periodic_boundary() {
    let lat = Lattice::new(4, 4);
    // Accessing (4, 0) should wrap to (0, 0)
    assert_eq!(lat.get_link(4, 0, 0), lat.get_link(0, 0, 0));
    assert_eq!(lat.get_link(0, 4, 1), lat.get_link(0, 0, 1));
}

#[test]
fn charge_histogram_cold() {
    let lat = Lattice::new(6, 6);
    let (neutral, gamma, eta) = lat.charge_histogram();
    assert_eq!(neutral, 36);
    assert_eq!(gamma, 0);
    assert_eq!(eta, 0);
}

#[test]
fn cold_start_action() {
    let lat = Lattice::new(4, 4);
    // All plaquettes = 1 → Re = 1
    // S = -β × 16 × 1 = -16β, computed from the number of identity plaquettes
    let n = lat.n_plaquettes();
    let trivial = lat.trivial_plaquette_count();
    assert_eq!(n, 16);
    assert_eq!(trivial, 16);
    let re_sum = trivial as f64 - 0.5 * (n - trivial) as f64;
    let beta = 1.0;
    assert!((-beta * re_sum - (-16.0)).abs() < 1e-10);
    assert!((re_sum / n as f64 - 1.0).abs() < 1e-10);
}

#[test]
fn z3_complex_values() {
    // Re(ω^k) = twice_re / 2, Im(ω^k) = im_sign × √3/2
    const SQRT3_OVER_2: f64 = 0.8660254037844386;
    let re = |z: Z3| z.twice_re() as f64 / 2.0;
    let im = |z: Z3| z.im_sign() as f64 * SQRT3_OVER_2;
    let eps = 1e-10;
    assert!((re(Z3::one()) - 1.0).abs() < eps);
    assert!((im(Z3::one())).abs() < eps);
    assert!((re(Z3::omega()) + 0.5).abs() < eps);
    assert!((im(Z3::omega()) - SQRT3_OVER_2).abs() < eps);
    assert!((re(Z3::omega2()) + 0.5).abs() < eps);
    assert!((im(Z3::omega2()) + SQRT3_OVER_2).abs() < eps);
}
