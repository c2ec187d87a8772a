use rand::SeedableRng;
use rand::rngs::StdRng;
use ternary_gauge_theory::{find_loop_index, is_measurement_sweep, wilson_loop_sizes, Lattice, Z3};

fn total_twice_re(lat: &Lattice) -> i64 {
    let n = lat.n_plaquettes() as i64;
    let trivial = lat.trivial_plaquette_count() as i64;
    2 * trivial - (n - trivial)
}

#[test]
fn set_then_get_reads_back() {
    let mut lat = Lattice::new(3, 5);
    lat.set_link(2, 4, 1, Z3::omega2());
    assert_eq!(lat.get_link(2, 4, 1), Z3::omega2());
    assert_eq!(lat.get_link(5, 9, 1), Z3::omega2());
    assert_eq!(lat.get_link(2, 4, 0), Z3::one());
    assert_eq!(lat.n_links(), 30);
    assert_eq!(lat.n_sites(), 15);
    assert_eq!(lat.size(), (3, 5));
}

#[test]
fn hot_lattice_shape() {
    let mut rng = StdRng::seed_from_u64(3);
    let lat = Lattice::hot(5, 4, &mut rng);
    assert_eq!(lat.size(), (5, 4));
    assert_eq!(lat.n_links(), 40);
    for y in 0..4 {
        for x in 0..5 {
            for mu in 0..2 {
                assert!(lat.get_link(x, y, mu).exp() < 3);
            }
        }
    }
}

#[test]
fn global_conservation_holds_on_hot_lattices() {
    let mut rng = StdRng::seed_from_u64(11);
    for (lx, ly) in [(1, 1), (1, 4), (3, 1), (4, 4), (5, 7)] {
        let lat = Lattice::hot(lx, ly, &mut rng);
        let (ok, violations) = lat.verify_conservation();
        assert!(ok, "{}x{}: {:?}", lx, ly, violations);
        let q = lat.measure_ternary_charge();
        assert_eq!(q.gamma, q.eta, "{:?}", q);
        assert_eq!(q.c, (q.gamma + q.eta) % 3);
        let (n0, n1, n2) = lat.charge_histogram();
        assert_eq!(n0 + n1 + n2, lat.n_sites());
        assert_eq!(n1, q.gamma_sites);
        assert_eq!(n2, q.eta_sites);
        assert_eq!(violations.len(), n1 + n2);
        for ((x, y), d) in &violations {
            assert_eq!(lat.ternary_divergence(*x, *y), *d);
            assert_ne!(*d, 0);
        }
    }
}

#[test]
fn conservation_after_metropolis_updates() {
    let mut rng = StdRng::seed_from_u64(99);
    let mut lat = Lattice::new(4, 4);
    for i in 0..500 {
        let (x, y, mu) = lat.random_link(&mut rng);
        assert!(x < 4 && y < 4 && mu < 2);
        let delta = if i % 2 == 0 { Z3::omega() } else { Z3::omega2() };
        let (old, _change) = lat.propose_link_update(x, y, mu, delta);
        if i % 3 == 0 {
            lat.set_link(x, y, mu, old);
        }
        let (ok, _) = lat.verify_conservation();
        assert!(ok);
    }
}

#[test]
fn single_link_change_moves_charge_between_its_ends() {
    let mut lat = Lattice::new(4, 4);
    lat.set_link(1, 2, 0, Z3::omega());
    // the link leaves (1,2) and enters (2,2)
    assert_eq!(lat.ternary_divergence(1, 2), 1);
    assert_eq!(lat.ternary_divergence(2, 2), 2);
    let (_, violations) = lat.verify_conservation();
    assert_eq!(violations, vec![((1, 2), 1), ((2, 2), 2)]);
    let q = lat.measure_ternary_charge();
    assert_eq!((q.gamma, q.eta, q.c, q.gamma_sites, q.eta_sites), (1, 1, 2, 1, 1));
    assert_eq!(lat.charge_histogram(), (14, 1, 1));

    let mut lat = Lattice::new(4, 4);
    lat.set_link(3, 3, 1, Z3::omega2());
    // the link leaves (3,3) and enters (3,0)
    assert_eq!(lat.ternary_divergence(3, 3), 2);
    assert_eq!(lat.ternary_divergence(3, 0), 1);

    // on a lattice one site wide, an x-link leaves and enters the same site
    let mut lat = Lattice::new(1, 3);
    lat.set_link(0, 1, 0, Z3::omega());
    assert_eq!(lat.charge_histogram(), (3, 0, 0));
}

#[test]
fn local_action_change_matches_global_change() {
    let mut rng = StdRng::seed_from_u64(5);
    let mut lat = Lattice::hot(4, 3, &mut rng);
    for i in 0..200 {
        let (x, y, mu) = lat.random_link(&mut rng);
        let before = total_twice_re(&lat);
        let delta = if i % 2 == 0 { Z3::omega() } else { Z3::omega2() };
        let (old, change) = lat.propose_link_update(x, y, mu, delta);
        let after = total_twice_re(&lat);
        assert_eq!(change as i64, after - before);
        assert_eq!(lat.get_link(x, y, mu), old * delta);
    }
}

#[test]
fn plaquette_for_link_names_the_two_plaquettes() {
    let mut rng = StdRng::seed_from_u64(21);
    let lat = Lattice::hot(4, 4, &mut rng);
    assert_eq!(lat.plaquette_for_link(2, 1, 0, true), lat.plaquette(2, 1));
    assert_eq!(lat.plaquette_for_link(2, 1, 0, false), lat.plaquette(2, 0));
    assert_eq!(lat.plaquette_for_link(2, 0, 0, false), lat.plaquette(2, 3));
    assert_eq!(lat.plaquette_for_link(2, 1, 1, true), lat.plaquette(2, 1));
    assert_eq!(lat.plaquette_for_link(2, 1, 1, false), lat.plaquette(1, 1));
    assert_eq!(lat.plaquette_for_link(0, 1, 1, false), lat.plaquette(3, 1));
}

#[test]
fn plaquette_formula_and_unit_wilson_loop() {
    let mut lat = Lattice::new(3, 3);
    lat.set_link(0, 0, 0, Z3::omega());
    lat.set_link(1, 0, 1, Z3::omega());
    lat.set_link(0, 1, 0, Z3::omega2());
    lat.set_link(0, 0, 1, Z3::one());
    // 1 + 1 - 2 - 0 = 0 mod 3
    assert_eq!(lat.plaquette(0, 0), Z3::one());
    lat.set_link(0, 1, 0, Z3::one());
    // 1 + 1 - 0 - 0 = 2
    assert_eq!(lat.plaquette(0, 0), Z3::omega2());
    let mut rng = StdRng::seed_from_u64(8);
    let hot = Lattice::hot(5, 4, &mut rng);
    for y in 0..4 {
        for x in 0..5 {
            assert_eq!(hot.wilson_loop(x, y, 1, 1), hot.plaquette(x, y));
        }
    }
    assert_eq!(hot.wilson_loop(2, 2, 0, 0), Z3::one());
}

#[test]
fn wilson_loop_counts() {
    let lat = Lattice::new(4, 4);
    assert_eq!(lat.trivial_wilson_loop_count(2, 3), 16);
    let mut lat = Lattice::new(4, 4);
    lat.set_link(0, 0, 0, Z3::omega());
    // the 1×1 loops through that link are at (0,0) and (0,3)
    assert_eq!(lat.trivial_wilson_loop_count(1, 1), 14);
    assert_eq!(lat.trivial_plaquette_count(), 14);
}

#[test]
fn wilson_loop_size_list() {
    let sizes = wilson_loop_sizes(4, 6);
    assert_eq!(sizes, vec![(1, 1), (1, 2), (1, 3), (2, 1), (2, 2), (2, 3)]);
    assert_eq!(wilson_loop_sizes(8, 8).len(), 16);
    assert_eq!(wilson_loop_sizes(20, 1), Vec::<(usize, usize)>::new());
    assert_eq!(find_loop_index(&sizes, 2, 2), Some(4));
    assert_eq!(find_loop_index(&sizes, 3, 1), None);
}

#[test]
fn measurement_schedule() {
    assert!(!is_measurement_sweep(99, 100, 10));
    assert!(is_measurement_sweep(100, 100, 10));
    assert!(!is_measurement_sweep(105, 100, 10));
    assert!(is_measurement_sweep(110, 100, 10));
    assert!(!is_measurement_sweep(5, 10, 0));
}

#[test]
fn from_exponents_places_links_in_storage_order() {
    let lx = 3;
    let ly = 2;
    let exps: Vec<u8> = (0..12u8).map(|i| (i * 7) % 5).collect();
    let lat = Lattice::from_exponents(lx, ly, &exps);
    assert_eq!(lat.size(), (3, 2));
    for y in 0..ly {
        for x in 0..lx {
            for mu in 0..2 {
                assert_eq!(lat.get_link(x, y, mu).exp(), exps[(y * lx + x) * 2 + mu] % 3);
            }
        }
    }
}

#[test]
fn local_action_change_on_unit_extent() {
    let mut rng = StdRng::seed_from_u64(17);
    for (lx, ly) in [(1, 3), (4, 1), (1, 1)] {
        let mut lat = Lattice::hot(lx, ly, &mut rng);
        for i in 0..60 {
            let (x, y, mu) = lat.random_link(&mut rng);
            let before = total_twice_re(&lat);
            let delta = if i % 2 == 0 { Z3::omega() } else { Z3::omega2() };
            let (_, change) = lat.propose_link_update(x, y, mu, delta);
            assert_eq!(change as i64, total_twice_re(&lat) - before);
            if (mu == 0 && ly == 1) || (mu == 1 && lx == 1) {
                assert_eq!(change, 0);
            }
        }
    }
}

#[test]
fn gauge_transformation_keeps_plaquettes() {
    let mut rng = StdRng::seed_from_u64(31);
    let (lx, ly) = (4, 3);
    let lat = Lattice::hot(lx, ly, &mut rng);
    let g = |x: usize, y: usize| Z3::new(((x * 5 + y * 7 + x * y) % 3) as u8);
    let mut gauged = lat.clone();
    for y in 0..ly {
        for x in 0..lx {
            let u0 = g(x, y) * lat.get_link(x, y, 0) * g((x + 1) % lx, y).inv();
            let u1 = g(x, y) * lat.get_link(x, y, 1) * g(x, (y + 1) % ly).inv();
            gauged.set_link(x, y, 0, u0);
            gauged.set_link(x, y, 1, u1);
        }
    }
    for y in 0..ly {
        for x in 0..lx {
            assert_eq!(gauged.plaquette(x, y), lat.plaquette(x, y));
        }
    }
    assert_eq!(gauged.trivial_plaquette_count(), lat.trivial_plaquette_count());
}

#[test]
fn wilson_loop_is_product_of_enclosed_plaquettes() {
    let mut rng = StdRng::seed_from_u64(41);
    let lat = Lattice::hot(5, 4, &mut rng);
    for (x, y, r, t) in [(0, 0, 2, 3), (3, 2, 4, 4), (1, 1, 0, 2), (4, 3, 3, 1)] {
        let mut product = Z3::one();
        for j in 0..t {
            for i in 0..r {
                product = product * lat.plaquette(x + i, y + j);
            }
        }
        assert_eq!(lat.wilson_loop(x, y, r, t), product, "({}, {}, {}, {})", x, y, r, t);
    }
}

#[test]
fn twice_re_sum_from_counts() {
    let mut rng = StdRng::seed_from_u64(2);
    let lat = Lattice::hot(4, 5, &mut rng);
    let mut sum: i64 = 0;
    for y in 0..5 {
        for x in 0..4 {
            sum += lat.plaquette(x, y).twice_re() as i64;
        }
    }
    assert_eq!(sum, 3 * lat.trivial_plaquette_count() as i64 - 20);
    let mut wsum: i64 = 0;
    for y in 0..5 {
        for x in 0..4 {
            wsum += lat.wilson_loop(x, y, 2, 1).twice_re() as i64;
        }
    }
    assert_eq!(wsum, 3 * lat.trivial_wilson_loop_count(2, 1) as i64 - 20);
}
