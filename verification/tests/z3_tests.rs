use rand::SeedableRng;
use rand::rngs::StdRng;
use ternary_gauge_theory::Z3;

#[test]
fn z3_new_wraps_mod_three() {
    assert_eq!(Z3::new(0).exp(), 0);
    assert_eq!(Z3::new(4).exp(), 1);
    assert_eq!(Z3::new(5).exp(), 2);
    assert_eq!(Z3::new(255).exp(), 0);
    assert_eq!(Z3::new(7), Z3::omega());
}

#[test]
fn z3_all_in_exponent_order() {
    let all = Z3::all();
    assert_eq!(all[0], Z3::one());
    assert_eq!(all[1], Z3::omega());
    assert_eq!(all[2], Z3::omega2());
}

#[test]
fn z3_group_laws_on_all_elements() {
    for a in Z3::all() {
        assert_eq!(a * a.inv(), Z3::one());
        assert_eq!(a.inv().inv(), a);
        assert_eq!(Z3::one() * a, a);
        for b in Z3::all() {
            assert_eq!(a * b, b * a);
            assert_eq!(a.mul(b), a * b);
            for c in Z3::all() {
                assert_eq!((a * b) * c, a * (b * c));
            }
        }
    }
}

#[test]
fn z3_pow_is_repeated_multiplication() {
    for a in Z3::all() {
        let mut acc = Z3::one();
        for n in 0..=255u8 {
            assert_eq!(a.pow(n), acc, "a = {:?}, n = {}", a, n);
            acc = acc * a;
        }
    }
    assert_eq!(Z3::omega2().pow(2), Z3::omega());
    // ω^(2·128) = ω^256 = ω
    assert_eq!(Z3::omega2().pow(128), Z3::omega());
    assert_eq!(Z3::omega2().pow(255), Z3::one());
}

#[test]
fn z3_mul_assign() {
    let mut z = Z3::omega();
    z *= Z3::omega();
    assert_eq!(z, Z3::omega2());
    z *= Z3::omega();
    assert_eq!(z, Z3::one());
}

#[test]
fn z3_real_and_imaginary_parts() {
    assert_eq!(Z3::one().twice_re(), 2);
    assert_eq!(Z3::omega().twice_re(), -1);
    assert_eq!(Z3::omega2().twice_re(), -1);
    assert_eq!(Z3::one().im_sign(), 0);
    assert_eq!(Z3::omega().im_sign(), 1);
    assert_eq!(Z3::omega2().im_sign(), -1);
}

#[test]
fn z3_random_stays_in_group() {
    let mut rng = StdRng::seed_from_u64(7);
    let mut seen = [false; 3];
    for _ in 0..200 {
        let z = Z3::random(&mut rng);
        assert!(z.exp() < 3);
        seen[z.exp() as usize] = true;
    }
    assert!(seen.iter().all(|s| *s), "all three elements should appear: {:?}", seen);
}
