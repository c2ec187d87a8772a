use vstd::prelude::*;
use crate::rng::random_u8_below;

verus! {

/// Group product in Z₃ on exponents: ω^a · ω^b = ω^((a + b) mod 3).
pub open spec fn z3_mul(a: nat, b: nat) -> nat {
    (a + b) % 3
}

/// Group inverse in Z₃ on exponents: (ω^a)⁻¹ = ω^((3 - a) mod 3).
pub open spec fn z3_inv(a: nat) -> nat {
    ((3 - a) % 3) as nat
}

/// Twice the real part of ω^a: cos(2πa/3) is 1 for a = 0 and -1/2 otherwise.
pub open spec fn z3_twice_re(a: nat) -> int {
    if a == 0 { 2 } else { -1 }
}

/// Sign of the imaginary part of ω^a: sin(2πa/3) is 0, +√3/2 or -√3/2.
pub open spec fn z3_im_sign(a: nat) -> int {
    if a == 0 { 0 } else if a == 1 { 1 } else { -1 }
}

/// An element of Z₃, stored as an exponent of ω = exp(2πi/3).
///
/// Value 0 → ω⁰ = 1, 1 → ω¹, 2 → ω².
#[derive(Clone, Copy, Debug, PartialEq, Eq, Hash, Structural)]
pub struct Z3(u8);

impl Z3 {
    /// Every element that exists at run time has its exponent in {0, 1, 2}.
    #[verifier::type_invariant]
    pub closed spec fn exponent_in_range(self) -> bool {
        self.0 < 3
    }
}

impl View for Z3 {
    type V = nat;

    closed spec fn view(&self) -> nat {
        self.0 as nat
    }
}

impl Z3 {
    /// Identity element (ω⁰ = 1).
    pub fn one() -> (r: Z3)
        ensures
            r@ == 0,
    {
        Z3(0)
    }

    /// ω = exp(2πi/3).
    pub fn omega() -> (r: Z3)
        ensures
            r@ == 1,
    {
        Z3(1)
    }

    /// ω² = exp(4πi/3).
    pub fn omega2() -> (r: Z3)
        ensures
            r@ == 2,
    {
        Z3(2)
    }

    /// All three elements of Z₃, in exponent order.
    pub fn all() -> (r: [Z3; 3])
        ensures
            r@[0]@ == 0,
            r@[1]@ == 1,
            r@[2]@ == 2,
    {
        [Z3(0), Z3(1), Z3(2)]
    }

    /// Create from an exponent (wraps mod 3).
    pub fn new(k: u8) -> (r: Z3)
        ensures
            r@ == k % 3,
    {
        Z3(k % 3)
    }

    /// The raw exponent in {0, 1, 2}.
    pub fn exp(self) -> (r: u8)
        ensures
            r == self@,
            r < 3,
    {
        proof {
            use_type_invariant(&self);
        }
        self.0
    }

    /// Multiplication in Z₃ (add exponents mod 3).
    pub fn mul(self, other: Z3) -> (r: Z3)
        ensures
            r@ == z3_mul(self@, other@),
    {
        proof {
            use_type_invariant(&self);
            use_type_invariant(&other);
        }
        Z3((self.0 + other.0) % 3)
    }

    /// Inverse element: `self * self.inv() = Z3::one()`.
    pub fn inv(self) -> (r: Z3)
        ensures
            r@ == z3_inv(self@),
    {
        proof {
            use_type_invariant(&self);
        }
        Z3((3 - self.0) % 3)
    }

    /// Twice the real part of ω^k: 2·cos(2πk/3), which is 2 for k = 0 and -1 for k = 1, 2.
    pub fn twice_re(self) -> (r: i8)
        ensures
            r == z3_twice_re(self@),
    {
        if self.0 == 0 {
            2
        } else {
            -1
        }
    }

    /// Sign of the imaginary part of ω^k = sin(2πk/3): 0, +1 or -1 (times √3/2).
    pub fn im_sign(self) -> (r: i8)
        ensures
            r == z3_im_sign(self@),
    {
        if self.0 == 0 {
            0
        } else if self.0 == 1 {
            1
        } else {
            -1
        }
    }

    /// Random Z₃ element.
    pub fn random(rng: &mut rand::rngs::StdRng) -> (r: Z3)
        ensures
            r@ < 3,
    {
        Z3(random_u8_below(rng, 3))
    }

    /// Power: ω^(k·n) mod 3.
    ///
    /// Since ω³ = 1 only `n mod 3` matters, which keeps the product of exponents small.
    pub fn pow(self, n: u8) -> (r: Z3)
        ensures
            r@ == (self@ * n) % 3,
    {
        proof {
            use_type_invariant(&self);
            lemma_pow_exponent_mod(self.0 as nat, n as nat);
            assert(self.0 * (n % 3) < 9) by (nonlinear_arith)
                requires
                    self.0 < 3,
                    n % 3 < 3,
            ;
        }
        Z3((self.0 * (n % 3)) % 3)
    }
}

impl std::ops::Mul for Z3 {
    type Output = Z3;

    fn mul(self, rhs: Z3) -> (r: Z3)
        ensures
            r@ == z3_mul(self@, rhs@),
    {
        Z3::mul(self, rhs)
    }
}

impl vstd::std_specs::ops::MulSpecImpl for Z3 {
    open spec fn obeys_mul_spec() -> bool {
        true
    }

    open spec fn mul_req(self, rhs: Z3) -> bool {
        true
    }

    closed spec fn mul_spec(self, rhs: Z3) -> Z3 {
        Z3(((self.0 + rhs.0) % 3) as u8)
    }
}

impl std::ops::MulAssign for Z3 {
    fn mul_assign(&mut self, rhs: Z3)
        ensures
            final(self)@ == z3_mul(old(self)@, rhs@),
    {
        *self = Z3::mul(*self, rhs);
    }
}

/// The exponent of an element that exists at run time is in {0, 1, 2}.
pub proof fn lemma_z3_exp_bound(z: Z3)
    requires
        z.exponent_in_range(),
    ensures
        z@ < 3,
{
}

/// Multiplying the residue of a running exponent sum by `ω^l` adds `l` to the sum.
pub proof fn lemma_z3_mul_accumulates(s: int, l: nat)
    ensures
        z3_mul((s % 3) as nat, l) == (s + l) % 3,
{
    vstd::arithmetic::div_mod::lemma_add_mod_noop(s, l as int, 3);
    vstd::arithmetic::div_mod::lemma_mod_twice(s, 3);
    vstd::arithmetic::div_mod::lemma_mod_bound(s, 3);
    vstd::arithmetic::div_mod::lemma_mod_twice(l as int, 3);
    vstd::arithmetic::div_mod::lemma_add_mod_noop(s % 3, l as int, 3);
}

/// Multiplying the residue of a running exponent sum by the inverse of `ω^l` subtracts `l`.
pub proof fn lemma_z3_mul_inv_accumulates(s: int, l: nat)
    ensures
        z3_mul((s % 3) as nat, z3_inv(l)) == (s - l) % 3,
{
    vstd::arithmetic::div_mod::lemma_mod_bound(s, 3);
    vstd::arithmetic::div_mod::lemma_mod_bound(3 - l, 3);
    vstd::arithmetic::div_mod::lemma_add_mod_noop(s, 3 - l, 3);
    vstd::arithmetic::div_mod::lemma_mod_twice(s, 3);
    vstd::arithmetic::div_mod::lemma_add_mod_noop(s % 3, 3 - l, 3);
    vstd::arithmetic::div_mod::lemma_mod_twice(3 - l, 3);
    vstd::arithmetic::div_mod::lemma_add_mod_noop(s % 3, (3 - l) % 3, 3);
    vstd::arithmetic::div_mod::lemma_mod_add_multiples_vanish(s - l, 3);
}

/// `ω^a` multiplied with itself `n` times, by repeated group multiplication.
pub open spec fn z3_repeated_mul(a: nat, n: nat) -> nat
    decreases n,
{
    if n == 0 {
        0
    } else {
        z3_mul(z3_repeated_mul(a, (n - 1) as nat), a)
    }
}

/// `pow` is repeated multiplication: `(ω^a)^n = ω^a · … · ω^a` (n factors), the exponent
/// being `a · n mod 3`; in particular `ω^3 = ω^0 = 1`.
pub proof fn lemma_pow_is_repeated_mul(a: nat, n: nat)
    ensures
        z3_repeated_mul(a, n) == (a * n) % 3,
    decreases n,
{
    if n > 0 {
        lemma_pow_is_repeated_mul(a, (n - 1) as nat);
        lemma_z3_mul_accumulates((a * (n - 1)) as int, a);
        assert(a * (n - 1) + a == a * n) by (nonlinear_arith);
    } else {
        assert(a * n == 0) by (nonlinear_arith)
            requires
                n == 0,
        ;
    }
}

/// Reducing the power mod 3 first does not change `k · n mod 3`.
pub proof fn lemma_pow_exponent_mod(k: nat, n: nat)
    ensures
        (k * (n % 3)) % 3 == (k * n) % 3,
{
    vstd::arithmetic::div_mod::lemma_mul_mod_noop_right(k as int, n as int, 3);
}

/// Two elements are equal exactly when their exponents are.
pub proof fn lemma_z3_view_injective(a: Z3, b: Z3)
    ensures
        (a@ == b@) <==> (a == b),
{
}

/// Z₃ is an abelian group under multiplication: the product is associative and commutative,
/// ω⁰ is its identity, and every element times its inverse is ω⁰.
pub proof fn lemma_z3_group_laws(a: nat, b: nat, c: nat)
    requires
        a < 3,
        b < 3,
        c < 3,
    ensures
        z3_mul(z3_mul(a, b), c) == z3_mul(a, z3_mul(b, c)),
        z3_mul(a, b) == z3_mul(b, a),
        z3_mul(0, a) == a,
        z3_mul(a, z3_inv(a)) == 0,
        z3_inv(z3_inv(a)) == a,
        z3_mul(a, b) < 3,
        z3_inv(a) < 3,
{
}

} // verus!
