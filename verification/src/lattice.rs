use vstd::prelude::*;
use crate::sums::{grid_sum, lemma_grid_sum_indicator_bounded, lemma_scan_prefix_bounded, row_sum};
use crate::z3::{Z3, z3_inv, z3_mul, z3_twice_re};

verus! {

/// Mathematical model of a lattice: its extents and its link variables in storage order.
///
/// The link `U_μ(x, y)` of site `(x, y)` in direction `μ` is stored at
/// `((y mod ly) · lx + (x mod lx)) · 2 + μ`.
pub struct LatticeView {
    pub lx: nat,
    pub ly: nat,
    pub links: Seq<Z3>,
}

impl LatticeView {
    /// Two links per site, their number fits in a machine word, and every link is a valid
    /// Z₃ element.
    pub open spec fn wf(self) -> bool {
        &&& self.links.len() == self.lx * self.ly * 2
        &&& self.links.len() <= usize::MAX
        &&& forall|i: int| 0 <= i < self.links.len() ==> #[trigger] self.links[i]@ < 3
    }

    /// The lattice has at least one site.
    pub open spec fn has_sites(self) -> bool {
        self.lx > 0 && self.ly > 0
    }

    /// Storage position of the link `U_μ(x, y)`, with periodic wrapping of the site.
    pub open spec fn link_index(self, x: int, y: int, mu: int) -> int {
        ((y % (self.ly as int)) * self.lx + x % (self.lx as int)) * 2 + mu
    }

    /// Exponent of the link variable `U_μ(x, y)`.
    pub open spec fn link(self, x: int, y: int, mu: int) -> nat {
        self.links[self.link_index(x, y, mu)]@
    }

    /// Exponent of the plaquette `U_0(x,y) · U_1(x+1,y) · U_0(x,y+1)† · U_1(x,y)†`.
    pub open spec fn plaquette(self, x: int, y: int) -> nat {
        z3_mul(
            z3_mul(z3_mul(self.link(x, y, 0), self.link(x + 1, y, 1)), z3_inv(self.link(x, y + 1, 0))),
            z3_inv(self.link(x, y, 1)),
        )
    }

    /// The x-coordinate `x - 1`, wrapped: the x-link entering site `(x, y)` starts there.
    pub open spec fn left(self, x: int) -> int {
        (x + self.lx - 1) % (self.lx as int)
    }

    /// The y-coordinate `y - 1`, wrapped: the y-link entering site `(x, y)` starts there.
    pub open spec fn below(self, y: int) -> int {
        (y + self.ly - 1) % (self.ly as int)
    }

    /// Net ternary flux out of the site `(x, y)`: outgoing minus incoming exponents, mod 3.
    pub open spec fn divergence(self, x: int, y: int) -> int {
        (self.link(x, y, 0) + self.link(x, y, 1) - self.link(self.left(x), y, 0) - self.link(
            x,
            self.below(y),
            1,
        )) % 3
    }

    /// `divergence` as a function of the site.
    pub open spec fn divergence_fn(self) -> spec_fn(int, int) -> int {
        |x: int, y: int| self.divergence(x, y)
    }

    /// Sum of the site divergences over the whole lattice.
    pub open spec fn total_charge(self) -> int {
        grid_sum(self.divergence_fn(), self.lx, self.ly)
    }

    /// Sites `(x, y)` with `x < n` in row `y` whose divergence is non-zero, each with its
    /// divergence, in increasing `x`.
    pub open spec fn violations_in_row(self, y: int, n: nat) -> Seq<((usize, usize), u8)>
        decreases n,
    {
        if n == 0 {
            Seq::empty()
        } else {
            let prefix = self.violations_in_row(y, (n - 1) as nat);
            let d = self.divergence(n - 1, y);
            if d != 0 {
                prefix.push(((((n - 1) as int) as usize, y as usize), d as u8))
            } else {
                prefix
            }
        }
    }

    /// Sites in the rows `0 .. ny` whose divergence is non-zero, in row-major order.
    pub open spec fn violations_in_rows(self, ny: nat) -> Seq<((usize, usize), u8)>
        decreases ny,
    {
        if ny == 0 {
            Seq::empty()
        } else {
            self.violations_in_rows((ny - 1) as nat) + self.violations_in_row(ny - 1, self.lx)
        }
    }

    /// All sites carrying a non-zero ternary charge, with their charge, in row-major order.
    pub open spec fn violations(self) -> Seq<((usize, usize), u8)> {
        self.violations_in_rows(self.ly)
    }

    /// Indicator of the sites whose divergence is `c`.
    pub open spec fn charge_indicator(self, c: int) -> spec_fn(int, int) -> int {
        |x: int, y: int| if self.divergence(x, y) == c { 1int } else { 0int }
    }

    /// Number of sites whose divergence is `c`.
    pub open spec fn charge_count(self, c: int) -> int {
        grid_sum(self.charge_indicator(c), self.lx, self.ly)
    }

    /// Indicator of the sites whose plaquette is the identity.
    pub open spec fn trivial_plaquette_indicator(self) -> spec_fn(int, int) -> int {
        |x: int, y: int| if self.plaquette(x, y) == 0 { 1int } else { 0int }
    }

    /// Number of plaquettes equal to the identity.
    pub open spec fn trivial_plaquette_count(self) -> int {
        grid_sum(self.trivial_plaquette_indicator(), self.lx, self.ly)
    }

    /// Exponent of the plaquette that the link `U_μ(x, y)` takes part in: for `forward` the one
    /// at `(x, y)`; otherwise the one at `(x, y - 1)` for `μ = 0` and at `(x - 1, y)` for `μ = 1`.
    pub open spec fn plaquette_of_link(self, x: int, y: int, mu: int, forward: bool) -> nat {
        if forward {
            self.plaquette(x, y)
        } else if mu == 0 {
            self.plaquette(x, y + self.ly - 1)
        } else {
            self.plaquette(x + self.lx - 1, y)
        }
    }

    /// Sum of the exponents of the `n` x-links `U_0(x, y) … U_0(x + n - 1, y)`.
    pub open spec fn path_x(self, x: int, y: int, n: nat) -> int
        decreases n,
    {
        if n == 0 {
            0
        } else {
            self.path_x(x, y, (n - 1) as nat) + self.link(x + n - 1, y, 0)
        }
    }

    /// Sum of the exponents of the `n` y-links `U_1(x, y) … U_1(x, y + n - 1)`.
    pub open spec fn path_y(self, x: int, y: int, n: nat) -> int
        decreases n,
    {
        if n == 0 {
            0
        } else {
            self.path_y(x, y, (n - 1) as nat) + self.link(x, y + n - 1, 1)
        }
    }

    /// Exponent of the Wilson loop around the `r × t` rectangle with lower-left corner `(x, y)`:
    /// `r` steps forward in x, `t` forward in y, `r` back in x and `t` back in y.
    pub open spec fn wilson_loop(self, x: int, y: int, r: nat, t: nat) -> nat {
        ((self.path_x(x, y, r) + self.path_y(x + r, y, t) - self.path_x(x, y + t, r) - self.path_y(
            x,
            y,
            t,
        )) % 3) as nat
    }

    /// Indicator of the sites whose `r × t` Wilson loop is the identity.
    pub open spec fn trivial_wilson_loop_indicator(self, r: nat, t: nat) -> spec_fn(int, int) -> int {
        |x: int, y: int| if self.wilson_loop(x, y, r, t) == 0 { 1int } else { 0int }
    }

    /// Number of sites whose `r × t` Wilson loop is the identity.
    pub open spec fn trivial_wilson_loop_count(self, r: nat, t: nat) -> int {
        grid_sum(self.trivial_wilson_loop_indicator(r, t), self.lx, self.ly)
    }

    /// Sum of the plaquette exponents at `(x, y), (x + 1, y), …, (x + n - 1, y)`.
    pub open spec fn plaquette_strip_sum(self, x: int, y: int, n: nat) -> int
        decreases n,
    {
        if n == 0 {
            0
        } else {
            self.plaquette_strip_sum(x, y, (n - 1) as nat) + self.plaquette(x + n - 1, y)
        }
    }

    /// Sum of the plaquette exponents over the `r × t` rectangle of sites with lower-left
    /// corner `(x, y)`: the exponent of the product of those plaquettes, before reduction.
    pub open spec fn plaquette_rect_sum(self, x: int, y: int, r: nat, t: nat) -> int
        decreases t,
    {
        if t == 0 {
            0
        } else {
            self.plaquette_rect_sum(x, y, r, (t - 1) as nat) + self.plaquette_strip_sum(x, y + t - 1, r)
        }
    }

    /// Twice the real part of every `r × t` Wilson loop, as a function of its corner.
    pub open spec fn wilson_loop_twice_re_fn(self, r: nat, t: nat) -> spec_fn(int, int) -> int {
        |x: int, y: int| z3_twice_re(self.wilson_loop(x, y, r, t))
    }

    /// Twice the sum of `Re(W(R, T))` over all starting sites.
    pub open spec fn total_wilson_loop_twice_re(self, r: nat, t: nat) -> int {
        grid_sum(self.wilson_loop_twice_re_fn(r, t), self.lx, self.ly)
    }

    /// Twice the real part of every plaquette, as a function of the site.
    pub open spec fn plaquette_twice_re_fn(self) -> spec_fn(int, int) -> int {
        |x: int, y: int| z3_twice_re(self.plaquette(x, y))
    }

    /// Twice the sum of `Re(U_p)` over all plaquettes (the Wilson action is `-β/2` times this).
    pub open spec fn total_twice_re(self) -> int {
        grid_sum(self.plaquette_twice_re_fn(), self.lx, self.ly)
    }
}

/// Every in-range site and direction has its link inside the storage.
pub proof fn lemma_link_index_in_range(v: LatticeView, x: int, y: int, mu: int)
    requires
        v.wf(),
        v.has_sites(),
        0 <= mu < 2,
    ensures
        0 <= v.link_index(x, y, mu) < v.links.len(),
        v.link(x, y, mu) < 3,
{
    let a = y % (v.ly as int);
    let b = x % (v.lx as int);
    let lx = v.lx as int;
    let ly = v.ly as int;
    assert(0 <= a * lx + b < lx * ly) by (nonlinear_arith)
        requires
            0 <= a < ly,
            0 <= b < lx,
    ;
}

/// The number of sites of a well-formed lattice fits in a machine word.
pub proof fn lemma_sites_fit(v: LatticeView)
    requires
        v.wf(),
    ensures
        v.lx * v.ly <= usize::MAX,
{
    assert(v.lx * v.ly <= v.lx * v.ly * 2) by (nonlinear_arith);
}

/// On a well-formed lattice with sites, every site index stays clear of overflow when the
/// extent is added to it, and the number of sites fits in a machine word.
pub proof fn lemma_extents_fit(v: LatticeView)
    requires
        v.wf(),
        v.has_sites(),
    ensures
        v.lx + v.lx <= usize::MAX,
        v.ly + v.ly <= usize::MAX,
        v.lx * v.ly <= usize::MAX,
{
    assert(v.lx + v.lx <= v.lx * v.ly * 2 && v.ly + v.ly <= v.lx * v.ly * 2 && v.lx * v.ly <= v.lx
        * v.ly * 2) by (nonlinear_arith)
        requires
            v.lx > 0,
            v.ly > 0,
    ;
}

/// Result of ternary charge measurement.
#[derive(Debug, Clone, PartialEq, Eq, Structural)]
pub struct TernaryCharge {
    /// Total γ-charge (mod 3).
    pub gamma: u8,
    /// Total η-charge (mod 3).
    pub eta: u8,
    /// Total conserved charge C = γ + η (mod 3).
    pub c: u8,
    /// Number of sites carrying γ-charge.
    pub gamma_sites: usize,
    /// Number of sites carrying η-charge.
    pub eta_sites: usize,
}

/// While scanning the sites in row-major order, a count of the sites where a {0, 1}-valued
/// function is 1, plus the site about to be counted, never exceeds the number of sites.
proof fn lemma_indicator_prefix_bounded(f: spec_fn(int, int) -> int, lx: nat, ly: nat, x: nat, y: nat)
    requires
        x < lx,
        y < ly,
        forall|i: int, j: int| 0 <= i < lx && 0 <= j < ly ==> 0 <= #[trigger] f(i, j) <= 1,
    ensures
        grid_sum(f, lx, y) + row_sum(f, y as int, (x + 1) as nat) <= lx * ly,
{
    lemma_scan_prefix_bounded(f, lx, ly, (x + 1) as nat, y);
    lemma_grid_sum_indicator_bounded(f, lx, ly);
}

/// A 2D square lattice with periodic boundary conditions.
///
/// Links are indexed by `(x, y, μ)` where μ ∈ {0, 1} (x-direction, y-direction).
/// Link variable `U_μ(x, y)` lives on the edge from site `(x,y)` in direction μ.
#[derive(Clone, Debug)]
pub struct Lattice {
    /// Lattice extent in x.
    lx: usize,
    /// Lattice extent in y.
    ly: usize,
    /// Link variables, indexed as `links[y * Lx * 2 + x * 2 + μ]`.
    links: Vec<Z3>,
}

impl View for Lattice {
    type V = LatticeView;

    closed spec fn view(&self) -> LatticeView {
        LatticeView { lx: self.lx as nat, ly: self.ly as nat, links: self.links@ }
    }
}

impl Lattice {
    /// Create a new Lx × Ly lattice with all links set to identity (cold start).
    pub fn new(lx: usize, ly: usize) -> (r: Lattice)
        requires
            lx * ly * 2 <= usize::MAX,
        ensures
            r@.wf(),
            r@.lx == lx,
            r@.ly == ly,
            forall|i: int| 0 <= i < r@.links.len() ==> #[trigger] r@.links[i]@ == 0,
    {
        let n_links = lx * ly * 2;
        let mut links: Vec<Z3> = Vec::new();
        let mut i: usize = 0;
        while i < n_links
            invariant
                i <= n_links,
                links@.len() == i,
                forall|j: int| 0 <= j < i ==> #[trigger] links@[j]@ == 0,
            decreases n_links - i,
        {
            links.push(Z3::one());
            i = i + 1;
        }
        Lattice { lx, ly, links }
    }

    /// Create a lattice with random link variables (hot start).
    pub fn hot(lx: usize, ly: usize, rng: &mut rand::rngs::StdRng) -> (r: Lattice)
        requires
            lx * ly * 2 <= usize::MAX,
        ensures
            r@.wf(),
            r@.lx == lx,
            r@.ly == ly,
    {
        let n_links = lx * ly * 2;
        // one random element per link, drawn in storage order
        let mut exponents: Vec<u8> = Vec::new();
        let mut i: usize = 0;
        while i < n_links
            invariant
                i <= n_links,
                exponents@.len() == i,
            decreases n_links - i,
        {
            exponents.push(Z3::random(rng).exp());
            i = i + 1;
        }
        Lattice::from_exponents(lx, ly, &exponents)
    }

    /// Create an Lx × Ly lattice from link exponents given in storage order: the link
    /// `U_μ(x, y)` gets `ω^(exponents[(y·Lx + x)·2 + μ] mod 3)`.
    pub fn from_exponents(lx: usize, ly: usize, exponents: &Vec<u8>) -> (r: Lattice)
        requires
            lx * ly * 2 <= usize::MAX,
            exponents@.len() == lx * ly * 2,
        ensures
            r@.wf(),
            r@.lx == lx,
            r@.ly == ly,
            forall|i: int| 0 <= i < r@.links.len() ==> #[trigger] r@.links[i]@ == exponents@[i] % 3,
    {
        let n_links = lx * ly * 2;
        let mut links: Vec<Z3> = Vec::new();
        let mut i: usize = 0;
        while i < n_links
            invariant
                i <= n_links,
                n_links == exponents@.len(),
                links@.len() == i,
                forall|j: int| 0 <= j < i ==> #[trigger] links@[j]@ == exponents@[j] % 3,
            decreases n_links - i,
        {
            links.push(Z3::new(exponents[i]));
            i = i + 1;
        }
        Lattice { lx, ly, links }
    }

    /// Lattice dimensions.
    pub fn size(&self) -> (r: (usize, usize))
        ensures
            r.0 == self@.lx,
            r.1 == self@.ly,
    {
        (self.lx, self.ly)
    }

    /// Total number of sites.
    pub fn n_sites(&self) -> (r: usize)
        requires
            self@.wf(),
        ensures
            r == self@.lx * self@.ly,
    {
        proof {
            lemma_sites_fit(self@);
        }
        self.lx * self.ly
    }

    /// Total number of links.
    pub fn n_links(&self) -> (r: usize)
        ensures
            r == self@.links.len(),
    {
        self.links.len()
    }

    /// Total number of plaquettes (oriented).
    pub fn n_plaquettes(&self) -> (r: usize)
        requires
            self@.wf(),
        ensures
            r == self@.lx * self@.ly,
    {
        proof {
            lemma_sites_fit(self@);
        }
        self.lx * self.ly
    }

    /// Periodic index wrap.
    fn wrap(&self, x: usize, y: usize) -> (r: (usize, usize))
        requires
            self@.has_sites(),
        ensures
            r.0 == (x as int) % (self@.lx as int),
            r.1 == (y as int) % (self@.ly as int),
    {
        (x % self.lx, y % self.ly)
    }

    /// Flat index for link (x, y, μ).
    fn link_idx(&self, x: usize, y: usize, mu: usize) -> (r: usize)
        requires
            self@.wf(),
            self@.has_sites(),
            self@.link_index(x as int, y as int, mu as int) < self@.links.len(),
        ensures
            r == self@.link_index(x as int, y as int, mu as int),
    {
        let (x, y) = self.wrap(x, y);
        proof {
            let lx = self.lx as int;
            let ly = self.ly as int;
            assert(0 <= (y as int) * lx + (x as int) < lx * ly) by (nonlinear_arith)
                requires
                    0 <= x < lx,
                    0 <= y < ly,
            ;
        }
        (y * self.lx + x) * 2 + mu
    }

    /// Get link variable U_μ(x, y).
    pub fn get_link(&self, x: usize, y: usize, mu: usize) -> (r: Z3)
        requires
            self@.wf(),
            self@.has_sites(),
            self@.link_index(x as int, y as int, mu as int) < self@.links.len(),
        ensures
            r == self@.links[self@.link_index(x as int, y as int, mu as int)],
            r@ == self@.link(x as int, y as int, mu as int),
    {
        self.links[self.link_idx(x, y, mu)]
    }

    /// Set link variable U_μ(x, y).
    pub fn set_link(&mut self, x: usize, y: usize, mu: usize, val: Z3)
        requires
            old(self)@.wf(),
            old(self)@.has_sites(),
            old(self)@.link_index(x as int, y as int, mu as int) < old(self)@.links.len(),
        ensures
            final(self)@ == (LatticeView {
                links: old(self)@.links.update(old(self)@.link_index(x as int, y as int, mu as int), val),
                ..old(self)@
            }),
            final(self)@.wf(),
    {
        let idx = self.link_idx(x, y, mu);
        proof {
            use_type_invariant(&val);
            crate::z3::lemma_z3_exp_bound(val);
        }
        self.links.set(idx, val);
    }

    /// Compute the plaquette variable U_p at site (x, y).
    ///
    /// Plaquette orientation: go μ=0 (x), then ν=1 (y), back μ=0†, back ν=1†.
    ///
    /// ```text
    ///   (x,y+1)---U_0(x,y+1)--->(x+1,y+1)
    ///      ^                        |
    ///   U_1(x,y)                U_1(x+1,y)†
    ///      |                        v
    ///    (x,y)----U_0(x,y)---->(x+1,y)
    /// ```
    ///
    /// U_p = U_0(x,y) · U_1(x+1,y) · U_0(x,y+1)† · U_1(x,y)†
    pub fn plaquette(&self, x: usize, y: usize) -> (r: Z3)
        requires
            self@.wf(),
            self@.has_sites(),
            x < usize::MAX,
            y < usize::MAX,
        ensures
            r@ == self@.plaquette(x as int, y as int),
    {
        proof {
            lemma_link_index_in_range(self@, x as int, y as int, 0);
            lemma_link_index_in_range(self@, x + 1, y as int, 1);
            lemma_link_index_in_range(self@, x as int, y + 1, 0);
            lemma_link_index_in_range(self@, x as int, y as int, 1);
        }
        let u0 = self.get_link(x, y, 0);
        let u1_fwd = self.get_link(x + 1, y, 1);
        let u0_up_inv = self.get_link(x, y + 1, 0).inv();
        let u1_inv = self.get_link(x, y, 1).inv();
        u0 * u1_fwd * u0_up_inv * u1_inv
    }

    /// Compute the ternary divergence (Gauss's law charge) at site (x, y).
    ///
    /// `div(x,y) = [U_0(x,y) + U_1(x,y) - U_0(x-1,y) - U_1(x,y-1)] mod 3`
    ///
    /// Returns the ternary charge: 0 = neutral, 1 = γ-charge, 2 = η-charge.
    pub fn ternary_divergence(&self, x: usize, y: usize) -> (r: u8)
        requires
            self@.wf(),
            self@.has_sites(),
            x + self@.lx <= usize::MAX,
            y + self@.ly <= usize::MAX,
        ensures
            r == self@.divergence(x as int, y as int),
            r < 3,
    {
        let lx = self.lx;
        let ly = self.ly;
        let xl = (x + lx - 1) % lx;
        let yb = (y + ly - 1) % ly;
        proof {
            lemma_link_index_in_range(self@, x as int, y as int, 0);
            lemma_link_index_in_range(self@, x as int, y as int, 1);
            lemma_link_index_in_range(self@, xl as int, y as int, 0);
            lemma_link_index_in_range(self@, x as int, yb as int, 1);
        }
        let u0_out = self.get_link(x, y, 0).exp();
        let u1_out = self.get_link(x, y, 1).exp();
        // Links pointing *into* the site (backward from neighbors)
        let u0_in = self.get_link(xl, y, 0).exp();
        let u1_in = self.get_link(x, yb, 1).exp();
        // Net flux = outgoing - incoming, mod 3 (offset by 6 to stay non-negative)
        (u0_out + u1_out + 6 - u0_in - u1_in) % 3
    }

    /// Compute the plaquette that a given link participates in.
    ///
    /// In 2D, each link is part of exactly 2 plaquettes:
    /// - `forward=true`: the plaquette "above" (for μ=0) or "to the right" (for μ=1)
    /// - `forward=false`: the plaquette "below" or "to the left"
    ///
    /// This is used for efficient local ΔS computation.
    pub fn plaquette_for_link(&self, x: usize, y: usize, mu: usize, forward: bool) -> (r: Z3)
        requires
            self@.wf(),
            self@.has_sites(),
            mu < 2,
            x < usize::MAX,
            y < usize::MAX,
            mu == 0 && !forward ==> y + self@.ly <= usize::MAX,
            mu == 1 && !forward ==> x + self@.lx <= usize::MAX,
        ensures
            r@ == self@.plaquette_of_link(x as int, y as int, mu as int, forward),
    {
        if forward {
            // μ=0: the plaquette (x,y) with ν=1; μ=1: the plaquette (x,y) it closes on the left
            self.plaquette(x, y)
        } else if mu == 0 {
            // μ=0 (x-link), backward plaquette: (x,y-1) with ν=1
            self.plaquette(x, y + self.ly - 1)
        } else {
            // μ=1 (y-link), backward plaquette: (x-1,y)
            self.plaquette(x + self.lx - 1, y)
        }
    }

    /// Verify the global conservation law (γ + η = C).
    ///
    /// In a pure gauge theory on a closed manifold (periodic BCs), the total
    /// ternary charge must vanish: Σ_x div(x) = 0 mod 3.
    ///
    /// Returns `true` if global conservation holds, plus per-site divergences
    /// of the sites where it is non-zero.
    pub fn verify_conservation(&self) -> (r: (bool, Vec<((usize, usize), u8)>))
        requires
            self@.wf(),
            self@.total_charge() <= i32::MAX,
        ensures
            r.0 == (self@.total_charge() % 3 == 0),
            r.0,
            r.1@ == self@.violations(),
    {
        let lx = self.lx;
        let ly = self.ly;
        let ghost v = self@;
        let ghost f = v.divergence_fn();
        let mut total_charge: i32 = 0;
        let mut sites: Vec<((usize, usize), u8)> = Vec::new();
        let mut y: usize = 0;
        while y < ly
            invariant
                v == self@,
                v.wf(),
                f == v.divergence_fn(),
                lx == v.lx,
                ly == v.ly,
                y <= ly,
                v.total_charge() <= i32::MAX,
                total_charge as int == grid_sum(f, v.lx, y as nat),
                sites@ == v.violations_in_rows(y as nat),
            decreases ly - y,
        {
            let mut x: usize = 0;
            while x < lx
                invariant
                    v == self@,
                    v.wf(),
                    f == v.divergence_fn(),
                    lx == v.lx,
                    ly == v.ly,
                    y < ly,
                    x <= lx,
                    v.total_charge() <= i32::MAX,
                    total_charge as int == grid_sum(f, v.lx, y as nat) + row_sum(f, y as int, x as nat),
                    sites@ == v.violations_in_rows(y as nat) + v.violations_in_row(y as int, x as nat),
                decreases lx - x,
            {
                proof {
                    lemma_extents_fit(v);
                }
                let div = self.ternary_divergence(x, y);
                proof {
                    assert forall|i: int, j: int| 0 <= i < v.lx && 0 <= j < v.ly implies #[trigger] f(i, j) >= 0 by {}
                    lemma_scan_prefix_bounded(f, v.lx, v.ly, (x + 1) as nat, y as nat);
                }
                total_charge = total_charge + div as i32;
                if div != 0 {
                    sites.push(((x, y), div));
                }
                proof {
                    assert(sites@ =~= v.violations_in_rows(y as nat) + v.violations_in_row(y as int, (x + 1) as nat));
                }
                x = x + 1;
            }
            proof {
                assert(sites@ =~= v.violations_in_rows((y + 1) as nat));
            }
            y = y + 1;
        }
        let global_ok = total_charge % 3 == 0;
        proof {
            crate::laws::lemma_global_conservation(v);
        }
        (global_ok, sites)
    }

    /// Count sites by ternary charge type.
    ///
    /// Returns `(neutral, gamma, eta)` counts where:
    /// - neutral (0): no net ternary charge
    /// - gamma (1): γ-type charge
    /// - eta (2): η-type charge
    pub fn charge_histogram(&self) -> (r: (usize, usize, usize))
        requires
            self@.wf(),
        ensures
            r.0 == self@.charge_count(0),
            r.1 == self@.charge_count(1),
            r.2 == self@.charge_count(2),
    {
        let lx = self.lx;
        let ly = self.ly;
        let ghost v = self@;
        let ghost f0 = v.charge_indicator(0);
        let ghost f1 = v.charge_indicator(1);
        let ghost f2 = v.charge_indicator(2);
        let mut neutral: usize = 0;
        let mut gamma: usize = 0;
        let mut eta: usize = 0;
        let mut y: usize = 0;
        while y < ly
            invariant
                v == self@,
                v.wf(),
                f0 == v.charge_indicator(0),
                f1 == v.charge_indicator(1),
                f2 == v.charge_indicator(2),
                lx == v.lx,
                ly == v.ly,
                y <= ly,
                neutral as int == grid_sum(f0, v.lx, y as nat),
                gamma as int == grid_sum(f1, v.lx, y as nat),
                eta as int == grid_sum(f2, v.lx, y as nat),
            decreases ly - y,
        {
            let mut x: usize = 0;
            while x < lx
                invariant
                    v == self@,
                    v.wf(),
                    f0 == v.charge_indicator(0),
                    f1 == v.charge_indicator(1),
                    f2 == v.charge_indicator(2),
                    lx == v.lx,
                    ly == v.ly,
                    y < ly,
                    x <= lx,
                    neutral as int == grid_sum(f0, v.lx, y as nat) + row_sum(f0, y as int, x as nat),
                    gamma as int == grid_sum(f1, v.lx, y as nat) + row_sum(f1, y as int, x as nat),
                    eta as int == grid_sum(f2, v.lx, y as nat) + row_sum(f2, y as int, x as nat),
                decreases lx - x,
            {
                proof {
                    lemma_extents_fit(v);
                    lemma_indicator_prefix_bounded(v.charge_indicator(0), v.lx, v.ly, x as nat, y as nat);
                    lemma_indicator_prefix_bounded(v.charge_indicator(1), v.lx, v.ly, x as nat, y as nat);
                    lemma_indicator_prefix_bounded(v.charge_indicator(2), v.lx, v.ly, x as nat, y as nat);
                }
                let div = self.ternary_divergence(x, y);
                if div == 0 {
                    neutral = neutral + 1;
                } else if div == 1 {
                    gamma = gamma + 1;
                } else {
                    eta = eta + 1;
                }
                x = x + 1;
            }
            y = y + 1;
        }
        (neutral, gamma, eta)
    }

    /// Measure the ternary charge distribution across the lattice.
    ///
    /// Returns the total γ-charge and η-charge (mod 3 each), plus
    /// the total conserved charge C = γ + η (mod 3).
    pub fn measure_ternary_charge(&self) -> (r: TernaryCharge)
        requires
            self@.wf(),
        ensures
            r.gamma_sites == self@.charge_count(1),
            r.eta_sites == self@.charge_count(2),
            r.gamma == self@.charge_count(1) % 3,
            r.eta == self@.charge_count(2) % 3,
            r.c == (r.gamma + r.eta) % 3,
            r.gamma == r.eta,
    {
        let lx = self.lx;
        let ly = self.ly;
        let ghost v = self@;
        let ghost f1 = v.charge_indicator(1);
        let ghost f2 = v.charge_indicator(2);
        let mut gamma_total: u8 = 0;
        let mut eta_total: u8 = 0;
        let mut gamma_sites: usize = 0;
        let mut eta_sites: usize = 0;
        let mut y: usize = 0;
        while y < ly
            invariant
                v == self@,
                v.wf(),
                f1 == v.charge_indicator(1),
                f2 == v.charge_indicator(2),
                lx == v.lx,
                ly == v.ly,
                y <= ly,
                gamma_sites as int == grid_sum(f1, v.lx, y as nat),
                eta_sites as int == grid_sum(f2, v.lx, y as nat),
                gamma_total as int == gamma_sites % 3,
                eta_total as int == eta_sites % 3,
            decreases ly - y,
        {
            let mut x: usize = 0;
            while x < lx
                invariant
                    v == self@,
                    v.wf(),
                    f1 == v.charge_indicator(1),
                    f2 == v.charge_indicator(2),
                    lx == v.lx,
                    ly == v.ly,
                    y < ly,
                    x <= lx,
                    gamma_sites as int == grid_sum(f1, v.lx, y as nat) + row_sum(f1, y as int, x as nat),
                    eta_sites as int == grid_sum(f2, v.lx, y as nat) + row_sum(f2, y as int, x as nat),
                    gamma_total as int == gamma_sites % 3,
                    eta_total as int == eta_sites % 3,
                decreases lx - x,
            {
                proof {
                    lemma_extents_fit(v);
                    lemma_indicator_prefix_bounded(v.charge_indicator(1), v.lx, v.ly, x as nat, y as nat);
                    lemma_indicator_prefix_bounded(v.charge_indicator(2), v.lx, v.ly, x as nat, y as nat);
                }
                let div = self.ternary_divergence(x, y);
                if div == 1 {
                    gamma_total = (gamma_total + 1) % 3;
                    gamma_sites = gamma_sites + 1;
                } else if div == 2 {
                    eta_total = (eta_total + 1) % 3;
                    eta_sites = eta_sites + 1;
                }
                x = x + 1;
            }
            y = y + 1;
        }
        let c_total = (gamma_total + eta_total) % 3;
        proof {
            crate::laws::lemma_charge_balance(v);
        }
        TernaryCharge { gamma: gamma_total, eta: eta_total, c: c_total, gamma_sites, eta_sites }
    }

    /// Wilson loop W(R, T): product of link variables around an R×T rectangle.
    ///
    /// Starting at (x, y), go R steps in x, T steps in y, back R in x, back T in y.
    /// Its real part is `twice_re() / 2` of the result.
    pub fn wilson_loop(&self, x: usize, y: usize, r: usize, t: usize) -> (w: Z3)
        requires
            self@.wf(),
            r > 0 || t > 0 ==> self@.has_sites(),
            r > 0 ==> x + r - 1 <= usize::MAX && y + t <= usize::MAX,
            t > 0 ==> x + r <= usize::MAX && y + t - 1 <= usize::MAX,
        ensures
            w@ == self@.wilson_loop(x as int, y as int, r as nat, t as nat),
    {
        let ghost v = self@;
        let ghost fwd_x = v.path_x(x as int, y as int, r as nat);
        let ghost fwd_y = v.path_y(x + r, y as int, t as nat);
        let ghost back_x = v.path_x(x as int, y + t, r as nat);
        let mut product = Z3::one();

        // Forward in x (R steps)
        let mut i: usize = 0;
        while i < r
            invariant
                v == self@,
                v.wf(),
                r > 0 ==> v.has_sites() && x + r - 1 <= usize::MAX,
                i <= r,
                product@ == v.path_x(x as int, y as int, i as nat) % 3,
            decreases r - i,
        {
            proof {
                lemma_link_index_in_range(v, x + i, y as int, 0);
                crate::z3::lemma_z3_mul_accumulates(v.path_x(x as int, y as int, i as nat), v.link(x + i, y as int, 0));
            }
            product = product * self.get_link(x + i, y, 0);
            i = i + 1;
        }
        // Forward in y (T steps)
        let mut j: usize = 0;
        while j < t
            invariant
                v == self@,
                v.wf(),
                t > 0 ==> v.has_sites() && x + r <= usize::MAX && y + t - 1 <= usize::MAX,
                j <= t,
                fwd_x == v.path_x(x as int, y as int, r as nat),
                product@ == (fwd_x + v.path_y(x + r, y as int, j as nat)) % 3,
            decreases t - j,
        {
            proof {
                lemma_link_index_in_range(v, x + r, y + j, 1);
                crate::z3::lemma_z3_mul_accumulates(fwd_x + v.path_y(x + r, y as int, j as nat), v.link(x + r, y + j, 1));
            }
            product = product * self.get_link(x + r, y + j, 1);
            j = j + 1;
        }
        // Backward in x (R steps)
        let mut i: usize = r;
        while i > 0
            invariant
                v == self@,
                v.wf(),
                r > 0 ==> v.has_sites() && x + r - 1 <= usize::MAX && y + t <= usize::MAX,
                i <= r,
                fwd_x == v.path_x(x as int, y as int, r as nat),
                fwd_y == v.path_y(x + r, y as int, t as nat),
                back_x == v.path_x(x as int, y + t, r as nat),
                product@ == (fwd_x + fwd_y - (back_x - v.path_x(x as int, y + t, i as nat))) % 3,
            decreases i,
        {
            i = i - 1;
            proof {
                lemma_link_index_in_range(v, x + i, y + t, 0);
                crate::z3::lemma_z3_mul_inv_accumulates(
                    fwd_x + fwd_y - (back_x - v.path_x(x as int, y + t, (i + 1) as nat)),
                    v.link(x + i, y + t, 0),
                );
            }
            product = product * self.get_link(x + i, y + t, 0).inv();
        }
        // Backward in y (T steps)
        let mut j: usize = t;
        while j > 0
            invariant
                v == self@,
                v.wf(),
                t > 0 ==> v.has_sites() && y + t - 1 <= usize::MAX,
                j <= t,
                fwd_x == v.path_x(x as int, y as int, r as nat),
                fwd_y == v.path_y(x + r, y as int, t as nat),
                back_x == v.path_x(x as int, y + t, r as nat),
                product@ == (fwd_x + fwd_y - back_x - (v.path_y(x as int, y as int, t as nat) - v.path_y(
                    x as int,
                    y as int,
                    j as nat,
                ))) % 3,
            decreases j,
        {
            j = j - 1;
            proof {
                lemma_link_index_in_range(v, x as int, y + j, 1);
                crate::z3::lemma_z3_mul_inv_accumulates(
                    fwd_x + fwd_y - back_x - (v.path_y(x as int, y as int, t as nat) - v.path_y(
                        x as int,
                        y as int,
                        (j + 1) as nat,
                    )),
                    v.link(x as int, y + j, 1),
                );
            }
            product = product * self.get_link(x, y + j, 1).inv();
        }
        product
    }

    /// Number of plaquettes equal to the identity.
    ///
    /// Every other plaquette has real part -1/2, so with `n` plaquettes in all the sum of
    /// `Re(U_p)` is `count - (n - count) / 2` (`laws::lemma_twice_re_from_counts`): the Wilson
    /// action `S = -β Σ_p Re(U_p)` and the average plaquette follow from this count.
    pub fn trivial_plaquette_count(&self) -> (r: usize)
        requires
            self@.wf(),
        ensures
            r == self@.trivial_plaquette_count(),
    {
        let lx = self.lx;
        let ly = self.ly;
        let ghost v = self@;
        let ghost f = v.trivial_plaquette_indicator();
        let mut count: usize = 0;
        let mut y: usize = 0;
        while y < ly
            invariant
                v == self@,
                v.wf(),
                f == v.trivial_plaquette_indicator(),
                lx == v.lx,
                ly == v.ly,
                y <= ly,
                count as int == grid_sum(f, v.lx, y as nat),
            decreases ly - y,
        {
            let mut x: usize = 0;
            while x < lx
                invariant
                    v == self@,
                    v.wf(),
                    f == v.trivial_plaquette_indicator(),
                    lx == v.lx,
                    ly == v.ly,
                    y < ly,
                    x <= lx,
                    count as int == grid_sum(f, v.lx, y as nat) + row_sum(f, y as int, x as nat),
                decreases lx - x,
            {
                proof {
                    lemma_extents_fit(v);
                    lemma_indicator_prefix_bounded(f, v.lx, v.ly, x as nat, y as nat);
                }
                if self.plaquette(x, y).exp() == 0 {
                    count = count + 1;
                }
                x = x + 1;
            }
            y = y + 1;
        }
        count
    }

    /// Number of sites whose R×T Wilson loop is the identity.
    ///
    /// Every other loop has real part -1/2, so the average Wilson loop over all starting
    /// sites follows from this count (`laws::lemma_twice_re_from_counts`).
    pub fn trivial_wilson_loop_count(&self, r: usize, t: usize) -> (n: usize)
        requires
            self@.wf(),
            r > 0 ==> self@.lx + r - 2 <= usize::MAX && self@.ly + t - 1 <= usize::MAX,
            t > 0 ==> self@.lx + r - 1 <= usize::MAX && self@.ly + t - 2 <= usize::MAX,
        ensures
            n == self@.trivial_wilson_loop_count(r as nat, t as nat),
    {
        let lx = self.lx;
        let ly = self.ly;
        let ghost v = self@;
        let ghost f = v.trivial_wilson_loop_indicator(r as nat, t as nat);
        let mut count: usize = 0;
        let mut y: usize = 0;
        while y < ly
            invariant
                v == self@,
                v.wf(),
                f == v.trivial_wilson_loop_indicator(r as nat, t as nat),
                lx == v.lx,
                ly == v.ly,
                r > 0 ==> v.lx + r - 2 <= usize::MAX && v.ly + t - 1 <= usize::MAX,
                t > 0 ==> v.lx + r - 1 <= usize::MAX && v.ly + t - 2 <= usize::MAX,
                y <= ly,
                count as int == grid_sum(f, v.lx, y as nat),
            decreases ly - y,
        {
            let mut x: usize = 0;
            while x < lx
                invariant
                    v == self@,
                    v.wf(),
                    f == v.trivial_wilson_loop_indicator(r as nat, t as nat),
                    lx == v.lx,
                    ly == v.ly,
                    r > 0 ==> v.lx + r - 2 <= usize::MAX && v.ly + t - 1 <= usize::MAX,
                    t > 0 ==> v.lx + r - 1 <= usize::MAX && v.ly + t - 2 <= usize::MAX,
                    y < ly,
                    x <= lx,
                    count as int == grid_sum(f, v.lx, y as nat) + row_sum(f, y as int, x as nat),
                decreases lx - x,
            {
                proof {
                    lemma_extents_fit(v);
                    lemma_indicator_prefix_bounded(f, v.lx, v.ly, x as nat, y as nat);
                }
                if self.wilson_loop(x, y, r, t).exp() == 0 {
                    count = count + 1;
                }
                x = x + 1;
            }
            y = y + 1;
        }
        count
    }
}

} // verus!
