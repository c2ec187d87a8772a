use vstd::prelude::*;
use crate::lattice::LatticeView;
use crate::metropolis::local_twice_re_change;
use crate::z3::{z3_inv, z3_mul, z3_twice_re};
use crate::sums::{grid_sum, lemma_grid_sum_add, lemma_grid_sum_cyclic_col_shift, lemma_grid_sum_cyclic_row_shift, lemma_grid_sum_ext, lemma_grid_sum_indicator_bounded, lemma_grid_sum_mod3, lemma_grid_sum_one, lemma_grid_sum_point, lemma_grid_sum_sub};

verus! {

/// Raw (unreduced) flux out of a site: outgoing minus incoming exponents.
pub open spec fn raw_flux(v: LatticeView, x: int, y: int) -> int {
    v.link(x, y, 0) + v.link(x, y, 1) - v.link(v.left(x), y, 0) - v.link(x, v.below(y), 1)
}

/// The raw fluxes of a closed (periodic) lattice sum to exactly zero: every link leaves one
/// site and enters another, so it is counted once with each sign.
pub proof fn lemma_raw_flux_sums_to_zero(v: LatticeView)
    requires
        v.has_sites(),
    ensures
        grid_sum(|x: int, y: int| raw_flux(v, x, y), v.lx, v.ly) == 0,
{
    let lx = v.lx;
    let ly = v.ly;
    let a = |x: int, y: int| v.link(x, y, 0) as int;
    let b = |x: int, y: int| v.link(x, y, 1) as int;
    let c = |x: int, y: int| v.link(v.left(x), y, 0) as int;
    let d = |x: int, y: int| v.link(x, v.below(y), 1) as int;
    let ac = |x: int, y: int| a(x, y) - c(x, y);
    let bd = |x: int, y: int| b(x, y) - d(x, y);
    let raw = |x: int, y: int| raw_flux(v, x, y);
    // incoming x-links are the outgoing x-links shifted by one site along each row
    lemma_grid_sum_cyclic_col_shift(c, a, lx, ly);
    // incoming y-links are the outgoing y-links shifted by one row
    lemma_grid_sum_cyclic_row_shift(d, b, lx, ly);
    lemma_grid_sum_sub(a, c, ac, lx, ly);
    lemma_grid_sum_sub(b, d, bd, lx, ly);
    lemma_grid_sum_add(ac, bd, raw, lx, ly);
}

/// Gauss's law on a closed lattice (γ + η = C): the ternary charges of all sites sum to
/// zero modulo 3, for every configuration of the links.
pub proof fn lemma_global_conservation(v: LatticeView)
    ensures
        v.total_charge() % 3 == 0,
{
    if v.has_sites() {
        let raw = |x: int, y: int| raw_flux(v, x, y);
        lemma_raw_flux_sums_to_zero(v);
        lemma_grid_sum_mod3(v.divergence_fn(), raw, v.lx, v.ly);
    } else if v.lx == 0 {
        lemma_grid_sum_indicator_bounded(v.divergence_fn(), v.lx, v.ly);
        assert(v.lx * v.ly == 0);
    }
}

/// Every site carries exactly one of the three ternary charges, so the histogram of charges
/// adds up to the number of sites.
pub proof fn lemma_histogram_total(v: LatticeView)
    ensures
        v.charge_count(0) + v.charge_count(1) + v.charge_count(2) == v.lx * v.ly,
{
    let f0 = v.charge_indicator(0);
    let f1 = v.charge_indicator(1);
    let f2 = v.charge_indicator(2);
    let f01 = |x: int, y: int| f0(x, y) + f1(x, y);
    let all = |x: int, y: int| f01(x, y) + f2(x, y);
    lemma_grid_sum_add(f0, f1, f01, v.lx, v.ly);
    lemma_grid_sum_add(f01, f2, all, v.lx, v.ly);
    lemma_grid_sum_one(all, v.lx, v.ly);
}

/// The total ternary charge counts each γ-site once and each η-site twice; with Gauss's
/// law this forces the numbers of γ-sites and η-sites to agree modulo 3.
pub proof fn lemma_charge_balance(v: LatticeView)
    ensures
        v.total_charge() == v.charge_count(1) + 2 * v.charge_count(2),
        v.charge_count(1) % 3 == v.charge_count(2) % 3,
{
    let f1 = v.charge_indicator(1);
    let f2 = v.charge_indicator(2);
    let f12 = |x: int, y: int| f1(x, y) + f2(x, y);
    let div = |x: int, y: int| f12(x, y) + f2(x, y);
    lemma_grid_sum_add(f1, f2, f12, v.lx, v.ly);
    lemma_grid_sum_add(f12, f2, div, v.lx, v.ly);
    lemma_grid_sum_ext(v.divergence_fn(), div, v.lx, v.ly);
    lemma_global_conservation(v);
    let n1 = v.charge_count(1);
    let n2 = v.charge_count(2);
    assert(n1 % 3 == n2 % 3) by {
        vstd::arithmetic::div_mod::lemma_mod_sub_multiples_vanish(n1 + 2 * n2, 3);
        assert((n1 + 2 * n2 - 3 * n2) == n1 - n2);
        vstd::arithmetic::div_mod::lemma_sub_mod_noop(n1 + 2 * n2, 3 * n2, 3);
        vstd::arithmetic::div_mod::lemma_mod_multiples_basic(n2, 3);
        vstd::arithmetic::div_mod::lemma_sub_mod_noop(n1, n2, 3);
        vstd::arithmetic::div_mod::lemma_mod_bound(n1, 3);
        vstd::arithmetic::div_mod::lemma_mod_bound(n2, 3);
    }
}

/// Two in-range storage positions of links coincide only for the same wrapped site and the
/// same direction.
pub proof fn lemma_link_index_injective(v: LatticeView, a: int, b: int, m: int, x: int, y: int, mu: int)
    requires
        v.has_sites(),
        0 <= m < 2,
        0 <= mu < 2,
        0 <= x < v.lx,
        0 <= y < v.ly,
        v.link_index(a, b, m) == v.link_index(x, y, mu),
    ensures
        m == mu,
        a % (v.lx as int) == x,
        b % (v.ly as int) == y,
{
    let lx = v.lx as int;
    let ly = v.ly as int;
    let a1 = a % lx;
    let b1 = b % ly;
    let p = b1 * lx + a1;
    let q = y * lx + x;
    vstd::arithmetic::div_mod::lemma_small_mod(x as nat, v.lx);
    vstd::arithmetic::div_mod::lemma_small_mod(y as nat, v.ly);
    assert(p == q && m == mu);
    vstd::arithmetic::div_mod::lemma_fundamental_div_mod_converse(p, lx, b1, a1);
    vstd::arithmetic::div_mod::lemma_fundamental_div_mod_converse(q, lx, y, x);
}

/// Stepping one site forward and then one site back, cyclically, returns to the start:
/// for in-range `p` and `q`, `q` follows `p` exactly when `p` precedes `q`.
pub proof fn lemma_cyclic_successor(n: int, p: int, q: int)
    requires
        0 <= p < n,
        0 <= q < n,
    ensures
        ((p + 1) % n == q) <==> (p == (q + n - 1) % n),
{
    if p + 1 < n {
        vstd::arithmetic::div_mod::lemma_small_mod((p + 1) as nat, n as nat);
    } else {
        vstd::arithmetic::div_mod::lemma_mod_self_0(n);
    }
    if q >= 1 {
        vstd::arithmetic::div_mod::lemma_mod_add_multiples_vanish(q - 1, n);
        vstd::arithmetic::div_mod::lemma_small_mod((q - 1) as nat, n as nat);
    } else {
        vstd::arithmetic::div_mod::lemma_small_mod((n - 1) as nat, n as nat);
    }
}

/// Links, and hence plaquettes, are periodic: shifting a site by a whole lattice extent in
/// either direction reads the same storage position.
pub proof fn lemma_link_periodic(v: LatticeView, x: int, y: int, mu: int)
    requires
        v.has_sites(),
    ensures
        v.link_index(x + v.lx, y, mu) == v.link_index(x, y, mu),
        v.link_index(x, y + v.ly, mu) == v.link_index(x, y, mu),
{
    vstd::arithmetic::div_mod::lemma_mod_add_multiples_vanish(x, v.lx as int);
    vstd::arithmetic::div_mod::lemma_mod_add_multiples_vanish(y, v.ly as int);
}

/// Plaquettes only depend on their site modulo the lattice extents.
pub proof fn lemma_plaquette_periodic(v: LatticeView, x: int, y: int, x2: int, y2: int)
    requires
        v.has_sites(),
        x % (v.lx as int) == x2 % (v.lx as int),
        y % (v.ly as int) == y2 % (v.ly as int),
    ensures
        v.plaquette(x, y) == v.plaquette(x2, y2),
{
    let lx = v.lx as int;
    let ly = v.ly as int;
    vstd::arithmetic::div_mod::lemma_add_mod_noop(x, 1, lx);
    vstd::arithmetic::div_mod::lemma_add_mod_noop(x2, 1, lx);
    vstd::arithmetic::div_mod::lemma_add_mod_noop(y, 1, ly);
    vstd::arithmetic::div_mod::lemma_add_mod_noop(y2, 1, ly);
    assert(v.link_index(x + 1, y, 1) == v.link_index(x2 + 1, y2, 1));
    assert(v.link_index(x, y + 1, 0) == v.link_index(x2, y2 + 1, 0));
}

/// The plaquette is the net flux around its square: the exponents of the two forward links
/// minus those of the two backward links, mod 3.
pub proof fn lemma_plaquette_flux(v: LatticeView, x: int, y: int)
    requires
        v.wf(),
        v.has_sites(),
    ensures
        v.plaquette(x, y) == (v.link(x, y, 0) + v.link(x + 1, y, 1) - v.link(x, y + 1, 0) - v.link(x, y, 1)) % 3,
{
    let a = v.link(x, y, 0);
    let b = v.link(x + 1, y, 1);
    let c = v.link(x, y + 1, 0);
    let d = v.link(x, y, 1);
    crate::lattice::lemma_link_index_in_range(v, x, y, 0);
    vstd::arithmetic::div_mod::lemma_small_mod(a, 3);
    crate::z3::lemma_z3_mul_accumulates(a as int, b);
    crate::z3::lemma_z3_mul_inv_accumulates((a + b) as int, c);
    crate::z3::lemma_z3_mul_inv_accumulates(a + b - c, d);
}

/// The smallest Wilson loop, the 1 × 1 loop, is the plaquette of the same site.
pub proof fn lemma_unit_wilson_loop_is_plaquette(v: LatticeView, x: int, y: int)
    requires
        v.wf(),
        v.has_sites(),
    ensures
        v.wilson_loop(x, y, 1, 1) == v.plaquette(x, y),
{
    lemma_plaquette_flux(v, x, y);
    assert(v.path_x(x, y, 0) == 0);
    assert(v.path_y(x + 1, y, 0) == 0);
    assert(v.path_x(x, y + 1, 0) == 0);
    assert(v.path_y(x, y, 0) == 0);
    assert(v.path_x(x, y, 1) == v.link(x, y, 0));
    assert(v.path_y(x + 1, y, 1) == v.link(x + 1, y, 1));
    assert(v.path_x(x, y + 1, 1) == v.link(x, y + 1, 0));
    assert(v.path_y(x, y, 1) == v.link(x, y, 1));
}

/// The configuration `w` is `v` with at most the link `U_μ(x, y)` changed.
pub open spec fn differs_only_at_link(v: LatticeView, w: LatticeView, x: int, y: int, mu: int) -> bool {
    &&& w.lx == v.lx
    &&& w.ly == v.ly
    &&& w.links.len() == v.links.len()
    &&& forall|i: int|
        0 <= i < v.links.len() && i != v.link_index(x, y, mu) ==> #[trigger] w.links[i] == v.links[i]
}

/// The site `(qx, qy)` of the second plaquette that contains the link `U_μ(x, y)`:
/// `(x, y - 1)` for `μ = 0` and `(x - 1, y)` for `μ = 1`, wrapped.
pub open spec fn second_plaquette_site(v: LatticeView, x: int, y: int, mu: int) -> (int, int) {
    if mu == 0 {
        (x, v.below(y))
    } else {
        (v.left(x), y)
    }
}

/// The site that the link `U_μ(x, y)` enters: `(x + 1, y)` for `μ = 0` and `(x, y + 1)` for
/// `μ = 1`, wrapped.
pub open spec fn link_target(v: LatticeView, x: int, y: int, mu: int) -> (int, int) {
    if mu == 0 {
        ((x + 1) % (v.lx as int), y)
    } else {
        (x, (y + 1) % (v.ly as int))
    }
}

/// After a link changes, the value it is read at from any other link position is unchanged,
/// and reading the changed position gives the new link.
proof fn lemma_read_after_update(v: LatticeView, w: LatticeView, x: int, y: int, mu: int, a: int, b: int, m: int)
    requires
        v.wf(),
        v.has_sites(),
        differs_only_at_link(v, w, x, y, mu),
        0 <= mu < 2,
        0 <= m < 2,
    ensures
        v.link_index(a, b, m) != v.link_index(x, y, mu) ==> w.link(a, b, m) == v.link(a, b, m),
        v.link_index(a, b, m) == v.link_index(x, y, mu) ==> w.link(a, b, m) == w.link(x, y, mu)
            && v.link(a, b, m) == v.link(x, y, mu),
{
    crate::lattice::lemma_link_index_in_range(v, a, b, m);
}

/// Changing one link changes no plaquette but the two that contain it (those at `(x, y)`
/// and at `second_plaquette_site`).
pub proof fn lemma_update_plaquette_locality(v: LatticeView, w: LatticeView, x: int, y: int, mu: int, px: int, py: int)
    requires
        v.wf(),
        v.has_sites(),
        differs_only_at_link(v, w, x, y, mu),
        0 <= x < v.lx,
        0 <= y < v.ly,
        0 <= mu < 2,
        0 <= px < v.lx,
        0 <= py < v.ly,
        !(px == x && py == y),
        !(px == second_plaquette_site(v, x, y, mu).0 && py == second_plaquette_site(v, x, y, mu).1),
    ensures
        w.plaquette(px, py) == v.plaquette(px, py),
{
    let lx = v.lx as int;
    let ly = v.ly as int;
    let idx = v.link_index(x, y, mu);
    vstd::arithmetic::div_mod::lemma_small_mod(px as nat, v.lx);
    vstd::arithmetic::div_mod::lemma_small_mod(py as nat, v.ly);
    if v.link_index(px, py, 0) == idx {
        lemma_link_index_injective(v, px, py, 0, x, y, mu);
    }
    if v.link_index(px, py, 1) == idx {
        lemma_link_index_injective(v, px, py, 1, x, y, mu);
    }
    if v.link_index(px + 1, py, 1) == idx {
        lemma_link_index_injective(v, px + 1, py, 1, x, y, mu);
        lemma_cyclic_successor(lx, px, x);
    }
    if v.link_index(px, py + 1, 0) == idx {
        lemma_link_index_injective(v, px, py + 1, 0, x, y, mu);
        lemma_cyclic_successor(ly, py, y);
    }
    lemma_read_after_update(v, w, x, y, mu, px, py, 0);
    lemma_read_after_update(v, w, x, y, mu, px + 1, py, 1);
    lemma_read_after_update(v, w, x, y, mu, px, py + 1, 0);
    lemma_read_after_update(v, w, x, y, mu, px, py, 1);
}

/// The two plaquettes that contain a link are distinct when the lattice extent across the
/// link is at least 2.
proof fn lemma_link_plaquettes_distinct(v: LatticeView, x: int, y: int, mu: int)
    requires
        v.has_sites(),
        0 <= x < v.lx,
        0 <= y < v.ly,
        0 <= mu < 2,
        mu == 0 ==> v.ly >= 2,
        mu == 1 ==> v.lx >= 2,
    ensures
        0 <= second_plaquette_site(v, x, y, mu).0 < v.lx,
        0 <= second_plaquette_site(v, x, y, mu).1 < v.ly,
        !(second_plaquette_site(v, x, y, mu).0 == x && second_plaquette_site(v, x, y, mu).1 == y),
{
    let lx = v.lx as int;
    let ly = v.ly as int;
    vstd::arithmetic::div_mod::lemma_mod_bound(x + lx - 1, lx);
    vstd::arithmetic::div_mod::lemma_mod_bound(y + ly - 1, ly);
    if mu == 0 {
        lemma_cyclic_successor(ly, y, y);
        if y + 1 < ly {
            vstd::arithmetic::div_mod::lemma_small_mod((y + 1) as nat, v.ly);
        } else {
            vstd::arithmetic::div_mod::lemma_mod_self_0(ly);
        }
    } else {
        lemma_cyclic_successor(lx, x, x);
        if x + 1 < lx {
            vstd::arithmetic::div_mod::lemma_small_mod((x + 1) as nat, v.lx);
        } else {
            vstd::arithmetic::div_mod::lemma_mod_self_0(lx);
        }
    }
}

/// Across an extent of 1 a link closes on itself: it enters its plaquette once forward and
/// once backward, so changing it changes no plaquette at all.
proof fn lemma_update_across_unit_extent(v: LatticeView, w: LatticeView, x: int, y: int, mu: int, px: int, py: int)
    requires
        v.wf(),
        w.wf(),
        v.has_sites(),
        differs_only_at_link(v, w, x, y, mu),
        0 <= x < v.lx,
        0 <= y < v.ly,
        0 <= mu < 2,
        mu == 0 ==> v.ly == 1,
        mu == 1 ==> v.lx == 1,
    ensures
        w.plaquette(px, py) == v.plaquette(px, py),
{
    let idx = v.link_index(x, y, mu);
    lemma_plaquette_flux(v, px, py);
    lemma_plaquette_flux(w, px, py);
    vstd::arithmetic::div_mod::lemma_mod_bound(px, v.lx as int);
    vstd::arithmetic::div_mod::lemma_mod_bound(px + 1, v.lx as int);
    vstd::arithmetic::div_mod::lemma_mod_bound(py, v.ly as int);
    vstd::arithmetic::div_mod::lemma_mod_bound(py + 1, v.ly as int);
    if mu == 0 {
        // the two x-links of the plaquette are the same link
        assert(v.link_index(px, py, 0) == v.link_index(px, py + 1, 0));
    } else {
        // the two y-links of the plaquette are the same link
        assert(v.link_index(px + 1, py, 1) == v.link_index(px, py, 1));
    }
    if v.link_index(px, py, 0) == idx {
        lemma_link_index_injective(v, px, py, 0, x, y, mu);
    }
    if v.link_index(px, py + 1, 0) == idx {
        lemma_link_index_injective(v, px, py + 1, 0, x, y, mu);
    }
    if v.link_index(px + 1, py, 1) == idx {
        lemma_link_index_injective(v, px + 1, py, 1, x, y, mu);
    }
    if v.link_index(px, py, 1) == idx {
        lemma_link_index_injective(v, px, py, 1, x, y, mu);
    }
    lemma_read_after_update(v, w, x, y, mu, px, py, 0);
    lemma_read_after_update(v, w, x, y, mu, px + 1, py, 1);
    lemma_read_after_update(v, w, x, y, mu, px, py + 1, 0);
    lemma_read_after_update(v, w, x, y, mu, px, py, 1);
}

/// Local action change: when a single link changes, the change of the total `Σ_p Re(U_p)`
/// (and hence of the Wilson action) is the change over the two plaquettes that contain the
/// link, as the Metropolis update computes it. Across an extent of 1 the two plaquettes are
/// one and the same and do not change, so both sides are 0.
pub proof fn lemma_local_action_change(v: LatticeView, w: LatticeView, x: int, y: int, mu: int)
    requires
        v.wf(),
        w.wf(),
        v.has_sites(),
        differs_only_at_link(v, w, x, y, mu),
        0 <= x < v.lx,
        0 <= y < v.ly,
        0 <= mu < 2,
    ensures
        w.total_twice_re() - v.total_twice_re() == local_twice_re_change(v, w, x, y, mu),
{
    if (mu == 0 && v.ly == 1) || (mu == 1 && v.lx == 1) {
        assert forall|a: int, b: int| 0 <= a < v.lx && 0 <= b < v.ly implies #[trigger] w.plaquette_twice_re_fn()(a, b)
            == v.plaquette_twice_re_fn()(a, b) by {
            lemma_update_across_unit_extent(v, w, x, y, mu, a, b);
        }
        lemma_grid_sum_ext(w.plaquette_twice_re_fn(), v.plaquette_twice_re_fn(), v.lx, v.ly);
        lemma_update_across_unit_extent(v, w, x, y, mu, x, y);
        lemma_update_across_unit_extent(v, w, x, y, mu, x, y + v.ly - 1);
        lemma_update_across_unit_extent(v, w, x, y, mu, x + v.lx - 1, y);
    } else {
        lemma_local_action_change_distinct(v, w, x, y, mu);
    }
}

/// The local action change when the two plaquettes of the link are distinct.
proof fn lemma_local_action_change_distinct(v: LatticeView, w: LatticeView, x: int, y: int, mu: int)
    requires
        v.wf(),
        v.has_sites(),
        differs_only_at_link(v, w, x, y, mu),
        0 <= x < v.lx,
        0 <= y < v.ly,
        0 <= mu < 2,
        mu == 0 ==> v.ly >= 2,
        mu == 1 ==> v.lx >= 2,
    ensures
        w.total_twice_re() - v.total_twice_re() == local_twice_re_change(v, w, x, y, mu),
{
    let lx = v.lx;
    let ly = v.ly;
    let q = second_plaquette_site(v, x, y, mu);
    lemma_link_plaquettes_distinct(v, x, y, mu);
    let f = v.plaquette_twice_re_fn();
    let g = w.plaquette_twice_re_fn();
    let d = |a: int, b: int| g(a, b) - f(a, b);
    let d1 = |a: int, b: int| if a == x && b == y { d(a, b) } else { 0 };
    let d2 = |a: int, b: int| if a == q.0 && b == q.1 { d(a, b) } else { 0 };
    assert forall|a: int, b: int| 0 <= a < lx && 0 <= b < ly implies #[trigger] d(a, b) == d1(a, b) + d2(a, b) by {
        if !(a == x && b == y) && !(a == q.0 && b == q.1) {
            lemma_update_plaquette_locality(v, w, x, y, mu, a, b);
        }
    }
    lemma_grid_sum_sub(g, f, d, lx, ly);
    lemma_grid_sum_add(d1, d2, d, lx, ly);
    lemma_grid_sum_point(d1, lx, ly, x, y);
    lemma_grid_sum_point(d2, lx, ly, q.0, q.1);
    // the second plaquette as the update names it, `(x, y + ly - 1)` or `(x + lx - 1, y)`, is `q`
    vstd::arithmetic::div_mod::lemma_mod_twice(y + ly - 1, ly as int);
    vstd::arithmetic::div_mod::lemma_mod_twice(x + lx - 1, lx as int);
    if mu == 0 {
        lemma_plaquette_periodic(v, x, y + ly - 1, q.0, q.1);
        lemma_plaquette_periodic(w, x, y + ly - 1, q.0, q.1);
    } else {
        lemma_plaquette_periodic(v, x + lx - 1, y, q.0, q.1);
        lemma_plaquette_periodic(w, x + lx - 1, y, q.0, q.1);
    }
}

/// Changing one link shifts the ternary flux only at the two sites it joins: with `δ` the
/// change of its exponent, the divergence of the site it leaves moves by `+δ` and that of the
/// site it enters by `-δ` (mod 3); every other site keeps its divergence. A link that leaves
/// and enters the same site (an extent of 1 along it) changes no divergence at all.
pub proof fn lemma_update_divergence_locality(v: LatticeView, w: LatticeView, x: int, y: int, mu: int, px: int, py: int)
    requires
        v.wf(),
        v.has_sites(),
        differs_only_at_link(v, w, x, y, mu),
        0 <= x < v.lx,
        0 <= y < v.ly,
        0 <= mu < 2,
        0 <= px < v.lx,
        0 <= py < v.ly,
    ensures
        ({
            let delta = w.link(x, y, mu) - v.link(x, y, mu);
            let t = link_target(v, x, y, mu);
            let at_source = px == x && py == y;
            let at_target = px == t.0 && py == t.1;
            &&& at_source && !at_target ==> w.divergence(px, py) == (v.divergence(px, py) + delta) % 3
            &&& at_target && !at_source ==> w.divergence(px, py) == (v.divergence(px, py) - delta) % 3
            &&& !(at_source && !at_target) && !(at_target && !at_source) ==> w.divergence(px, py)
                == v.divergence(px, py)
        }),
{
    let lx = v.lx as int;
    let ly = v.ly as int;
    let idx = v.link_index(x, y, mu);
    let xl = v.left(px);
    let yb = v.below(py);
    vstd::arithmetic::div_mod::lemma_small_mod(px as nat, v.lx);
    vstd::arithmetic::div_mod::lemma_small_mod(py as nat, v.ly);
    vstd::arithmetic::div_mod::lemma_small_mod(x as nat, v.lx);
    vstd::arithmetic::div_mod::lemma_small_mod(y as nat, v.ly);
    vstd::arithmetic::div_mod::lemma_mod_bound(px + lx - 1, lx);
    vstd::arithmetic::div_mod::lemma_mod_bound(py + ly - 1, ly);
    vstd::arithmetic::div_mod::lemma_small_mod(xl as nat, v.lx);
    vstd::arithmetic::div_mod::lemma_small_mod(yb as nat, v.ly);
    lemma_cyclic_successor(lx, x, px);
    lemma_cyclic_successor(ly, y, py);
    if v.link_index(px, py, 0) == idx {
        lemma_link_index_injective(v, px, py, 0, x, y, mu);
    }
    if v.link_index(px, py, 1) == idx {
        lemma_link_index_injective(v, px, py, 1, x, y, mu);
    }
    if v.link_index(xl, py, 0) == idx {
        lemma_link_index_injective(v, xl, py, 0, x, y, mu);
    }
    if v.link_index(px, yb, 1) == idx {
        lemma_link_index_injective(v, px, yb, 1, x, y, mu);
    }
    lemma_read_after_update(v, w, x, y, mu, px, py, 0);
    lemma_read_after_update(v, w, x, y, mu, px, py, 1);
    lemma_read_after_update(v, w, x, y, mu, xl, py, 0);
    lemma_read_after_update(v, w, x, y, mu, px, yb, 1);
    let delta = w.link(x, y, mu) - v.link(x, y, mu);
    let raw = raw_flux(v, px, py);
    vstd::arithmetic::div_mod::lemma_add_mod_noop(raw, delta, 3);
    vstd::arithmetic::div_mod::lemma_sub_mod_noop(raw, delta, 3);
    vstd::arithmetic::div_mod::lemma_mod_twice(raw + delta, 3);
    vstd::arithmetic::div_mod::lemma_mod_twice(raw - delta, 3);
    vstd::arithmetic::div_mod::lemma_add_mod_noop(raw % 3, delta, 3);
    vstd::arithmetic::div_mod::lemma_sub_mod_noop(raw % 3, delta, 3);
    vstd::arithmetic::div_mod::lemma_mod_twice(delta, 3);
}

/// On a lattice whose links are all the identity, every straight path has exponent sum 0.
proof fn lemma_cold_paths(v: LatticeView, x: int, y: int, n: nat)
    requires
        v.wf(),
        v.has_sites(),
        forall|i: int| 0 <= i < v.links.len() ==> #[trigger] v.links[i]@ == 0,
    ensures
        v.path_x(x, y, n) == 0,
        v.path_y(x, y, n) == 0,
    decreases n,
{
    if n > 0 {
        lemma_cold_paths(v, x, y, (n - 1) as nat);
        crate::lattice::lemma_link_index_in_range(v, x + n - 1, y, 0);
        crate::lattice::lemma_link_index_in_range(v, x, y + n - 1, 1);
    }
}

/// Cold start: on a lattice whose links are all the identity, every plaquette and every
/// Wilson loop is the identity and no site carries charge. So all `lx · ly` plaquettes count
/// as trivial, `Σ_p Re(U_p) = lx · ly` (the action is `S = -β · N_plaquettes`), and the charge
/// histogram has every site neutral.
pub proof fn lemma_cold_start(v: LatticeView, r: nat, t: nat)
    requires
        v.wf(),
        v.has_sites(),
        forall|i: int| 0 <= i < v.links.len() ==> #[trigger] v.links[i]@ == 0,
    ensures
        forall|x: int, y: int| #[trigger] v.plaquette(x, y) == 0,
        forall|x: int, y: int| #[trigger] v.divergence(x, y) == 0,
        forall|x: int, y: int| #[trigger] v.wilson_loop(x, y, r, t) == 0,
        v.trivial_plaquette_count() == v.lx * v.ly,
        v.total_twice_re() == 2 * (v.lx * v.ly),
        v.charge_count(0) == v.lx * v.ly,
        v.charge_count(1) == 0,
        v.charge_count(2) == 0,
        v.trivial_wilson_loop_count(r, t) == v.lx * v.ly,
        v.violations() == Seq::<((usize, usize), u8)>::empty(),
{
    assert forall|a: int, b: int, m: int| 0 <= m < 2 implies #[trigger] v.link(a, b, m) == 0 by {
        crate::lattice::lemma_link_index_in_range(v, a, b, m);
    }
    assert forall|x: int, y: int| #[trigger] v.plaquette(x, y) == 0 by {
        assert(v.link(x, y, 0) == 0 && v.link(x + 1, y, 1) == 0 && v.link(x, y + 1, 0) == 0 && v.link(x, y, 1) == 0);
    }
    assert forall|x: int, y: int| #[trigger] v.divergence(x, y) == 0 by {
        assert(v.link(x, y, 0) == 0 && v.link(x, y, 1) == 0 && v.link(v.left(x), y, 0) == 0 && v.link(x, v.below(y), 1) == 0);
    }
    assert forall|x: int, y: int| #[trigger] v.wilson_loop(x, y, r, t) == 0 by {
        lemma_cold_paths(v, x, y, r);
        lemma_cold_paths(v, x + r, y, t);
        lemma_cold_paths(v, x, y + t, r);
        lemma_cold_paths(v, x, y, t);
    }
    let lx = v.lx;
    let ly = v.ly;
    lemma_grid_sum_one(v.trivial_plaquette_indicator(), lx, ly);
    lemma_grid_sum_one(v.trivial_wilson_loop_indicator(r, t), lx, ly);
    lemma_grid_sum_one(v.charge_indicator(0), lx, ly);
    let zero = |x: int, y: int| 0int;
    lemma_grid_sum_sub(zero, zero, v.charge_indicator(1), lx, ly);
    lemma_grid_sum_sub(zero, zero, v.charge_indicator(2), lx, ly);
    let one = v.trivial_plaquette_indicator();
    lemma_grid_sum_add(one, one, v.plaquette_twice_re_fn(), lx, ly);
    lemma_cold_violations(v, ly);
}

/// With no charged site, no row contributes a violation.
proof fn lemma_cold_violations(v: LatticeView, ny: nat)
    requires
        forall|x: int, y: int| #[trigger] v.divergence(x, y) == 0,
    ensures
        v.violations_in_rows(ny) == Seq::<((usize, usize), u8)>::empty(),
    decreases ny,
{
    if ny > 0 {
        lemma_cold_violations(v, (ny - 1) as nat);
        lemma_cold_violations_row(v, ny - 1, v.lx);
        assert(v.violations_in_rows(ny) =~= Seq::<((usize, usize), u8)>::empty());
    }
}

/// With no charged site, a row has no violation.
proof fn lemma_cold_violations_row(v: LatticeView, y: int, n: nat)
    requires
        forall|x: int, y: int| #[trigger] v.divergence(x, y) == 0,
    ensures
        v.violations_in_row(y, n) == Seq::<((usize, usize), u8)>::empty(),
    decreases n,
{
    if n > 0 {
        lemma_cold_violations_row(v, y, (n - 1) as nat);
    }
}

/// Twice the real part of `ω^k` is `3·[k = 0] - 1`, so summing it over the grid gives three
/// times the number of identity values minus the number of sites.
proof fn lemma_twice_re_sum(p: spec_fn(int, int) -> nat, lx: nat, ly: nat)
    ensures
        grid_sum(|x: int, y: int| z3_twice_re(p(x, y)), lx, ly) == 3 * grid_sum(
            |x: int, y: int| if p(x, y) == 0 { 1int } else { 0int },
            lx,
            ly,
        ) - lx * ly,
{
    let ind = |x: int, y: int| if p(x, y) == 0 { 1int } else { 0int };
    let two = |x: int, y: int| ind(x, y) + ind(x, y);
    let three = |x: int, y: int| two(x, y) + ind(x, y);
    let one = |x: int, y: int| 1int;
    let re2 = |x: int, y: int| z3_twice_re(p(x, y));
    lemma_grid_sum_add(ind, ind, two, lx, ly);
    lemma_grid_sum_add(two, ind, three, lx, ly);
    lemma_grid_sum_one(one, lx, ly);
    lemma_grid_sum_sub(three, one, re2, lx, ly);
}

/// The sums of real parts behind the action, the average plaquette and the average Wilson
/// loop follow from the counts of identity values: `Σ_p 2·Re(U_p) = 3·count - lx·ly`, and
/// likewise for the `r × t` Wilson loops.
pub proof fn lemma_twice_re_from_counts(v: LatticeView, r: nat, t: nat)
    ensures
        v.total_twice_re() == 3 * v.trivial_plaquette_count() - v.lx * v.ly,
        v.total_wilson_loop_twice_re(r, t) == 3 * v.trivial_wilson_loop_count(r, t) - v.lx * v.ly,
{
    let p = |x: int, y: int| v.plaquette(x, y);
    let w = |x: int, y: int| v.wilson_loop(x, y, r, t);
    lemma_twice_re_sum(p, v.lx, v.ly);
    lemma_twice_re_sum(w, v.lx, v.ly);
    lemma_grid_sum_ext(|x: int, y: int| z3_twice_re(p(x, y)), v.plaquette_twice_re_fn(), v.lx, v.ly);
    lemma_grid_sum_ext(
        |x: int, y: int| if p(x, y) == 0 { 1int } else { 0int },
        v.trivial_plaquette_indicator(),
        v.lx,
        v.ly,
    );
    lemma_grid_sum_ext(|x: int, y: int| z3_twice_re(w(x, y)), v.wilson_loop_twice_re_fn(r, t), v.lx, v.ly);
    lemma_grid_sum_ext(
        |x: int, y: int| if w(x, y) == 0 { 1int } else { 0int },
        v.trivial_wilson_loop_indicator(r, t),
        v.lx,
        v.ly,
    );
}

/// Every site carries a charge of at most 2, so the total charge is at most `2 · lx · ly`:
/// a lattice with at most `i32::MAX / 2` sites meets the bound `verify_conservation` needs.
pub proof fn lemma_total_charge_bounded(v: LatticeView)
    ensures
        0 <= v.total_charge() <= 2 * (v.lx * v.ly),
{
    lemma_charge_balance(v);
    lemma_histogram_total(v);
    lemma_grid_sum_indicator_bounded(v.charge_indicator(0), v.lx, v.ly);
    lemma_grid_sum_indicator_bounded(v.charge_indicator(1), v.lx, v.ly);
    lemma_grid_sum_indicator_bounded(v.charge_indicator(2), v.lx, v.ly);
}

/// Reducing each term of `a + b - c - d` mod 3 first does not change the sum mod 3.
proof fn lemma_mod3_combine(a: int, b: int, c: int, d: int)
    ensures
        (a % 3 + b % 3 - c % 3 - d % 3) % 3 == (a + b - c - d) % 3,
{
    vstd::arithmetic::div_mod::lemma_fundamental_div_mod(a, 3);
    vstd::arithmetic::div_mod::lemma_fundamental_div_mod(b, 3);
    vstd::arithmetic::div_mod::lemma_fundamental_div_mod(c, 3);
    vstd::arithmetic::div_mod::lemma_fundamental_div_mod(d, 3);
    let k = a / 3 + b / 3 - c / 3 - d / 3;
    assert(a + b - c - d == 3 * k + (a % 3 + b % 3 - c % 3 - d % 3));
    vstd::arithmetic::div_mod::lemma_mod_multiples_vanish(k, a % 3 + b % 3 - c % 3 - d % 3, 3);
}

/// `w` is the gauge transform of `v` by the site function `g` (exponents of Z₃ elements):
/// every link becomes `g(start) · U · g(end)⁻¹`.
pub open spec fn is_gauge_transform(v: LatticeView, w: LatticeView, g: spec_fn(int, int) -> nat) -> bool {
    &&& w.lx == v.lx
    &&& w.ly == v.ly
    &&& forall|x: int, y: int|
        0 <= x < v.lx && 0 <= y < v.ly ==> #[trigger] w.link(x, y, 0) == z3_mul(
            z3_mul(g(x, y), v.link(x, y, 0)),
            z3_inv(g((x + 1) % (v.lx as int), y)),
        )
    &&& forall|x: int, y: int|
        0 <= x < v.lx && 0 <= y < v.ly ==> #[trigger] w.link(x, y, 1) == z3_mul(
            z3_mul(g(x, y), v.link(x, y, 1)),
            z3_inv(g(x, (y + 1) % (v.ly as int))),
        )
}

/// The exponent of a gauge-transformed link, as a plain sum mod 3.
proof fn lemma_gauge_link(g0: nat, u: nat, g1: nat)
    ensures
        z3_mul(z3_mul(g0, u), z3_inv(g1)) == (g0 + u - g1) % 3,
{
    crate::z3::lemma_z3_mul_inv_accumulates((g0 + u) as int, g1);
}

/// A gauge transformation leaves the plaquette at an in-range site unchanged.
proof fn lemma_gauge_plaquette(v: LatticeView, w: LatticeView, g: spec_fn(int, int) -> nat, x: int, y: int)
    requires
        v.wf(),
        w.wf(),
        v.has_sites(),
        is_gauge_transform(v, w, g),
        0 <= x < v.lx,
        0 <= y < v.ly,
    ensures
        w.plaquette(x, y) == v.plaquette(x, y),
{
    let lx = v.lx as int;
    let ly = v.ly as int;
    let x1 = (x + 1) % lx;
    let y1 = (y + 1) % ly;
    vstd::arithmetic::div_mod::lemma_mod_bound(x + 1, lx);
    vstd::arithmetic::div_mod::lemma_mod_bound(y + 1, ly);
    vstd::arithmetic::div_mod::lemma_mod_twice(x + 1, lx);
    vstd::arithmetic::div_mod::lemma_mod_twice(y + 1, ly);
    // the neighbours read by the plaquette are the wrapped in-range sites
    assert(v.link_index(x + 1, y, 1) == v.link_index(x1, y, 1));
    assert(v.link_index(x, y + 1, 0) == v.link_index(x, y1, 0));
    lemma_plaquette_flux(v, x, y);
    lemma_plaquette_flux(w, x, y);
    let g00 = g(x, y);
    let g10 = g(x1, y);
    let g01 = g(x, y1);
    let g11 = g(x1, y1);
    lemma_gauge_link(g00, v.link(x, y, 0), g10);
    lemma_gauge_link(g10, v.link(x1, y, 1), g11);
    lemma_gauge_link(g01, v.link(x, y1, 0), g11);
    lemma_gauge_link(g00, v.link(x, y, 1), g01);
    // each transformed link, as a sum mod 3; the gauge factors cancel around the square
    assert(w.link(x, y, 0) == (g00 + v.link(x, y, 0) - g10) % 3);
    assert(w.link(x1, y, 1) == (g10 + v.link(x1, y, 1) - g11) % 3);
    assert(w.link(x, y1, 0) == (g01 + v.link(x, y1, 0) - g11) % 3);
    assert(w.link(x, y, 1) == (g00 + v.link(x, y, 1) - g01) % 3);
    lemma_mod3_combine(
        g00 + v.link(x, y, 0) - g10,
        g10 + v.link(x1, y, 1) - g11,
        g01 + v.link(x, y1, 0) - g11,
        g00 + v.link(x, y, 1) - g01,
    );
}

/// Gauge invariance: a gauge transformation `U_μ(x) ↦ g(x) · U_μ(x) · g(x + μ)⁻¹` leaves every
/// plaquette unchanged, and with them the action, the average plaquette and their counts.
pub proof fn lemma_gauge_invariance(v: LatticeView, w: LatticeView, g: spec_fn(int, int) -> nat)
    requires
        v.wf(),
        w.wf(),
        v.has_sites(),
        is_gauge_transform(v, w, g),
    ensures
        forall|x: int, y: int| 0 <= x < v.lx && 0 <= y < v.ly ==> #[trigger] w.plaquette(x, y) == v.plaquette(x, y),
        w.total_twice_re() == v.total_twice_re(),
        w.trivial_plaquette_count() == v.trivial_plaquette_count(),
{
    assert forall|x: int, y: int| 0 <= x < v.lx && 0 <= y < v.ly implies #[trigger] w.plaquette(x, y) == v.plaquette(x, y) by {
        lemma_gauge_plaquette(v, w, g, x, y);
    }
    lemma_grid_sum_ext(w.plaquette_twice_re_fn(), v.plaquette_twice_re_fn(), v.lx, v.ly);
    lemma_grid_sum_ext(w.trivial_plaquette_indicator(), v.trivial_plaquette_indicator(), v.lx, v.ly);
}

/// Net flux around the plaquette at `(a, b)`, unreduced.
pub open spec fn plaquette_raw_flux(v: LatticeView, a: int, b: int) -> int {
    v.link(a, b, 0) + v.link(a + 1, b, 1) - v.link(a, b + 1, 0) - v.link(a, b, 1)
}

/// Unreduced net flux summed over the plaquettes `(x, b) … (x + n - 1, b)`.
pub open spec fn strip_raw_flux(v: LatticeView, x: int, b: int, n: nat) -> int
    decreases n,
{
    if n == 0 {
        0
    } else {
        strip_raw_flux(v, x, b, (n - 1) as nat) + plaquette_raw_flux(v, x + n - 1, b)
    }
}

/// Unreduced net flux summed over the `r × t` rectangle of plaquettes at `(x, y)`.
pub open spec fn rect_raw_flux(v: LatticeView, x: int, y: int, r: nat, t: nat) -> int
    decreases t,
{
    if t == 0 {
        0
    } else {
        rect_raw_flux(v, x, y, r, (t - 1) as nat) + strip_raw_flux(v, x, y + t - 1, r)
    }
}

/// Along a strip of plaquettes the inner y-links cancel: what is left is the bottom path
/// minus the top path, plus the right edge minus the left edge.
proof fn lemma_strip_telescopes(v: LatticeView, x: int, b: int, n: nat)
    ensures
        strip_raw_flux(v, x, b, n) == v.path_x(x, b, n) - v.path_x(x, b + 1, n) + v.link(x + n, b, 1) - v.link(x, b, 1),
    decreases n,
{
    if n > 0 {
        lemma_strip_telescopes(v, x, b, (n - 1) as nat);
    }
}

/// Over a rectangle the inner x-paths cancel: what is left is the boundary of the rectangle.
proof fn lemma_rect_telescopes(v: LatticeView, x: int, y: int, r: nat, t: nat)
    ensures
        rect_raw_flux(v, x, y, r, t) == v.path_x(x, y, r) - v.path_x(x, y + t, r) + v.path_y(x + r, y, t) - v.path_y(x, y, t),
    decreases t,
{
    if t > 0 {
        lemma_rect_telescopes(v, x, y, r, (t - 1) as nat);
        lemma_strip_telescopes(v, x, y + t - 1, r);
    }
}

/// The plaquette exponents of a strip sum to its net flux, mod 3.
proof fn lemma_strip_mod3(v: LatticeView, x: int, b: int, n: nat)
    requires
        v.wf(),
        v.has_sites(),
    ensures
        v.plaquette_strip_sum(x, b, n) % 3 == strip_raw_flux(v, x, b, n) % 3,
    decreases n,
{
    if n > 0 {
        lemma_strip_mod3(v, x, b, (n - 1) as nat);
        lemma_plaquette_flux(v, x + n - 1, b);
        let s = v.plaquette_strip_sum(x, b, (n - 1) as nat);
        let q = strip_raw_flux(v, x, b, (n - 1) as nat);
        let f = plaquette_raw_flux(v, x + n - 1, b);
        vstd::arithmetic::div_mod::lemma_add_mod_noop(s, f % 3, 3);
        vstd::arithmetic::div_mod::lemma_add_mod_noop(q, f, 3);
        vstd::arithmetic::div_mod::lemma_mod_twice(f, 3);
    }
}

/// The plaquette exponents of a rectangle sum to its net flux, mod 3.
proof fn lemma_rect_mod3(v: LatticeView, x: int, y: int, r: nat, t: nat)
    requires
        v.wf(),
        v.has_sites(),
    ensures
        v.plaquette_rect_sum(x, y, r, t) % 3 == rect_raw_flux(v, x, y, r, t) % 3,
    decreases t,
{
    if t > 0 {
        lemma_rect_mod3(v, x, y, r, (t - 1) as nat);
        lemma_strip_mod3(v, x, y + t - 1, r);
        let s = v.plaquette_rect_sum(x, y, r, (t - 1) as nat);
        let q = rect_raw_flux(v, x, y, r, (t - 1) as nat);
        let a = v.plaquette_strip_sum(x, y + t - 1, r);
        let c = strip_raw_flux(v, x, y + t - 1, r);
        vstd::arithmetic::div_mod::lemma_add_mod_noop(s, a, 3);
        vstd::arithmetic::div_mod::lemma_add_mod_noop(q, c, 3);
    }
}

/// Lattice Stokes theorem: the `r × t` Wilson loop is the product of the plaquettes it
/// encloses — its exponent is the sum of their exponents mod 3 (the identity for an empty
/// rectangle).
pub proof fn lemma_wilson_loop_is_product_of_plaquettes(v: LatticeView, x: int, y: int, r: nat, t: nat)
    requires
        v.wf(),
        v.has_sites(),
    ensures
        v.wilson_loop(x, y, r, t) == v.plaquette_rect_sum(x, y, r, t) % 3,
{
    lemma_rect_telescopes(v, x, y, r, t);
    lemma_rect_mod3(v, x, y, r, t);
}

} // verus!
