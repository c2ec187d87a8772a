use vstd::prelude::*;
use crate::lattice::{Lattice, LatticeView, lemma_link_index_in_range, lemma_extents_fit};
use crate::rng::random_below;
use crate::z3::{Z3, z3_mul, z3_twice_re};

verus! {

/// Twice the change of `Re(U_p)` summed over the two plaquettes that the link `U_μ(x, y)`
/// takes part in, going from the configuration `old` to `new`.
pub open spec fn local_twice_re_change(old: LatticeView, new: LatticeView, x: int, y: int, mu: int) -> int {
    z3_twice_re(new.plaquette_of_link(x, y, mu, true)) + z3_twice_re(new.plaquette_of_link(x, y, mu, false))
        - z3_twice_re(old.plaquette_of_link(x, y, mu, true)) - z3_twice_re(old.plaquette_of_link(x, y, mu, false))
}

/// Wilson loop sizes `(r, t)` with `t` running over `1 ..= max_t`, for a fixed `r`.
pub open spec fn loop_sizes_row(r: int, max_t: nat) -> Seq<(usize, usize)>
    decreases max_t,
{
    if max_t == 0 {
        Seq::empty()
    } else {
        loop_sizes_row(r, (max_t - 1) as nat).push((r as usize, max_t as usize))
    }
}

/// Wilson loop sizes `(r, t)` for `r` in `1 ..= max_r` and `t` in `1 ..= max_t`, `r` outermost.
pub open spec fn loop_sizes(max_r: nat, max_t: nat) -> Seq<(usize, usize)>
    decreases max_r,
{
    if max_r == 0 {
        Seq::empty()
    } else {
        loop_sizes((max_r - 1) as nat, max_t) + loop_sizes_row(max_r as int, max_t)
    }
}

/// The largest Wilson loop extent measured along a lattice direction of length `l`:
/// half the lattice size, at most 4.
pub open spec fn max_loop_extent(l: nat) -> nat {
    if l / 2 < 4 { l / 2 } else { 4 }
}

/// A row of loop sizes holds `(r, 1), (r, 2), …, (r, max_t)`.
proof fn lemma_loop_sizes_row(r: int, max_t: nat)
    requires
        1 <= r <= 4,
        max_t <= 4,
    ensures
        loop_sizes_row(r, max_t).len() == max_t,
        forall|k: int| 0 <= k < max_t ==> #[trigger] loop_sizes_row(r, max_t)[k] == (r as usize, (k + 1) as usize),
    decreases max_t,
{
    if max_t > 0 {
        lemma_loop_sizes_row(r, (max_t - 1) as nat);
    }
}

/// The loop sizes for extents `max_r`, `max_t` are exactly the pairs `(r, t)` with
/// `1 <= r <= max_r` and `1 <= t <= max_t`, each once, in increasing order of `r`, then `t`.
pub proof fn lemma_loop_sizes_exact(max_r: nat, max_t: nat)
    requires
        max_r <= 4,
        max_t <= 4,
    ensures
        loop_sizes(max_r, max_t).len() == max_r * max_t,
        forall|k: int|
            0 <= k < loop_sizes(max_r, max_t).len() ==> 1 <= (#[trigger] loop_sizes(max_r, max_t)[k]).0 <= max_r
                && 1 <= loop_sizes(max_r, max_t)[k].1 <= max_t,
        forall|r: usize, t: usize|
            1 <= r <= max_r && 1 <= t <= max_t ==> #[trigger] loop_sizes(max_r, max_t).contains((r, t)),
        forall|i: int, j: int|
            0 <= i < j < loop_sizes(max_r, max_t).len() ==> size_precedes(
                #[trigger] loop_sizes(max_r, max_t)[i],
                #[trigger] loop_sizes(max_r, max_t)[j],
            ),
    decreases max_r,
{
    if max_r > 0 {
        let prev = loop_sizes((max_r - 1) as nat, max_t);
        let row = loop_sizes_row(max_r as int, max_t);
        let all = loop_sizes(max_r, max_t);
        lemma_loop_sizes_exact((max_r - 1) as nat, max_t);
        lemma_loop_sizes_row(max_r as int, max_t);
        assert(all == prev + row);
        assert((max_r - 1) * max_t + max_t == max_r * max_t) by (nonlinear_arith);
        assert forall|k: int| 0 <= k < all.len() implies 1 <= (#[trigger] all[k]).0 <= max_r && 1 <= all[k].1
            <= max_t by {
            if k >= prev.len() {
                assert(all[k] == row[k - prev.len()]);
            } else {
                assert(all[k] == prev[k]);
            }
        }
        assert forall|r: usize, t: usize| 1 <= r <= max_r && 1 <= t <= max_t implies #[trigger] all.contains((r, t)) by {
            if r < max_r {
                assert(prev.contains((r, t)));
                let k = choose|k: int| 0 <= k < prev.len() && prev[k] == (r, t);
                assert(all[k] == prev[k]);
            } else {
                let k = prev.len() + t - 1;
                assert(all[k] == row[t - 1]);
            }
        }
        assert forall|i: int, j: int| 0 <= i < j < all.len() implies size_precedes(#[trigger] all[i], #[trigger] all[j]) by {
            if j < prev.len() {
                assert(all[i] == prev[i] && all[j] == prev[j]);
            } else if i < prev.len() {
                assert(all[i] == prev[i] && all[j] == row[j - prev.len()]);
            } else {
                assert(all[i] == row[i - prev.len()] && all[j] == row[j - prev.len()]);
            }
        }
    }
}

/// The sizes a simulation of an `lx × ly` lattice measures are capped at half the lattice
/// and at 4 in each direction, and every size within those caps is measured.
pub proof fn lemma_measured_loop_sizes(lx: nat, ly: nat)
    ensures
        ({
            let sizes = loop_sizes(max_loop_extent(lx), max_loop_extent(ly));
            &&& forall|k: int|
                0 <= k < sizes.len() ==> 1 <= (#[trigger] sizes[k]).0 && sizes[k].0 <= lx / 2 && sizes[k].0 <= 4
                    && 1 <= sizes[k].1 && sizes[k].1 <= ly / 2 && sizes[k].1 <= 4
            &&& forall|r: usize, t: usize|
                1 <= r && r <= lx / 2 && r <= 4 && 1 <= t && t <= ly / 2 && t <= 4 ==> #[trigger] sizes.contains(
                    (r, t),
                )
        }),
{
    lemma_loop_sizes_exact(max_loop_extent(lx), max_loop_extent(ly));
}

/// `a` comes strictly before `b` in the order by `r`, then `t`.
pub open spec fn size_precedes(a: (usize, usize), b: (usize, usize)) -> bool {
    a.0 < b.0 || (a.0 == b.0 && a.1 < b.1)
}

/// The Wilson loop sizes measured during a simulation of an `lx × ly` lattice: every `(R, T)`
/// with `1 <= R <= min(lx / 2, 4)` and `1 <= T <= min(ly / 2, 4)`, ordered by `R`, then `T`.
pub fn wilson_loop_sizes(lx: usize, ly: usize) -> (sizes: Vec<(usize, usize)>)
    ensures
        sizes@ == loop_sizes(max_loop_extent(lx as nat), max_loop_extent(ly as nat)),
        forall|k: int|
            0 <= k < sizes@.len() ==> 1 <= (#[trigger] sizes@[k]).0 && sizes@[k].0 <= lx / 2 && sizes@[k].0 <= 4
                && 1 <= sizes@[k].1 && sizes@[k].1 <= ly / 2 && sizes@[k].1 <= 4,
        forall|r: usize, t: usize|
            1 <= r && r <= lx / 2 && r <= 4 && 1 <= t && t <= ly / 2 && t <= 4 ==> #[trigger] sizes@.contains((r, t)),
        forall|i: int, j: int| 0 <= i < j < sizes@.len() ==> size_precedes(#[trigger] sizes@[i], #[trigger] sizes@[j]),
{
    let max_r = if lx / 2 < 4 { lx / 2 } else { 4 };
    let max_t = if ly / 2 < 4 { ly / 2 } else { 4 };
    let mut sizes: Vec<(usize, usize)> = Vec::new();
    let mut r: usize = 1;
    while r <= max_r
        invariant
            max_r <= 4,
            max_t <= 4,
            1 <= r <= max_r + 1,
            sizes@ == loop_sizes((r - 1) as nat, max_t as nat),
        decreases max_r + 1 - r,
    {
        let mut t: usize = 1;
        while t <= max_t
            invariant
                max_r <= 4,
                max_t <= 4,
                1 <= r <= max_r,
                1 <= t <= max_t + 1,
                sizes@ == loop_sizes((r - 1) as nat, max_t as nat) + loop_sizes_row(r as int, (t - 1) as nat),
            decreases max_t + 1 - t,
        {
            sizes.push((r, t));
            proof {
                assert(sizes@ =~= loop_sizes((r - 1) as nat, max_t as nat) + loop_sizes_row(r as int, t as nat));
            }
            t = t + 1;
        }
        proof {
            assert(sizes@ =~= loop_sizes(r as nat, max_t as nat));
        }
        r = r + 1;
    }
    proof {
        lemma_loop_sizes_exact(max_r as nat, max_t as nat);
    }
    sizes
}

/// Position of the first entry equal to `(r, t)` in a list of Wilson loop sizes.
pub fn find_loop_index(sizes: &Vec<(usize, usize)>, r: usize, t: usize) -> (found: Option<usize>)
    ensures
        match found {
            Some(i) => i < sizes@.len() && sizes@[i as int] == (r, t) && forall|j: int|
                0 <= j < i ==> #[trigger] sizes@[j] != (r, t),
            None => forall|j: int| 0 <= j < sizes@.len() ==> #[trigger] sizes@[j] != (r, t),
        },
{
    let mut i: usize = 0;
    while i < sizes.len()
        invariant
            i <= sizes@.len(),
            forall|j: int| 0 <= j < i ==> #[trigger] sizes@[j] != (r, t),
        decreases sizes@.len() - i,
    {
        let (rr, tt) = sizes[i];
        if rr == r && tt == t {
            return Some(i);
        }
        i = i + 1;
    }
    None
}

/// Whether the sweep with index `sweep` is followed by a measurement: measurements start
/// after the `thermalization` sweeps and are taken every `measure_interval` sweeps.
pub fn is_measurement_sweep(sweep: usize, thermalization: usize, measure_interval: usize) -> (b: bool)
    requires
        sweep >= thermalization ==> measure_interval > 0,
    ensures
        b == (sweep >= thermalization && (sweep - thermalization) % (measure_interval as int) == 0),
{
    if sweep >= thermalization {
        let sweep_in_measure = sweep - thermalization;
        sweep_in_measure % measure_interval == 0
    } else {
        false
    }
}

impl Lattice {
    /// Pick a link uniformly at random: a site `(x, y)` and a direction `μ ∈ {0, 1}`.
    pub fn random_link(&self, rng: &mut rand::rngs::StdRng) -> (link: (usize, usize, usize))
        requires
            self@.has_sites(),
        ensures
            link.0 < self@.lx,
            link.1 < self@.ly,
            link.2 < 2,
    {
        let (lx, ly) = self.size();
        let x = random_below(rng, lx);
        let y = random_below(rng, ly);
        let mu = random_below(rng, 2);
        (x, y, mu)
    }

    /// Metropolis proposal: multiply the link `U_μ(x, y)` by `delta` and report the old link
    /// together with twice the change of `Re(U_p)` over the two plaquettes that contain the
    /// link. The action changes by `ΔS = -β · change / 2`; a rejected proposal is undone by
    /// setting the old link back.
    pub fn propose_link_update(&mut self, x: usize, y: usize, mu: usize, delta: Z3) -> (r: (Z3, i8))
        requires
            old(self)@.wf(),
            x < old(self)@.lx,
            y < old(self)@.ly,
            mu < 2,
        ensures
            final(self)@.wf(),
            final(self)@.lx == old(self)@.lx,
            final(self)@.ly == old(self)@.ly,
            r.0 == old(self)@.links[old(self)@.link_index(x as int, y as int, mu as int)],
            final(self)@.links == old(self)@.links.update(
                old(self)@.link_index(x as int, y as int, mu as int),
                final(self)@.links[old(self)@.link_index(x as int, y as int, mu as int)],
            ),
            final(self)@.link(x as int, y as int, mu as int) == z3_mul(r.0@, delta@),
            r.1 == local_twice_re_change(old(self)@, final(self)@, x as int, y as int, mu as int),
            r.1 == final(self)@.total_twice_re() - old(self)@.total_twice_re(),
    {
        let ghost before = self@;
        proof {
            lemma_link_index_in_range(self@, x as int, y as int, mu as int);
            lemma_extents_fit(self@);
        }
        // Current link and the plaquettes it participates in
        let old_link = self.get_link(x, y, mu);
        let new_link = old_link * delta;
        let old_p1 = self.plaquette_for_link(x, y, mu, true);
        let old_p2 = self.plaquette_for_link(x, y, mu, false);

        self.set_link(x, y, mu, new_link);

        let new_p1 = self.plaquette_for_link(x, y, mu, true);
        let new_p2 = self.plaquette_for_link(x, y, mu, false);
        let change = new_p1.twice_re() + new_p2.twice_re() - old_p1.twice_re() - old_p2.twice_re();
        proof {
            crate::laws::lemma_local_action_change(before, self@, x as int, y as int, mu as int);
        }
        (old_link, change)
    }
}

} // verus!
