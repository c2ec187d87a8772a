# ternary_gauge_theory

Z₃ lattice gauge theory on a two-dimensional periodic square lattice, with the lattice
logic verified by Verus.

- `src/z3.rs`: the group Z₃ = {1, ω, ω²} on exponents, its laws, and the integer real and
  imaginary parts of its elements.
- `src/lattice.rs`: the lattice, its model `LatticeView`, plaquettes, Wilson loops, the
  ternary Gauss's-law divergence, charge histograms and the counts behind the action.
- `src/metropolis.rs`: the verified pieces of a Metropolis sweep (random link choice,
  proposal with its local action change, measurement schedule, Wilson loop sizes).
- `src/laws.rs`: laws across functions — global conservation of ternary charge, locality of
  a single link update, the local action change, gauge invariance, Wilson loops as products
  of plaquettes, the real-part sums from counts, cold start, periodicity.
- `src/sums.rs`: sums over the lattice sites and the lemmas about them.
- `app/`: floating-point observables (action, average plaquette and Wilson loop, exact
  strong-coupling results) and the Monte Carlo driver, whose acceptance test is floating
  point.
