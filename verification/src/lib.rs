//! Z₃ lattice gauge theory on a two-dimensional periodic square lattice.
//!
//! Link variables are elements of Z₃ = {1, ω, ω²}, stored as exponents of ω. The
//! library holds the group arithmetic, the lattice with its plaquettes, Wilson loops and
//! ternary Gauss's-law charges, and the integer parts of the Metropolis update; the
//! laws that tie them together are proved in `laws`.

mod rng;
pub mod sums;
pub mod z3;
pub mod lattice;
pub mod laws;
pub mod metropolis;

pub use lattice::{Lattice, LatticeView, TernaryCharge};
pub use metropolis::{find_loop_index, is_measurement_sweep, wilson_loop_sizes};
pub use z3::Z3;
