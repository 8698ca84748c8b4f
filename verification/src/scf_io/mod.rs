//! The self-consistent-field procedure: set-up decisions, the iteration, its
//! records, and the index computations of its integral kernels.

pub mod scfrecord;
pub mod util;
pub mod setup;
pub mod hamiltonian;
pub mod driver;
pub mod smear;
pub mod print;
pub mod partition;
pub mod energy;
pub mod erifold;
pub mod folded;
pub mod contraction;
pub mod ao2mo;
pub mod orbitals;
pub mod ri_on_the_fly;
pub mod direct;
