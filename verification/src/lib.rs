//! The discrete core of a self-consistent-field program with implicit solvation:
//! every decision, index computation, bookkeeping structure and combinatorial
//! algorithm that the floating-point kernels around it rely on.

pub mod binary64;
pub mod counts;
pub mod sequences;
pub mod packed;
pub mod triangular;
pub mod keywords;
pub mod scf_io;
pub mod solvent;
