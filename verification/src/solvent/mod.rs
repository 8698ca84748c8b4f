//! Implicit solvation: polarizable continuum models and the solvent-accessible
//! surface terms.

pub mod segments;
pub mod polygons;
pub mod walk;
pub mod method;
pub mod surface_utils;
pub mod smd_cds;
pub mod exchange;
pub mod grad;
pub mod prepare;
pub mod dareal;
pub mod vertices;
pub mod potential;
pub mod tension;
