//! A dense voxel-grid heat-diffusion simulator.
//!
//! The library advances a per-voxel temperature field under heterogeneous
//! material properties with an explicit, two-phase (compute-then-apply)
//! finite-difference stencil.  All scalar quantities are fixed-point
//! integers in units chosen consistently by the caller, so every formula
//! is exact and every contract states the computed value precisely.

pub mod errors;
pub mod heat_transfer;
pub mod kelvin;
pub mod materials;
pub mod scenario;
pub mod string_utils;
pub mod types;
pub mod volume;
pub mod voxel_material_lookup;
