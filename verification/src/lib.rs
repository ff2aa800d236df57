//! Noether's theorem for agent systems: the index structure of the symmetry
//! transformations, of the candidate symmetries that are probed, of the
//! fleet invariants and of the conservation reports.

pub mod noether;
pub mod pairs;
pub mod symmetry;
pub mod fleet;
pub mod cudaclaw;
pub mod conservation;
pub mod discrete;
