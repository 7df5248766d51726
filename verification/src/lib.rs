//! Deed–judgment–episode accounting for a simulated society of
//! resource-holding sites.
//!
//! All scalar quantities are fixed-point integers in micro-units:
//! a stored value `v` stands for the real quantity `v / 1_000_000`.

pub mod consent;
pub mod deed;
pub mod episode;
pub mod judgement;
pub mod model;
pub mod render;
