//! Per-pixel depth-resolved marine primary production in fixed-point integer arithmetic:
//! spectral coefficient tables, depth and daylight discretization, the spectral light
//! field, the P-I model and the daily integrals, with the engine's results stated exactly.

pub mod config;
pub mod discretize;
pub mod engine;
pub mod fixed;
pub mod laws;
pub mod light;
pub mod model;
pub mod production;
pub mod spectral;
