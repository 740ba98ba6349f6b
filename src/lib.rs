//! A two-dimensional particle kernel on fixed-point numbers: vector math, the
//! force models, integration, boundary handling and the per-tick
//! orchestration of a particle population.
pub mod fixed;
pub mod vector;
pub mod forces;
pub mod particle;
pub mod simulation;
pub mod laws;
