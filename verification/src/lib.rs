//! Verified core of a comparative particle visualizer.
//!
//! A run evolves one population of particles twice, under a baseline and
//! under a time-dilated dynamics model, and renders both evolutions frame
//! by frame. The simulation itself runs in a compute kernel on the GPU; this
//! library holds what is decided on the host:
//!
//! - `schedule`: the order of a run, as a state machine that a driver steps
//!   through;
//! - `particle`: the particle record and the parameters of a pass;
//! - `store`: how a particle store is seeded, how it lies in a buffer, and
//!   what a compute step must leave alone;
//! - `raster`: which pixel a projected particle hits and what colour it
//!   leaves there;
//! - `frame`: the image of one frame, with saturating accumulation;
//! - `scalar`: order and truncation of single-precision values, read off
//!   their bit patterns;
//! - `label`: mode names and frame file names.
//!
//! Floating-point arithmetic, random numbers, the GPU and the file system
//! are the caller's business.

pub mod frame;
pub mod label;
pub mod particle;
pub mod raster;
pub mod scalar;
pub mod schedule;
pub mod store;
