//! Verified core of a small N-body particle simulator that renders into a
//! pixel grid: scenario cycling, rasterization of grid points into a frame
//! description, and the dirty-frame filter that decides whether the output
//! buffer must be rewritten.

pub mod frame;
pub mod render;
pub mod scenario;
pub mod sim;
