//! A small real-time rendering library: shader-resource lifecycle
//! management (compilation, linking, diagnostics, deterministic release
//! of GPU objects) and the transform-matrix construction used every
//! frame, stated over exact rational arithmetic.

pub mod frac;
pub mod gpu;
pub mod matrix;
pub mod shader;
