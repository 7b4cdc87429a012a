//! Integer core of a sampling ray tracer: pixels, image buffers with
//! row-major iteration and accumulation, PPM encoding, and the partition of
//! samples across render workers.
pub mod types;
pub mod ppm;
pub mod renderer;
