//! Frame-rendering core: ring geometry layout, instance record packing,
//! resource bookkeeping, surface configuration and per-frame command plans.
pub mod geometry;
pub mod packing;
pub mod resources;
pub mod surface;
pub mod frame;
pub mod pipeline;
pub mod engine;
