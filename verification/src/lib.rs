//! A pipeline cache for a real-time GPU renderer.
//!
//! The cache maps logical shader and pipeline descriptions to compiled GPU
//! pipeline objects. Registration is idempotent and content-addressed;
//! compilation of shader sources and construction of device objects are the
//! work of outside collaborators (shader compiler backends and the graphics
//! device), so the cache receives their results as plain values and is
//! verified for every value they may hand back.

pub mod cache;
pub mod device;
pub mod laws;
pub mod search;
pub mod shader;
