//! Per-frame render-command assembly and GPU buffer bookkeeping for a
//! real-time rendering engine.
//!
//! The crate turns one renderable object into a sequence of draw-time
//! commands (pipeline bind, bind-group binds, vertex-buffer binds, draw)
//! while managing the transient memory those commands reference: a
//! per-frame staging arena with a staging-to-device commit protocol, a
//! pool of reusable device buffers, and a compile-once pipeline cache.
//! A semantic binding layer maps well-known per-instance values (world
//! transform rows, material property overrides) onto byte offsets inside
//! a GPU-visible buffer, governed by the stride that shader reflection
//! declares.

pub mod buffer_pool;
pub mod buffers;
pub mod commands;
pub mod frame_allocator;
pub mod materials;
pub mod pipelines;
pub mod shaders;
pub mod texture_asset;
pub mod vertex_format;
