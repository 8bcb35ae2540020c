//! Resource cache of a retained-mode 2D renderer.
//!
//! The cache turns a stream of resource declarations (images, blobs,
//! snapshots, glyphs) into per-frame guarantees about which pixel data is
//! resident in the texture cache, and amortises uploads, tiling and eviction
//! across frames.

pub mod api;
pub mod cache_view;
pub mod class_cache;
pub mod font;
pub mod glyph_cache;
pub mod glyph_rasterizer;
pub mod gpu_types;
pub mod image_tiling;
pub mod internal_types;
pub mod invariants;
pub mod render_target_pool;
pub mod resource_cache;
pub mod texture_cache;
pub mod units;
