//! A software rasterizer in fixed-point arithmetic: mesh preparation, the
//! per-frame transform stage, scan conversion with a depth buffer, wrap-around
//! flow-texture sampling and the integer parts of the procedural shaders.
pub mod fixed;
pub mod texture;
pub mod raster;
pub mod mesh;
pub mod transform;
pub mod shader;
