//! A CPU triangle rasterizer: a depth-tested framebuffer, nearest-neighbour
//! texture sampling, trivial frustum reject, perspective divide and
//! barycentric scan conversion with perspective-correct texture coordinates,
//! all on integers and fixed-point values.
pub mod clip;
pub mod mesh;
pub mod raster;
pub mod renderer;
pub mod shading;
pub mod texture;
pub mod triangle;
