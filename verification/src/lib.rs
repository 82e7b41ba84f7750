//! A software rasterizer: vertex transformation, primitive assembly with
//! depth-range culling, scanline triangle rasterization with barycentric
//! interpolation and diffuse lighting, procedural fragment shading, and a
//! budgeted render orchestrator. All geometry is carried in 16.16 fixed-point
//! integers so that every stage is exact, total, and verified.

pub mod color;
pub mod fixed;
pub mod pipeline;
pub mod raster;
pub mod shaders;
pub mod skybox;
pub mod transform;
pub mod vecfx;
pub mod vertex;
