//! Heightfield-to-mesh core: a row-major height grid sampled from a noise field
//! and rescaled over its range, its triangulation into an indexed mesh, the
//! per-vertex normal weights of that triangulation, and the frame counter that
//! drives an animated cross-section of a 3D field.
//!
//! Heights are generic: the library decides the layout, the order of samples,
//! which samples bound the range, the indices and the weights, and leaves
//! arithmetic on the height values to the closures its caller passes in.

pub mod animated;
pub mod grid;
pub mod mesh;
pub mod normals;
pub mod sampling;
