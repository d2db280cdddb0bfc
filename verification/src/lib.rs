//! A software 3D rasterizer that renders triangle meshes onto a terminal
//! character grid, packing 2x4 blocks of logical pixels into braille glyphs.
//! All coordinates, depths and transform entries are Q16.16 fixed-point
//! integers, so every stage of the pipeline carries an exact contract.
pub mod canvas;
pub mod entity;
pub mod fx;
pub mod math;
pub mod obj;
pub mod shapes;
pub mod texture;
pub mod vertex;
pub mod window;
