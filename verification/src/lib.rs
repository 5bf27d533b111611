//! The core of a procedural tile-map generator, in fixed-point arithmetic:
//! range scaling, geographic projection, fractal accumulation of noise
//! samples, world-shape masks, the tile matrix and the mapping from field
//! values to tile indices.

pub mod fixed;
pub mod settings;
pub mod utils;
pub mod tile;
mod random;
pub mod shapes;
pub mod sampler;
pub mod generator;
pub mod tileset;
pub mod renderer;
pub mod map;
