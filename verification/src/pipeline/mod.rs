pub mod parse;
pub mod prepare;
pub mod process;
pub mod progress;
pub mod rasterize;
pub mod render;
pub mod svg;
