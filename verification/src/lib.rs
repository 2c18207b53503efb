//! Reslices a packed spritesheet into a grid of equal frames and lays the
//! frames out again with uniform, fully transparent padding between them.

pub mod command;
pub mod geometry;
mod imaging;
pub mod naming;
pub mod pad;
pub mod raster;
