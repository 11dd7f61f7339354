//! Fixed-kernel 2D convolution over 8-bit RGB rasters.
//!
//! The library convolves a raster with one of four fixed integer kernels
//! (sharpen or blur, at radius 1 or 2), copying border pixels unchanged and
//! clamping every computed channel back into the 8-bit range. A small
//! composer places rasters side by side for comparison images.

pub mod compose;
pub mod engine;
pub mod kernel;
pub mod lemmas;
pub mod neighbors;
pub mod raster;

pub use kernel::Mode;
pub use raster::Pixel;
pub use raster::Raster;
