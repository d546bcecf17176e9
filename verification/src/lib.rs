//! Local Binary Pattern texture descriptors over RGBA pixel buffers.
//!
//! The pipeline reduces an RGBA buffer to luminance, computes one 8-bit
//! neighbourhood code per interior pixel, and carries both request and
//! response across a byte boundary as a small tagged record.
pub mod grayscale;
pub mod grid;
pub mod lbp;
pub mod message;
pub mod process;
pub mod raster;
