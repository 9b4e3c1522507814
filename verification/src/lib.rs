//! Transfer of a binary file to a device that can only read QR codes.
//!
//! A file is framed into a fixed-layout container together with its
//! compressed bytes, the container is cut into bounded chunks, every chunk is
//! wrapped into a wire frame that carries two checksums, and every wire frame
//! becomes one QR symbol drawn as an SVG image.

pub mod chunker;
pub mod config;
pub mod container;
pub mod errors;
pub mod frame;
pub mod pipeline;
pub mod render;
