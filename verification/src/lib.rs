//! Splits a byte buffer into chunks that each fit a QR code of a wanted
//! version, and renders the codes as text.

pub mod bmp;
pub mod chunks;
pub mod convergence;
pub mod encoder;
pub mod error;
pub mod estimate;
pub mod input;
pub mod params;
pub mod render;
pub mod text;

pub use chunks::split_chunks;
pub use error::Error;
pub use estimate::estimate_chunk;
pub use input::sanitize_input;
pub use params::Params;
pub use render::{qr, Bitmap, Rendering};
