//! Core logic of a QR-code image utility: selecting an error-correction
//! level, turning an encoded module matrix into an RGB pixel buffer, and
//! resolving a destination path into an image container format.

pub mod level;
pub mod matrix;
pub mod render;
pub mod save;
pub mod qr;
pub mod codec;
pub mod state;
