//! Formats found inside an image.

pub mod initramfs;
pub mod osrel;
pub mod pe;
pub mod section;
pub mod text;
