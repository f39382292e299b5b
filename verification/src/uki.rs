//! Inspection of a whole image.

pub mod ext;
pub mod inspect;
mod sealed;
