//! Read-only inspection of Unified Kernel Images: PE/COFF files that carry a
//! kernel, an initramfs, a command line and OS metadata in named sections.
//!
//! Every function here is verified. The byte-level work of others (PE header
//! parsing, SHA-256, os-release tokenising, UTF-8 decoding) is reached through
//! a handful of trusted wrappers, each documented where it stands.

pub mod digest;
pub mod error;
pub mod formats;
pub mod log_level;
pub mod profile;
pub mod uki;
