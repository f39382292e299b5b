//! Build profiles: what an image builder is asked to put together.

use vstd::prelude::*;

verus! {

/// A named build configuration.
#[derive(Debug)]
pub struct Profile {
    pub name: String,
    /// Root filesystem flavour: `ostree`, `composefs` or `plain`.
    pub root: String,
    /// Kernel modules to include, such as `virtio_blk` or `xfs`.
    pub modules: Vec<String>,
    /// Kernel command line, such as `console=ttyS0`.
    pub cmdline: Option<String>,
}

} // verus!
