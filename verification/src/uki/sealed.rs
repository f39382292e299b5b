//! Keeps the section-lookup extension closed to other crates.

use crate::formats::pe::PeFile;
use vstd::prelude::*;

verus! {

pub trait Sealed {

}

impl Sealed for PeFile {

}

} // verus!
