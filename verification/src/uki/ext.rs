//! Section lookups on a `PeFile` that return bytes and coordinates at once.
//!
//! These are mechanical only: offsets, sizes and borrowed bytes. Hashing and
//! compression sniffing stay with the caller.

use crate::error::InspectError;
use crate::formats::pe::{layout_of, row_bytes, PeFile};
use crate::uki::inspect::{required_row, SectionFacts, SectionInfo};
use crate::uki::sealed::Sealed;
use vstd::prelude::*;

verus! {

/// Section lookup conveniences. Sealed: only `PeFile` has them.
pub trait SectionLookupExt: Sealed + View<V = Seq<u8>> {
    /// The bytes of the first section named `name` and their `(offset,
    /// size)` in the file. Fails with `MalformedImage` where the file is not
    /// a PE/COFF image, with `SectionNotFound(name)` where no section has
    /// that name, and with `InvalidSectionBounds(name)` where the first that
    /// has it does not lie inside the file.
    fn section_bytes_and_location(&self, name: &str) -> (found: Result<
        (&[u8], (usize, usize)),
        InspectError,
    >)
        ensures
            match layout_of(self@) {
                None => found matches Err(e) && e == InspectError::MalformedImage,
                Some(layout) => match required_row(layout, self@, name@) {
                    Ok(row) => found matches Ok((bytes, (offset, size))) && bytes@ == row_bytes(
                        self@,
                        row,
                    ) && offset == row.offset && size == row.size,
                    Err(failure) => found matches Err(e) && e@ == failure,
                },
            },
    ;

    /// The same, with the coordinates in a `SectionInfo` whose digest field
    /// is left empty for the caller to fill.
    fn section_info_and_bytes(&self, name: &str) -> (found: Result<
        (SectionInfo, &[u8]),
        InspectError,
    >)
        ensures
            match layout_of(self@) {
                None => found matches Err(e) && e == InspectError::MalformedImage,
                Some(layout) => match required_row(layout, self@, name@) {
                    Ok(row) => found matches Ok((info, bytes)) && info@ == (SectionFacts {
                        offset: row.offset as nat,
                        size: row.size as nat,
                        sha256: Seq::empty(),
                    }) && bytes@ == row_bytes(self@, row),
                    Err(failure) => found matches Err(e) && e@ == failure,
                },
            },
    ;
}

impl SectionLookupExt for PeFile {
    fn section_bytes_and_location(&self, name: &str) -> (found: Result<
        (&[u8], (usize, usize)),
        InspectError,
    >) {
        let descriptor = self.locate(name)?;
        let bytes = self.read(&descriptor)?;
        Ok((bytes, (descriptor.offset(), descriptor.size())))
    }

    fn section_info_and_bytes(&self, name: &str) -> (found: Result<
        (SectionInfo, &[u8]),
        InspectError,
    >) {
        let (bytes, (offset, size)) = self.section_bytes_and_location(name)?;
        Ok((SectionInfo { offset, size, sha256: String::new() }, bytes))
    }
}

} // verus!
