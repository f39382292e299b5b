//! Section descriptors: coordinates of a named byte range inside an image.

use crate::error::InspectError;
use vstd::prelude::*;

verus! {

/// Where a named section lies in a file of a given length. It records
/// coordinates only and never holds bytes.
///
/// A descriptor cannot exist unless `offset + size` is within the file length
/// it was made for: `new` is the only way to make one, and it refuses
/// anything else.
#[derive(Debug)]
pub struct SectionDescriptor {
    name: String,
    offset: usize,
    size: usize,
    image_len: usize,
}

/// A `SectionDescriptor` as plain values.
pub struct SectionSpan {
    pub name: Seq<char>,
    pub offset: nat,
    pub size: nat,
    pub image_len: nat,
}

impl View for SectionDescriptor {
    type V = SectionSpan;

    closed spec fn view(&self) -> SectionSpan {
        SectionSpan {
            name: self.name@,
            offset: self.offset as nat,
            size: self.size as nat,
            image_len: self.image_len as nat,
        }
    }
}

impl SectionDescriptor {
    #[verifier::type_invariant]
    spec fn within_image(self) -> bool {
        self.offset + self.size <= self.image_len
    }

    /// Makes a descriptor for `size` bytes at `offset` in a file of
    /// `image_len` bytes. Fails with `InvalidSectionBounds(name)` exactly when
    /// the range does not fit; it is never clamped or wrapped.
    pub fn new(name: String, offset: usize, size: usize, image_len: usize) -> (made: Result<
        SectionDescriptor,
        InspectError,
    >)
        ensures
            made is Ok <==> offset + size <= image_len,
            made matches Ok(d) ==> d@ == (SectionSpan {
                name: name@,
                offset: offset as nat,
                size: size as nat,
                image_len: image_len as nat,
            }),
            made matches Err(e) ==> e == InspectError::InvalidSectionBounds(name),
    {
        if offset <= image_len && size <= image_len - offset {
            Ok(SectionDescriptor { name, offset, size, image_len })
        } else {
            Err(InspectError::InvalidSectionBounds(name))
        }
    }

    pub fn name(&self) -> (name: &str)
        ensures
            name@ == self@.name,
    {
        self.name.as_str()
    }

    pub fn offset(&self) -> (offset: usize)
        ensures
            offset == self@.offset,
    {
        self.offset
    }

    pub fn size(&self) -> (size: usize)
        ensures
            size == self@.size,
    {
        self.size
    }

    /// Length of the file this descriptor was made for.
    pub fn image_len(&self) -> (len: usize)
        ensures
            len == self@.image_len,
    {
        self.image_len
    }

    /// One past the last byte of the section. That this fits the file is
    /// what every descriptor guarantees.
    pub fn end(&self) -> (end: usize)
        ensures
            end == self@.offset + self@.size,
            end <= self@.image_len,
    {
        proof {
            use_type_invariant(self);
        }
        self.offset + self.size
    }
}

} // verus!
