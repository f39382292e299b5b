//! PE/COFF images: the header facts an inspection needs, and the byte
//! ranges of named sections.
//!
//! Header parsing is `goblin`'s. What it finds is copied into `PeLayout`,
//! plain values that the rest of this module reasons about: the machine code,
//! the PE32+ flag, the section table and the attribute certificates.
//!
//! The parser is only handed images it can digest. It can panic once it
//! follows a data directory into the file, so `headers_are_safe` admits only
//! images without such directories, `are_headers_safe` decides it, and every
//! other image is reported as `MalformedImage` without the parser seeing it.
//!
//! Certificates are reported, never verified: their presence says nothing
//! about whether a signature is valid.

use crate::error::{InspectError, InspectFailure};
use crate::formats::section::{SectionDescriptor, SectionSpan};
use crate::formats::text::{decode_section_text, section_text};
use vstd::prelude::*;

verus! {

pub const MACHINE_X86_64: u16 = 0x8664;

pub const MACHINE_ARM64: u16 = 0xaa64;

pub const MACHINE_ARM: u16 = 0x1c0;

pub const MACHINE_X86: u16 = 0x14c;

/// One row of the section table.
#[derive(Debug)]
pub struct SectionEntry {
    /// The section's name; `None` where the table's name is not readable
    /// text. Such a row matches no lookup.
    pub name: Option<String>,
    /// File offset of the section's raw data.
    pub offset: u32,
    /// Size in the file of the section's raw data.
    pub size: u32,
}

/// A `SectionEntry` as plain values.
pub struct SectionRow {
    pub name: Option<Seq<char>>,
    pub offset: u32,
    pub size: u32,
}

impl View for SectionEntry {
    type V = SectionRow;

    open spec fn view(&self) -> SectionRow {
        SectionRow {
            name: match self.name {
                Some(name) => Some(name@),
                None => None,
            },
            offset: self.offset,
            size: self.size,
        }
    }
}

/// One attribute certificate from the security data directory.
#[derive(Debug)]
pub struct CertificateRecord {
    /// `dwLength` of the `WIN_CERTIFICATE` header.
    pub length: u32,
    pub revision: u16,
    pub type_code: u16,
    /// The certificate's bytes, copied out of the image.
    pub blob: Vec<u8>,
}

/// A `CertificateRecord` as plain values.
pub struct CertificateRow {
    pub length: u32,
    pub revision: u16,
    pub type_code: u16,
    pub blob: Seq<u8>,
}

impl View for CertificateRecord {
    type V = CertificateRow;

    open spec fn view(&self) -> CertificateRow {
        CertificateRow {
            length: self.length,
            revision: self.revision,
            type_code: self.type_code,
            blob: self.blob@,
        }
    }
}

/// What the headers of a PE/COFF image say, as far as an inspection reads
/// them.
#[derive(Debug)]
pub struct PeLayout {
    /// The COFF header's machine type.
    pub machine: u16,
    /// Whether the image is PE32+.
    pub is_64: bool,
    /// The section table, in file order.
    pub sections: Vec<SectionEntry>,
    /// The attribute certificates, in file order.
    pub certificates: Vec<CertificateRecord>,
}

/// A `PeLayout` as plain values.
pub struct Layout {
    pub machine: u16,
    pub is_64: bool,
    pub sections: Seq<SectionRow>,
    pub certificates: Seq<CertificateRow>,
}

impl View for PeLayout {
    type V = Layout;

    open spec fn view(&self) -> Layout {
        Layout {
            machine: self.machine,
            is_64: self.is_64,
            sections: Seq::new(self.sections@.len(), |i: int| self.sections@[i]@),
            certificates: Seq::new(self.certificates@.len(), |i: int| self.certificates@[i]@),
        }
    }
}

#[verifier::external_type_specification]
#[verifier::external_body]
pub struct ExGoblinError(goblin::error::Error);

/// The little-endian 16-bit number at `at`.
pub open spec fn le16(image: Seq<u8>, at: int) -> int {
    image[at] as int + 256 * (image[at + 1] as int)
}

/// The little-endian 32-bit number at `at`.
pub open spec fn le32(image: Seq<u8>, at: int) -> int {
    le16(image, at) + 65536 * le16(image, at + 2)
}

/// Where the PE signature stands, by the DOS header's field at `0x3c`. The
/// COFF header follows it at `+ 4`, the optional header at `+ 24`.
pub open spec fn pe_pointer(image: Seq<u8>) -> int {
    le32(image, 0x3c)
}

/// The COFF header's machine type.
pub open spec fn coff_machine(image: Seq<u8>) -> int {
    le16(image, pe_pointer(image) + 4)
}

/// The COFF header's size of the optional header; 0 says there is none.
pub open spec fn optional_header_size(image: Seq<u8>) -> int {
    le16(image, pe_pointer(image) + 20)
}

/// The optional header's magic: `0x10b` for PE32, `0x20b` for PE32+.
pub open spec fn optional_magic(image: Seq<u8>) -> int {
    le16(image, pe_pointer(image) + 24)
}

/// Where the data directories start: 96 bytes into a PE32 optional header,
/// 112 bytes into a PE32+ one. The four bytes before them hold their count.
pub open spec fn directories_at(image: Seq<u8>) -> int {
    pe_pointer(image) + 24 + if optional_magic(image) == 0x20b {
        112int
    } else {
        96int
    }
}

/// How many data directories the optional header says it has.
pub open spec fn directory_count(image: Seq<u8>) -> int {
    le32(image, directories_at(image) - 4)
}

/// The image has no data directory `index`: the count stops short of it, or
/// its eight bytes lie inside the file and are all zero.
pub open spec fn directory_is_absent(image: Seq<u8>, index: int) -> bool {
    let entry = directories_at(image) + 8 * index;
    directory_count(image) <= index || (entry + 8 <= image.len() && forall|k: int|
        entry <= k < entry + 8 ==> #[trigger] image[k] == 0)
}

/// Headers that can be handed to the header parser. The DOS header and the
/// COFF header lie inside the file; and either there is no optional header,
/// or its magic is that of PE32 or PE32+, the directory count lies inside
/// the file, and the image has none of the data directories that the parser
/// would follow into the file: export (0), import (1), debug (6), TLS (9)
/// and, on x86-64, exception (3). The certificate table (4) is welcome.
pub open spec fn headers_are_safe(image: Seq<u8>) -> bool {
    &&& image.len() >= 0x40
    &&& pe_pointer(image) + 24 <= image.len()
    &&& (optional_header_size(image) == 0 || {
        &&& pe_pointer(image) + 26 <= image.len()
        &&& (optional_magic(image) == 0x10b || optional_magic(image) == 0x20b)
        &&& directories_at(image) <= image.len()
        &&& directory_is_absent(image, 0)
        &&& directory_is_absent(image, 1)
        &&& directory_is_absent(image, 6)
        &&& directory_is_absent(image, 9)
        &&& (coff_machine(image) == MACHINE_X86_64 ==> directory_is_absent(image, 3))
    })
}

/// What `goblin` reads from the headers of `image` with attribute
/// certificates enabled; `None` where it rejects the image.
pub uninterp spec fn parsed_layout(image: Seq<u8>) -> Option<Layout>;

/// The two magic numbers are in place: `MZ` at the start of the file, and
/// `PE\0\0` where the DOS header points.
pub open spec fn has_signatures(image: Seq<u8>) -> bool {
    &&& image.len() >= 0x40
    &&& le16(image, 0) == 0x5a4d
    &&& pe_pointer(image) + 4 <= image.len()
    &&& le32(image, pe_pointer(image)) == 0x4550
}

/// The headers of `image`: what the parser reads from an image that has its
/// magic numbers and headers that can be handed to it, and `None` for all
/// others.
pub open spec fn layout_of(image: Seq<u8>) -> Option<Layout> {
    if has_signatures(image) && headers_are_safe(image) {
        parsed_layout(image)
    } else {
        None
    }
}

/// Calls `goblin::pe::PE::parse_with_opts`, with
/// `parse_attribute_certificates` switched on, and copies out the machine
/// type, the PE32+ flag, and for each section its `name()`, raw-data pointer
/// and raw-data size, and for each certificate its header fields and bytes.
///
/// Trusted: on an image that meets `headers_are_safe` the call returns, and
/// its outcome is a function of the image bytes alone. Nothing is claimed
/// about what that outcome is.
///
/// The precondition is there because the crate can panic once it follows a
/// data directory into the file: it indexes the image with a range whose
/// length the TLS directory gives, and it adds section fields without a
/// check on the way to any export, import, debug, exception or TLS table.
/// With those directories absent it reads the DOS, COFF and optional
/// headers, the section table and the certificate table, each with checked
/// reads. The offsets it reads at are sums of 32-bit header fields made in
/// `usize`, which holds them on a 64-bit target.
#[verifier::external_body]
fn parse_headers(image: &[u8]) -> (parsed: Result<PeLayout, goblin::error::Error>)
    requires
        headers_are_safe(image@),
    ensures
        parsed matches Ok(layout) ==> parsed_layout(image@) == Some(layout@),
        parsed is Err ==> parsed_layout(image@) is None,
{
    let mut opts = goblin::pe::options::ParseOptions::default();
    opts.parse_attribute_certificates = true;
    let pe = goblin::pe::PE::parse_with_opts(image, &opts)?;
    let sections = pe.sections.iter().map(|s| SectionEntry {
        name: s.name().ok().map(String::from),
        offset: s.pointer_to_raw_data,
        size: s.size_of_raw_data,
    }).collect();
    let certificates = pe.certificates.iter().map(|c| CertificateRecord {
        length: c.length,
        revision: c.revision as u16,
        type_code: c.certificate_type as u16,
        blob: c.certificate.to_vec(),
    }).collect();
    Ok(PeLayout { machine: pe.header.coff_header.machine, is_64: pe.is_64, sections, certificates })
}

/// The little-endian 16-bit number at `at`.
fn read16(image: &[u8], at: usize) -> (value: u64)
    requires
        at + 2 <= image@.len(),
    ensures
        value == le16(image@, at as int),
        value < 0x1_0000,
{
    let _ = image.len();
    image[at] as u64 + 256 * (image[at + 1] as u64)
}

/// The little-endian 32-bit number at `at`.
fn read32(image: &[u8], at: usize) -> (value: u64)
    requires
        at + 4 <= image@.len(),
    ensures
        value == le32(image@, at as int),
        value < 0x1_0000_0000,
{
    let _ = image.len();
    read16(image, at) + 65536 * read16(image, at + 2)
}

/// Whether the image has no data directory `index`, given where the
/// directories start and how many there are.
fn is_directory_absent(image: &[u8], directories: u64, count: u64, index: u64) -> (absent: bool)
    requires
        directories == directories_at(image@),
        count == directory_count(image@),
        directories < 0x2_0000_0000,
        index < 16,
    ensures
        absent == directory_is_absent(image@, index as int),
{
    if count <= index {
        return true;
    }
    let entry = directories + 8 * index;
    let len = image.len();
    if entry + 8 > len as u64 {
        return false;
    }
    let start = entry as usize;
    let end = start + 8;
    let mut k: usize = start;
    while k < end
        invariant
            start <= k <= end <= image@.len(),
            end == start + 8,
            start == directories_at(image@) + 8 * index,
            directory_count(image@) > index,
            forall|j: int| start <= j < k ==> #[trigger] image@[j] == 0,
        decreases end - k,
    {
        if image[k] != 0 {
            assert(image@[k as int] != 0);
            return false;
        }
        k += 1;
    }
    true
}

/// Whether the headers of `image` can be handed to the header parser.
pub fn are_headers_safe(image: &[u8]) -> (ok: bool)
    ensures
        ok == headers_are_safe(image@),
{
    let len = image.len() as u64;
    if len < 0x40 {
        return false;
    }
    let pe = read32(image, 0x3c);
    if pe + 24 > len {
        return false;
    }
    let pe_at = pe as usize;
    if read16(image, pe_at + 20) == 0 {
        return true;
    }
    if pe + 26 > len {
        return false;
    }
    let magic = read16(image, pe_at + 24);
    if magic != 0x10b && magic != 0x20b {
        return false;
    }
    let directories = pe + 24 + if magic == 0x20b {
        112
    } else {
        96
    };
    if directories > len {
        return false;
    }
    let count = read32(image, (directories - 4) as usize);
    let machine = read16(image, pe_at + 4);
    is_directory_absent(image, directories, count, 0) && is_directory_absent(
        image,
        directories,
        count,
        1,
    ) && is_directory_absent(image, directories, count, 6) && is_directory_absent(
        image,
        directories,
        count,
        9,
    ) && (machine != 0x8664 || is_directory_absent(image, directories, count, 3))
}

/// Whether `image` has its two magic numbers.
pub fn has_pe_signatures(image: &[u8]) -> (ok: bool)
    ensures
        ok == has_signatures(image@),
{
    let len = image.len() as u64;
    if len < 0x40 || read16(image, 0) != 0x5a4d {
        return false;
    }
    let pe = read32(image, 0x3c);
    pe + 4 <= len && read32(image, pe as usize) == 0x4550
}

/// Reads the headers of `image`. Fails with `MalformedImage` where a magic
/// number is missing, where the headers are truncated or otherwise not those
/// of a structurally valid PE/COFF image, and where the image has a data
/// directory that cannot be followed safely.
pub fn parse_layout(image: &[u8]) -> (parsed: Result<PeLayout, InspectError>)
    ensures
        match layout_of(image@) {
            Some(expected) => parsed matches Ok(layout) && layout@ == expected,
            None => parsed matches Err(e) && e == InspectError::MalformedImage,
        },
{
    if !has_pe_signatures(image) || !are_headers_safe(image) {
        return Err(InspectError::MalformedImage);
    }
    match parse_headers(image) {
        Ok(layout) => Ok(layout),
        Err(_) => Err(InspectError::MalformedImage),
    }
}

/// The label reported for a machine type. Codes outside the table are not an
/// error: they are reported as `unknown`.
pub open spec fn arch_name(machine: u16) -> Seq<char> {
    if machine == MACHINE_X86_64 {
        "x86_64"@
    } else if machine == MACHINE_ARM64 {
        "aarch64"@
    } else if machine == MACHINE_ARM {
        "arm"@
    } else if machine == MACHINE_X86 {
        "i386"@
    } else {
        "unknown"@
    }
}

/// The label reported for a machine type.
pub fn arch_label(machine: u16) -> (label: &'static str)
    ensures
        label@ == arch_name(machine),
{
    if machine == MACHINE_X86_64 {
        "x86_64"
    } else if machine == MACHINE_ARM64 {
        "aarch64"
    } else if machine == MACHINE_ARM {
        "arm"
    } else if machine == MACHINE_X86 {
        "i386"
    } else {
        "unknown"
    }
}

/// Index of the first row named `name`; the number of rows if there is none.
pub open spec fn position(sections: Seq<SectionRow>, name: Seq<char>) -> int
    decreases sections.len(),
{
    if sections.len() == 0 || sections[0].name == Some(name) {
        0
    } else {
        1 + position(sections.drop_first(), name)
    }
}

/// The first row named `name`: where names repeat, the earliest row wins.
pub open spec fn lookup(sections: Seq<SectionRow>, name: Seq<char>) -> Option<SectionRow> {
    if position(sections, name) < sections.len() {
        Some(sections[position(sections, name)])
    } else {
        None
    }
}

/// Whether the row's range lies inside a file of `image_len` bytes.
pub open spec fn in_bounds(row: SectionRow, image_len: nat) -> bool {
    row.offset + row.size <= image_len
}

/// The bytes a row points at.
pub open spec fn row_bytes(image: Seq<u8>, row: SectionRow) -> Seq<u8> {
    image.subrange(row.offset as int, row.offset + row.size)
}

/// The first row named `name`, checked against a file of `image_len` bytes:
/// nothing if there is no such row, the row if its range lies inside the
/// file, and a failure if it does not. Only absence is taken lightly; a
/// range outside the file is corruption.
pub open spec fn named_row(layout: Layout, image_len: nat, name: Seq<char>) -> Result<
    Option<SectionRow>,
    InspectFailure,
> {
    match lookup(layout.sections, name) {
        None => Ok(None),
        Some(row) => if in_bounds(row, image_len) {
            Ok(Some(row))
        } else {
            Err(InspectFailure::InvalidSectionBounds(name))
        },
    }
}

/// The bytes of the first section named `name`, under the same conditions.
pub open spec fn named_bytes(layout: Layout, image: Seq<u8>, name: Seq<char>) -> Result<
    Option<Seq<u8>>,
    InspectFailure,
> {
    match named_row(layout, image.len(), name) {
        Ok(Some(row)) => Ok(Some(row_bytes(image, row))),
        Ok(None) => Ok(None),
        Err(failure) => Err(failure),
    }
}

/// The text of the first section named `name`, under the same conditions.
pub open spec fn named_text(layout: Layout, image: Seq<u8>, name: Seq<char>) -> Result<
    Option<Seq<char>>,
    InspectFailure,
> {
    match named_bytes(layout, image, name) {
        Ok(Some(bytes)) => Ok(Some(section_text(bytes))),
        Ok(None) => Ok(None),
        Err(failure) => Err(failure),
    }
}

pub proof fn lemma_position(sections: Seq<SectionRow>, name: Seq<char>)
    ensures
        0 <= position(sections, name) <= sections.len(),
        forall|i: int|
            0 <= i < position(sections, name) ==> (#[trigger] sections[i]).name != Some(name),
        position(sections, name) < sections.len() ==> sections[position(sections, name)].name
            == Some(name),
    decreases sections.len(),
{
    if sections.len() == 0 || sections[0].name == Some(name) {
    } else {
        let rest = sections.drop_first();
        lemma_position(rest, name);
        assert forall|i: int| 0 <= i < position(sections, name) implies (
        #[trigger] sections[i]).name != Some(name) by {
            if i > 0 {
                assert(sections[i] == rest[i - 1]);
            }
        }
        if position(sections, name) < sections.len() {
            assert(sections[position(sections, name)] == rest[position(rest, name)]);
        }
    }
}

/// `position` is the one index with no match before it that matches or is
/// the end.
pub proof fn lemma_position_is(sections: Seq<SectionRow>, name: Seq<char>, n: int)
    requires
        0 <= n <= sections.len(),
        forall|i: int| 0 <= i < n ==> (#[trigger] sections[i]).name != Some(name),
        n < sections.len() ==> sections[n].name == Some(name),
    ensures
        position(sections, name) == n,
{
    lemma_position(sections, name);
    let m = position(sections, name);
    if m < n {
        assert(sections[m].name != Some(name));
    } else if n < m {
        assert(sections[n].name != Some(name));
    }
}

impl PeLayout {
    /// A human-oriented architecture label and the PE32+ flag.
    pub fn arch_summary(&self) -> (summary: (&'static str, bool))
        ensures
            summary.0@ == arch_name(self@.machine),
            summary.1 == self@.is_64,
    {
        (arch_label(self.machine), self.is_64)
    }

    /// Index of the first section whose name is exactly `name`.
    pub fn find(&self, name: &str) -> (found: Option<usize>)
        ensures
            found matches Some(i) ==> i == position(self@.sections, name@) && i
                < self.sections@.len(),
            found is None ==> position(self@.sections, name@) == self@.sections.len(),
    {
        let wanted = name.to_owned();
        let mut i: usize = 0;
        while i < self.sections.len()
            invariant
                i <= self.sections@.len(),
                wanted@ == name@,
                forall|k: int| 0 <= k < i ==> (#[trigger] self@.sections[k]).name != Some(name@),
            decreases self.sections@.len() - i,
        {
            let hit = match &self.sections[i].name {
                Some(n) => *n == wanted,
                None => false,
            };
            if hit {
                proof {
                    lemma_position_is(self@.sections, name@, i as int);
                }
                return Some(i);
            }
            i += 1;
        }
        proof {
            lemma_position_is(self@.sections, name@, i as int);
        }
        None
    }

    /// File offset and file size of the first section named `name` in a file
    /// of `image_len` bytes; `None` if no section has that name. Fails with
    /// `InvalidSectionBounds(name)` if the first that has it does not lie
    /// inside the file: coordinates that do not fit are never handed out.
    pub fn section_info(&self, name: &str, image_len: usize) -> (info: Result<
        Option<(usize, usize)>,
        InspectError,
    >)
        ensures
            match named_row(self@, image_len as nat, name@) {
                Ok(Some(row)) => info matches Ok(Some(pair)) && pair == (
                    row.offset as usize,
                    row.size as usize,
                ),
                Ok(None) => info matches Ok(None),
                Err(failure) => info matches Err(e) && e@ == failure,
            },
    {
        match self.find(name) {
            None => Ok(None),
            Some(i) => {
                let offset = self.sections[i].offset as usize;
                let size = self.sections[i].size as usize;
                let descriptor = SectionDescriptor::new(name.to_owned(), offset, size, image_len)?;
                Ok(Some((descriptor.offset(), descriptor.size())))
            },
        }
    }

    /// The descriptor of the first section named `name` in a file of
    /// `image_len` bytes. Fails with `SectionNotFound(name)` if no section
    /// has that name, and with `InvalidSectionBounds(name)` if the first that
    /// has it does not lie inside the file.
    pub fn locate(&self, name: &str, image_len: usize) -> (located: Result<
        SectionDescriptor,
        InspectError,
    >)
        ensures
            match lookup(self@.sections, name@) {
                None => located matches Err(e) && e@ == InspectFailure::SectionNotFound(name@),
                Some(row) => if in_bounds(row, image_len as nat) {
                    located matches Ok(d) && d@ == (SectionSpan {
                        name: name@,
                        offset: row.offset as nat,
                        size: row.size as nat,
                        image_len: image_len as nat,
                    })
                } else {
                    located matches Err(e) && e@ == InspectFailure::InvalidSectionBounds(name@)
                },
            },
    {
        match self.find(name) {
            None => Err(InspectError::SectionNotFound(name.to_owned())),
            Some(i) => SectionDescriptor::new(
                name.to_owned(),
                self.sections[i].offset as usize,
                self.sections[i].size as usize,
                image_len,
            ),
        }
    }

    /// The bytes of the first section named `name`; `None` if no section has
    /// that name. Fails with `InvalidSectionBounds(name)` if the first that
    /// has it does not lie inside `image`.
    pub fn section_bytes<'a>(&self, image: &'a [u8], name: &str) -> (bytes: Result<
        Option<&'a [u8]>,
        InspectError,
    >)
        ensures
            match named_bytes(self@, image@, name@) {
                Ok(Some(expected)) => bytes matches Ok(Some(b)) && b@ == expected,
                Ok(None) => bytes matches Ok(None),
                Err(failure) => bytes matches Err(e) && e@ == failure,
            },
    {
        match self.section_info(name, image.len())? {
            None => Ok(None),
            Some((offset, size)) => Ok(
                Some(vstd::slice::slice_subrange(image, offset, offset + size)),
            ),
        }
    }

    /// The first section named `name` read as text: cut at the first NUL,
    /// decoded as UTF-8 with invalid sequences replaced, and trimmed. `None`
    /// and failure as for `section_bytes`.
    pub fn read_text(&self, image: &[u8], name: &str) -> (text: Result<Option<String>, InspectError>)
        ensures
            match named_text(self@, image@, name@) {
                Ok(Some(expected)) => text matches Ok(Some(t)) && t@ == expected,
                Ok(None) => text matches Ok(None),
                Err(failure) => text matches Err(e) && e@ == failure,
            },
    {
        match self.section_bytes(image, name)? {
            Some(bytes) => Ok(Some(decode_section_text(bytes))),
            None => Ok(None),
        }
    }

    /// Number of attribute certificates.
    pub fn cert_count(&self) -> (count: usize)
        ensures
            count == self@.certificates.len(),
    {
        self.certificates.len()
    }

    /// Whether the image carries at least one attribute certificate. This is
    /// presence only: no signature is checked.
    pub fn is_signed(&self) -> (signed: bool)
        ensures
            signed == (self@.certificates.len() > 0),
    {
        self.certificates.len() > 0
    }

    /// `(length, revision, type)` of each attribute certificate, in file
    /// order.
    pub fn certificate_metadata(&self) -> (meta: Vec<(u32, u16, u16)>)
        ensures
            meta@.len() == self@.certificates.len(),
            forall|i: int|
                0 <= i < meta@.len() ==> #[trigger] meta@[i] == (
                    self@.certificates[i].length,
                    self@.certificates[i].revision,
                    self@.certificates[i].type_code,
                ),
    {
        let mut meta: Vec<(u32, u16, u16)> = Vec::new();
        let mut i: usize = 0;
        while i < self.certificates.len()
            invariant
                i <= self.certificates@.len(),
                meta@.len() == i,
                forall|k: int|
                    0 <= k < i ==> #[trigger] meta@[k] == (
                        self@.certificates[k].length,
                        self@.certificates[k].revision,
                        self@.certificates[k].type_code,
                    ),
            decreases self.certificates@.len() - i,
        {
            let c = &self.certificates[i];
            meta.push((c.length, c.revision, c.type_code));
            i += 1;
        }
        meta
    }

    /// The bytes of each attribute certificate, in file order.
    pub fn certificate_blobs(&self) -> (blobs: Vec<Vec<u8>>)
        ensures
            blobs@.len() == self@.certificates.len(),
            forall|i: int|
                0 <= i < blobs@.len() ==> (#[trigger] blobs@[i])@ == self@.certificates[i].blob,
    {
        let mut blobs: Vec<Vec<u8>> = Vec::new();
        let mut i: usize = 0;
        while i < self.certificates.len()
            invariant
                i <= self.certificates@.len(),
                blobs@.len() == i,
                forall|k: int|
                    0 <= k < i ==> (#[trigger] blobs@[k])@ == self@.certificates[k].blob,
            decreases self.certificates@.len() - i,
        {
            let copy = vstd::slice::slice_to_vec(self.certificates[i].blob.as_slice());
            blobs.push(copy);
            i += 1;
        }
        blobs
    }
}

/// The bytes `[offset, offset + size)` of `image` that `descriptor` names.
/// Fails with `InvalidSectionBounds` if that range does not lie inside
/// `image`. The check is made against the image in hand, whatever file the
/// descriptor was made for.
pub fn read_section<'a>(image: &'a [u8], descriptor: &SectionDescriptor) -> (read: Result<
    &'a [u8],
    InspectError,
>)
    ensures
        read is Ok <==> descriptor@.offset + descriptor@.size <= image@.len(),
        read matches Ok(bytes) ==> bytes@ == image@.subrange(
            descriptor@.offset as int,
            (descriptor@.offset + descriptor@.size) as int,
        ),
        read matches Err(e) ==> e@ == InspectFailure::InvalidSectionBounds(
            descriptor@.name,
        ),
{
    let start = descriptor.offset();
    let end = descriptor.end();
    if end <= image.len() {
        Ok(vstd::slice::slice_subrange(image, start, end))
    } else {
        Err(InspectError::InvalidSectionBounds(descriptor.name().to_owned()))
    }
}

/// A PE/EFI image that owns its bytes. The bytes are never changed; every
/// method reads the headers afresh and looks into the same bytes.
#[derive(Debug)]
pub struct PeFile {
    data: Vec<u8>,
}

impl View for PeFile {
    type V = Seq<u8>;

    closed spec fn view(&self) -> Seq<u8> {
        self.data@
    }
}

impl PeFile {
    /// Takes ownership of the bytes of an image. Nothing is parsed yet, so
    /// this always succeeds.
    pub fn from_bytes(bytes: Vec<u8>) -> (made: Result<PeFile, InspectError>)
        ensures
            made matches Ok(file) && file@ == bytes@,
    {
        Ok(PeFile { data: bytes })
    }

    /// The whole image.
    pub fn image(&self) -> (bytes: &[u8])
        ensures
            bytes@ == self@,
    {
        self.data.as_slice()
    }

    /// The image's headers. Fails with `MalformedImage` where the bytes are
    /// not a structurally valid PE/COFF image, or have a data directory that
    /// cannot be followed safely.
    pub fn layout(&self) -> (parsed: Result<PeLayout, InspectError>)
        ensures
            match layout_of(self@) {
                Some(expected) => parsed matches Ok(layout) && layout@ == expected,
                None => parsed matches Err(e) && e == InspectError::MalformedImage,
            },
    {
        parse_layout(self.data.as_slice())
    }

    /// A human-oriented architecture label and the PE32+ flag: `("x86_64",
    /// true)` for an amd64 image, `("i386", false)` for 32-bit x86.
    pub fn arch_summary(&self) -> (summary: Result<(&'static str, bool), InspectError>)
        ensures
            match layout_of(self@) {
                Some(layout) => summary matches Ok(s) && s.0@ == arch_name(layout.machine) && s.1
                    == layout.is_64,
                None => summary matches Err(e) && e == InspectError::MalformedImage,
            },
    {
        let layout = self.layout()?;
        Ok(layout.arch_summary())
    }

    /// File offset and file size of the first section named `name`; `None`
    /// if no section has that name. Fails with `InvalidSectionBounds(name)`
    /// if the first that has it does not lie inside the file.
    pub fn section_info(&self, name: &str) -> (info: Result<Option<(usize, usize)>, InspectError>)
        ensures
            match layout_of(self@) {
                None => info matches Err(e) && e == InspectError::MalformedImage,
                Some(layout) => match named_row(layout, self@.len(), name@) {
                    Ok(Some(row)) => info matches Ok(Some(pair)) && pair == (
                        row.offset as usize,
                        row.size as usize,
                    ),
                    Ok(None) => info matches Ok(None),
                    Err(failure) => info matches Err(e) && e@ == failure,
                },
            },
    {
        let layout = self.layout()?;
        layout.section_info(name, self.data.len())
    }

    /// The bytes of the first section named `name` (`.initrd`, `.linux`,
    /// `.cmdline`, ...); `None` if no section has that name. Fails with
    /// `InvalidSectionBounds(name)` if the first that has it does not lie
    /// inside the file.
    pub fn section_bytes(&self, name: &str) -> (bytes: Result<Option<&[u8]>, InspectError>)
        ensures
            match layout_of(self@) {
                None => bytes matches Err(e) && e == InspectError::MalformedImage,
                Some(layout) => match named_bytes(layout, self@, name@) {
                    Ok(Some(expected)) => bytes matches Ok(Some(b)) && b@ == expected,
                    Ok(None) => bytes matches Ok(None),
                    Err(failure) => bytes matches Err(e) && e@ == failure,
                },
            },
    {
        let layout = self.layout()?;
        layout.section_bytes(self.data.as_slice(), name)
    }

    /// A section read as text, which suits `.cmdline` and `.osrel`: cut at
    /// the first NUL, decoded as UTF-8 with invalid sequences replaced, and
    /// trimmed. `None` and failure as for `section_bytes`.
    pub fn read_text(&self, name: &str) -> (text: Result<Option<String>, InspectError>)
        ensures
            match layout_of(self@) {
                None => text matches Err(e) && e == InspectError::MalformedImage,
                Some(layout) => match named_text(layout, self@, name@) {
                    Ok(Some(expected)) => text matches Ok(Some(t)) && t@ == expected,
                    Ok(None) => text matches Ok(None),
                    Err(failure) => text matches Err(e) && e@ == failure,
                },
            },
    {
        let layout = self.layout()?;
        layout.read_text(self.data.as_slice(), name)
    }

    /// The descriptor of the first section named `name`. Fails with
    /// `SectionNotFound(name)` if no section has that name, and with
    /// `InvalidSectionBounds(name)` if the first that has it does not lie
    /// inside the file.
    pub fn locate(&self, name: &str) -> (located: Result<SectionDescriptor, InspectError>)
        ensures
            match layout_of(self@) {
                None => located matches Err(e) && e == InspectError::MalformedImage,
                Some(layout) => match lookup(layout.sections, name@) {
                    None => located matches Err(e) && e@
                        == InspectFailure::SectionNotFound(name@),
                    Some(row) => if in_bounds(row, self@.len()) {
                        located matches Ok(d) && d@ == (SectionSpan {
                            name: name@,
                            offset: row.offset as nat,
                            size: row.size as nat,
                            image_len: self@.len(),
                        })
                    } else {
                        located matches Err(e) && e@
                            == InspectFailure::InvalidSectionBounds(name@)
                    },
                },
            },
    {
        let layout = self.layout()?;
        layout.locate(name, self.data.len())
    }

    /// The bytes that `descriptor` names in this image. Fails with
    /// `InvalidSectionBounds` if its range does not lie inside this image.
    pub fn read(&self, descriptor: &SectionDescriptor) -> (read: Result<&[u8], InspectError>)
        ensures
            read is Ok <==> descriptor@.offset + descriptor@.size <= self@.len(),
            read matches Ok(bytes) ==> bytes@ == self@.subrange(
                descriptor@.offset as int,
                (descriptor@.offset + descriptor@.size) as int,
            ),
            read matches Err(e) ==> e@ == InspectFailure::InvalidSectionBounds(
                descriptor@.name,
            ),
    {
        read_section(self.data.as_slice(), descriptor)
    }

    /// The attribute certificates of the image, in file order; empty for an
    /// unsigned image. They are listed as found and never verified.
    pub fn certificates(&self) -> (records: Result<Vec<CertificateRecord>, InspectError>)
        ensures
            match layout_of(self@) {
                Some(layout) => records matches Ok(r) && r@.len() == layout.certificates.len()
                    && forall|i: int|
                    0 <= i < r@.len() ==> (#[trigger] r@[i])@ == layout.certificates[i],
                None => records matches Err(e) && e == InspectError::MalformedImage,
            },
    {
        let layout = self.layout()?;
        Ok(layout.certificates)
    }

    /// Whether the image carries one or more attribute certificates. That a
    /// certificate table is present does not mean the signature is valid.
    pub fn is_signed(&self) -> (signed: Result<bool, InspectError>)
        ensures
            match layout_of(self@) {
                Some(layout) => signed == Ok::<bool, InspectError>(layout.certificates.len() > 0),
                None => signed matches Err(e) && e == InspectError::MalformedImage,
            },
    {
        let layout = self.layout()?;
        Ok(layout.is_signed())
    }

    /// `(length, revision, type)` of each attribute certificate. The blob is
    /// usually PKCS#7 SignedData (type `0x0002`).
    pub fn certificate_metadata(&self) -> (meta: Result<Vec<(u32, u16, u16)>, InspectError>)
        ensures
            match layout_of(self@) {
                Some(layout) => meta matches Ok(m) && m@.len() == layout.certificates.len()
                    && forall|i: int|
                    0 <= i < m@.len() ==> #[trigger] m@[i] == (
                        layout.certificates[i].length,
                        layout.certificates[i].revision,
                        layout.certificates[i].type_code,
                    ),
                None => meta matches Err(e) && e == InspectError::MalformedImage,
            },
    {
        let layout = self.layout()?;
        Ok(layout.certificate_metadata())
    }

    /// The bytes of each attribute certificate.
    pub fn certificate_blobs(&self) -> (blobs: Result<Vec<Vec<u8>>, InspectError>)
        ensures
            match layout_of(self@) {
                Some(layout) => blobs matches Ok(b) && b@.len() == layout.certificates.len()
                    && forall|i: int|
                    0 <= i < b@.len() ==> (#[trigger] b@[i])@ == layout.certificates[i].blob,
                None => blobs matches Err(e) && e == InspectError::MalformedImage,
            },
    {
        let layout = self.layout()?;
        Ok(layout.certificate_blobs())
    }
}

} // verus!
