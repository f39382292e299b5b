//! The report on a Unified Kernel Image, and the pipeline that assembles it.

use crate::digest::{digest_hex, is_lower_hex, sha256_hex};
use crate::error::{InspectError, InspectFailure};
use crate::formats::initramfs::{classify, detect, gzip_magic, has_magic, Compression};
use crate::formats::osrel::{section_os_release, OsRelease, OsReleaseInfo};
use crate::formats::pe::{
    arch_name, has_signatures, headers_are_safe, in_bounds, layout_of, lookup, named_bytes,
    named_row, named_text, parse_layout, read_section, row_bytes, Layout, PeLayout, SectionRow,
};
use crate::formats::text::{
    is_trimmed, lemma_trimmed, lemma_trimmed_fixpoint, trimmed, until_nul, utf8_lossy,
};
use vstd::prelude::*;

verus! {

/// Where a section lies in the file, and the digest of its bytes.
#[derive(Debug)]
pub struct SectionInfo {
    pub offset: usize,
    pub size: usize,
    /// SHA-256 of the section's bytes, 64 lowercase hexadecimal characters.
    pub sha256: String,
}

/// The `.initrd` section, with what its leading bytes say about packing.
#[derive(Debug)]
pub struct InitrdInfo {
    pub section: SectionInfo,
    pub compression: Compression,
    /// Reserved: entries are not counted, so this is always `None`.
    pub entries_estimate: Option<usize>,
}

/// Everything an inspection finds. It owns all of its values; nothing in it
/// borrows from the image.
#[derive(Debug)]
pub struct Report {
    /// Architecture label, such as `aarch64`.
    pub arch: String,
    /// Whether the image is PE32+.
    pub pe32_plus: bool,
    /// Whether attribute certificates are present. Says nothing of validity.
    pub has_signature: bool,
    /// Number of attribute certificates.
    pub cert_count: usize,
    /// The kernel command line, trimmed; empty if there is none.
    pub cmdline: String,
    pub os_release: Option<OsRelease>,
    pub linux: SectionInfo,
    pub initrd: InitrdInfo,
}

/// A `SectionInfo` as plain values.
pub struct SectionFacts {
    pub offset: nat,
    pub size: nat,
    pub sha256: Seq<char>,
}

/// An `InitrdInfo` as plain values.
pub struct InitrdFacts {
    pub section: SectionFacts,
    pub compression: Compression,
    pub entries_estimate: Option<usize>,
}

/// A `Report` as plain values.
pub struct ReportFacts {
    pub arch: Seq<char>,
    pub pe32_plus: bool,
    pub has_signature: bool,
    pub cert_count: nat,
    pub cmdline: Seq<char>,
    pub os_release: Option<OsReleaseInfo>,
    pub linux: SectionFacts,
    pub initrd: InitrdFacts,
}

impl View for SectionInfo {
    type V = SectionFacts;

    open spec fn view(&self) -> SectionFacts {
        SectionFacts { offset: self.offset as nat, size: self.size as nat, sha256: self.sha256@ }
    }
}

impl View for InitrdInfo {
    type V = InitrdFacts;

    open spec fn view(&self) -> InitrdFacts {
        InitrdFacts {
            section: self.section@,
            compression: self.compression,
            entries_estimate: self.entries_estimate,
        }
    }
}

impl View for Report {
    type V = ReportFacts;

    open spec fn view(&self) -> ReportFacts {
        ReportFacts {
            arch: self.arch@,
            pe32_plus: self.pe32_plus,
            has_signature: self.has_signature,
            cert_count: self.cert_count as nat,
            cmdline: self.cmdline@,
            os_release: match self.os_release {
                Some(info) => Some(info@),
                None => None,
            },
            linux: self.linux@,
            initrd: self.initrd@,
        }
    }
}

/// The row of a section that an inspection cannot do without: the first row
/// of that name, provided its range lies inside the image.
pub open spec fn required_row(layout: Layout, image: Seq<u8>, name: Seq<char>) -> Result<
    SectionRow,
    InspectFailure,
> {
    match lookup(layout.sections, name) {
        None => Err(InspectFailure::SectionNotFound(name)),
        Some(row) => if in_bounds(row, image.len()) {
            Ok(row)
        } else {
            Err(InspectFailure::InvalidSectionBounds(name))
        },
    }
}

/// Coordinates of a row, with the digest of the bytes it points at.
pub open spec fn digested(image: Seq<u8>, row: SectionRow) -> SectionFacts {
    SectionFacts {
        offset: row.offset as nat,
        size: row.size as nat,
        sha256: digest_hex(row_bytes(image, row)),
    }
}

/// The command line an image reports: the text of `.cmdline`, or nothing
/// where there is no such section. A `.cmdline` that does not lie inside the
/// file is a failure.
pub open spec fn cmdline_of(layout: Layout, image: Seq<u8>) -> Result<Seq<char>, InspectFailure> {
    match named_text(layout, image, ".cmdline"@) {
        Ok(Some(text)) => Ok(text),
        Ok(None) => Ok(Seq::empty()),
        Err(failure) => Err(failure),
    }
}

/// The report on an image with the given headers, or the first failure met.
/// The steps run in a fixed order: command line, os-release, `.linux`, then
/// `.initrd`. The command line and the os-release may be absent; the kernel
/// and the initrd may not. A section that is there but does not lie inside
/// the file is a failure, whichever it is.
pub open spec fn report_of(layout: Layout, image: Seq<u8>) -> Result<ReportFacts, InspectFailure> {
    match cmdline_of(layout, image) {
        Err(failure) => Err(failure),
        Ok(cmdline) => match section_os_release(layout, image) {
            Err(failure) => Err(failure),
            Ok(os_release) => match required_row(layout, image, ".linux"@) {
                Err(failure) => Err(failure),
                Ok(linux) => match required_row(layout, image, ".initrd"@) {
                    Err(failure) => Err(failure),
                    Ok(initrd) => Ok(
                        ReportFacts {
                            arch: arch_name(layout.machine),
                            pe32_plus: layout.is_64,
                            has_signature: layout.certificates.len() > 0,
                            cert_count: layout.certificates.len(),
                            cmdline,
                            os_release,
                            linux: digested(image, linux),
                            initrd: InitrdFacts {
                                section: digested(image, initrd),
                                compression: classify(row_bytes(image, initrd)),
                                entries_estimate: None,
                            },
                        },
                    ),
                },
            },
        },
    }
}

/// What inspecting `image` gives: `MalformedImage` where the headers do not
/// parse, else the report or the first failure met.
pub open spec fn inspection_of(image: Seq<u8>) -> Result<ReportFacts, InspectFailure> {
    match layout_of(image) {
        None => Err(InspectFailure::MalformedImage),
        Some(layout) => report_of(layout, image),
    }
}

/// 64 characters, each of `0-9a-f`.
pub open spec fn is_digest_text(text: Seq<char>) -> bool {
    text.len() == 64 && forall|i: int| 0 <= i < 64 ==> is_lower_hex(#[trigger] text[i])
}

/// What holds of every report: the kernel and initrd coordinates are those
/// of the section table and lie inside the file; the initrd's kind is read
/// off its own bytes, so one that begins with the gzip magic is `Gzip`; a
/// signature is reported exactly when the certificate table is not empty;
/// the command line has no whitespace at either end, so trimming it changes
/// nothing; and entries are never estimated.
pub proof fn lemma_report_facts(layout: Layout, image: Seq<u8>)
    requires
        report_of(layout, image) is Ok,
    ensures
        ({
            let facts = report_of(layout, image)->Ok_0;
            &&& lookup(layout.sections, ".linux"@) matches Some(linux) && facts.linux.offset
                == linux.offset && facts.linux.size == linux.size && facts.linux.offset
                + facts.linux.size <= image.len() && facts.linux.sha256 == digest_hex(
                image.subrange(linux.offset as int, linux.offset + linux.size),
            )
            &&& lookup(layout.sections, ".initrd"@) matches Some(initrd)
                && facts.initrd.section.offset == initrd.offset && facts.initrd.section.size
                == initrd.size && facts.initrd.section.offset + facts.initrd.section.size
                <= image.len() && facts.initrd.compression == classify(row_bytes(image, initrd))
                && (has_magic(row_bytes(image, initrd), gzip_magic()) ==> facts.initrd.compression
                == Compression::Gzip)
            &&& facts.has_signature == (layout.certificates.len() > 0)
            &&& facts.has_signature == (facts.cert_count > 0)
            &&& is_trimmed(facts.cmdline)
            &&& trimmed(facts.cmdline) == facts.cmdline
            &&& facts.initrd.entries_estimate is None
        }),
{
    match named_bytes(layout, image, ".cmdline"@) {
        Ok(Some(bytes)) => {
            lemma_trimmed(utf8_lossy(until_nul(bytes)));
        },
        _ => {},
    }
    lemma_trimmed_fixpoint(cmdline_of(layout, image)->Ok_0);
}

/// What lacks a magic number is no image: a file too short for a DOS header,
/// one that does not begin with `MZ`, and one without `PE\0\0` where the DOS
/// header points are all malformed. So is an image with a data directory
/// that cannot be followed safely.
pub proof fn lemma_malformed_images(image: Seq<u8>)
    ensures
        image.len() < 0x40 ==> layout_of(image) is None,
        !has_signatures(image) || !headers_are_safe(image) ==> inspection_of(image) == Err::<
            ReportFacts,
            InspectFailure,
        >(InspectFailure::MalformedImage),
{
}

/// An image without a section that must be there has no report: where the
/// headers parse and the command-line and os-release steps pass, a missing
/// `.linux` is reported as such, and so is a missing `.initrd` where
/// `.linux` is in order.
pub proof fn lemma_required_sections(image: Seq<u8>)
    requires
        layout_of(image) is Some,
        cmdline_of(layout_of(image)->0, image) is Ok,
        section_os_release(layout_of(image)->0, image) is Ok,
    ensures
        ({
            let layout = layout_of(image)->0;
            &&& lookup(layout.sections, ".linux"@) is None ==> inspection_of(image) == Err::<
                ReportFacts,
                InspectFailure,
            >(InspectFailure::SectionNotFound(".linux"@))
            &&& required_row(layout, image, ".linux"@) is Ok && lookup(
                layout.sections,
                ".initrd"@,
            ) is None ==> inspection_of(image) == Err::<ReportFacts, InspectFailure>(
                InspectFailure::SectionNotFound(".initrd"@),
            )
        }),
{
}

/// A section whose range leaves the file ends the inspection, be it one the
/// report could do without: where the headers parse, a `.cmdline` that does
/// not lie inside the file is reported as such, and where the command line
/// is in order, so is an `.osrel` that does not.
pub proof fn lemma_out_of_bounds_is_fatal(image: Seq<u8>)
    requires
        layout_of(image) is Some,
    ensures
        ({
            let layout = layout_of(image)->0;
            &&& named_row(layout, image.len(), ".cmdline"@) is Err ==> inspection_of(image)
                == Err::<ReportFacts, InspectFailure>(
                InspectFailure::InvalidSectionBounds(".cmdline"@),
            )
            &&& cmdline_of(layout, image) is Ok && named_row(layout, image.len(), ".osrel"@) is Err
                ==> inspection_of(image) == Err::<ReportFacts, InspectFailure>(
                InspectFailure::InvalidSectionBounds(".osrel"@),
            )
        }),
{
}

impl PeLayout {
    /// Coordinates and bytes of a section that must be there. The digest
    /// field is left empty for the caller to fill. Fails with
    /// `SectionNotFound(name)` if no section has that name, and with
    /// `InvalidSectionBounds(name)` if the first that has it does not lie
    /// inside `image`.
    pub fn section_info_and_bytes<'a>(&self, image: &'a [u8], name: &str) -> (found: Result<
        (SectionInfo, &'a [u8]),
        InspectError,
    >)
        ensures
            match required_row(self@, image@, name@) {
                Ok(row) => found matches Ok((info, bytes)) && info@ == (SectionFacts {
                    offset: row.offset as nat,
                    size: row.size as nat,
                    sha256: Seq::empty(),
                }) && bytes@ == row_bytes(image@, row),
                Err(failure) => found matches Err(e) && e@ == failure,
            },
    {
        let descriptor = self.locate(name, image.len())?;
        let bytes = read_section(image, &descriptor)?;
        let info = SectionInfo {
            offset: descriptor.offset(),
            size: descriptor.size(),
            sha256: String::new(),
        };
        Ok((info, bytes))
    }
}

/// Coordinates and digest of a section that must be there, with its bytes.
fn digest_section<'a>(layout: &PeLayout, image: &'a [u8], name: &str) -> (found: Result<
    (SectionInfo, &'a [u8]),
    InspectError,
>)
    ensures
        match required_row(layout@, image@, name@) {
            Ok(row) => found matches Ok((info, bytes)) && info@ == digested(image@, row)
                && is_digest_text(info.sha256@) && bytes@ == row_bytes(image@, row),
            Err(failure) => found matches Err(e) && e@ == failure,
        },
{
    let (mut info, bytes) = layout.section_info_and_bytes(image, name)?;
    info.sha256 = sha256_hex(bytes);
    Ok((info, bytes))
}

/// Assembles the report on `image` from its headers, in one sequential pass.
/// Any failure ends the inspection: there is no partial report.
pub fn assemble_report(layout: &PeLayout, image: &[u8]) -> (assembled: Result<Report, InspectError>)
    ensures
        match report_of(layout@, image@) {
            Ok(facts) => assembled matches Ok(report) && report@ == facts && is_digest_text(
                report.linux.sha256@,
            ) && is_digest_text(report.initrd.section.sha256@),
            Err(failure) => assembled matches Err(e) && e@ == failure,
        },
{
    let (arch, pe32_plus) = layout.arch_summary();
    let cmdline = match layout.read_text(image, ".cmdline")? {
        Some(text) => text,
        None => String::new(),
    };
    let os_release = layout.os_release(image)?;
    let (linux, _) = digest_section(layout, image, ".linux")?;
    let (initrd, initrd_bytes) = digest_section(layout, image, ".initrd")?;
    let compression = detect(initrd_bytes);
    let cert_count = layout.cert_count();
    Ok(
        Report {
            arch: arch.to_owned(),
            pe32_plus,
            has_signature: cert_count > 0,
            cert_count,
            cmdline,
            os_release,
            linux,
            initrd: InitrdInfo { section: initrd, compression, entries_estimate: None },
        },
    )
}

/// Inspects the bytes of a Unified Kernel Image. Fails with `MalformedImage`
/// where the headers do not parse; with `InvalidSectionBounds` for the
/// first of `.cmdline`, `.osrel`, `.linux` and `.initrd` that is there but
/// does not lie inside the file; with `MalformedOsRelease` where `.osrel` is
/// not os-release text; and with `SectionNotFound` for a missing `.linux` or
/// `.initrd`. The sections are taken in the order given, and the first
/// failure met is the one returned.
pub fn inspect(bytes: Vec<u8>) -> (inspected: Result<Report, InspectError>)
    ensures
        match inspection_of(bytes@) {
            Ok(facts) => inspected matches Ok(report) && report@ == facts && is_digest_text(
                report.linux.sha256@,
            ) && is_digest_text(report.initrd.section.sha256@),
            Err(failure) => inspected matches Err(e) && e@ == failure,
        },
{
    let layout = parse_layout(bytes.as_slice())?;
    assemble_report(&layout, bytes.as_slice())
}

} // verus!
