//! Compression sniffing for initramfs blobs.

use vstd::prelude::*;

verus! {

/// How an initramfs blob is packed, judged by its leading bytes alone.
#[derive(Clone, Copy, Debug, PartialEq, Eq, Structural)]
pub enum Compression {
    Gzip,
    Xz,
    Zstd,
    Uncompressed,
    Unknown,
}

impl Compression {
    /// The lowercase name a report shows for this kind.
    pub open spec fn label(self) -> Seq<char> {
        match self {
            Compression::Gzip => "gzip"@,
            Compression::Xz => "xz"@,
            Compression::Zstd => "zstd"@,
            Compression::Uncompressed => "uncompressed"@,
            Compression::Unknown => "unknown"@,
        }
    }

    /// The lowercase name a report shows for this kind.
    pub fn as_str(&self) -> (name: &'static str)
        ensures
            name@ == self.label(),
    {
        match self {
            Compression::Gzip => "gzip",
            Compression::Xz => "xz",
            Compression::Zstd => "zstd",
            Compression::Uncompressed => "uncompressed",
            Compression::Unknown => "unknown",
        }
    }
}

/// `bytes` begins with `magic`.
pub open spec fn has_magic(bytes: Seq<u8>, magic: Seq<u8>) -> bool {
    magic.len() <= bytes.len() && bytes.subrange(0, magic.len() as int) == magic
}

pub open spec fn gzip_magic() -> Seq<u8> {
    seq![0x1Fu8, 0x8Bu8]
}

pub open spec fn xz_magic() -> Seq<u8> {
    seq![0xFDu8, 0x37u8, 0x7Au8, 0x58u8, 0x5Au8, 0x00u8]
}

pub open spec fn zstd_magic() -> Seq<u8> {
    seq![0x28u8, 0xB5u8, 0x2Fu8, 0xFDu8]
}

/// ASCII `070701`, the header of a cpio "newc" archive.
pub open spec fn newc_magic() -> Seq<u8> {
    seq![0x30u8, 0x37u8, 0x30u8, 0x37u8, 0x30u8, 0x31u8]
}

/// The classification table. The four magics start with four different
/// bytes, so at most one row can match.
pub open spec fn classify(bytes: Seq<u8>) -> Compression {
    if has_magic(bytes, gzip_magic()) {
        Compression::Gzip
    } else if has_magic(bytes, xz_magic()) {
        Compression::Xz
    } else if has_magic(bytes, zstd_magic()) {
        Compression::Zstd
    } else if has_magic(bytes, newc_magic()) {
        Compression::Uncompressed
    } else {
        Compression::Unknown
    }
}

/// `has_magic`, spelled out byte by byte.
pub proof fn lemma_has_magic(bytes: Seq<u8>, magic: Seq<u8>)
    ensures
        has_magic(bytes, magic) <==> magic.len() <= bytes.len() && forall|i: int|
            0 <= i < magic.len() ==> bytes[i] == magic[i],
{
    if magic.len() <= bytes.len() {
        let head = bytes.subrange(0, magic.len() as int);
        if head == magic {
            assert forall|i: int| 0 <= i < magic.len() implies bytes[i] == magic[i] by {
                assert(head[i] == bytes[i]);
            }
        }
        if forall|i: int| 0 <= i < magic.len() ==> bytes[i] == magic[i] {
            assert(head =~= magic);
        }
    }
}

/// The table, row by row: a blob that begins with a magic is of that kind,
/// whatever follows, and a blob that begins with none is `Unknown`.
pub proof fn lemma_classify_table(bytes: Seq<u8>)
    ensures
        has_magic(bytes, gzip_magic()) ==> classify(bytes) == Compression::Gzip,
        has_magic(bytes, xz_magic()) ==> classify(bytes) == Compression::Xz,
        has_magic(bytes, zstd_magic()) ==> classify(bytes) == Compression::Zstd,
        has_magic(bytes, newc_magic()) ==> classify(bytes) == Compression::Uncompressed,
        !has_magic(bytes, gzip_magic()) && !has_magic(bytes, xz_magic()) && !has_magic(
            bytes,
            zstd_magic(),
        ) && !has_magic(bytes, newc_magic()) ==> classify(bytes) == Compression::Unknown,
{
    lemma_has_magic(bytes, gzip_magic());
    lemma_has_magic(bytes, xz_magic());
    lemma_has_magic(bytes, zstd_magic());
    lemma_has_magic(bytes, newc_magic());
    if bytes.len() > 0 {
        assert(gzip_magic()[0] == 0x1F && xz_magic()[0] == 0xFD);
        assert(zstd_magic()[0] == 0x28 && newc_magic()[0] == 0x30);
    }
}

/// The empty blob, and any blob of a single byte, is `Unknown`.
pub proof fn lemma_short_is_unknown(bytes: Seq<u8>)
    requires
        bytes.len() < 2,
    ensures
        classify(bytes) == Compression::Unknown,
{
}

/// The kind depends on the first six bytes and on nothing else: two blobs
/// that agree on them, or that are equal where both are shorter, are of the
/// same kind.
pub proof fn lemma_classify_reads_prefix(a: Seq<u8>, b: Seq<u8>)
    requires
        a.len() == b.len() || (a.len() >= 6 && b.len() >= 6),
        forall|i: int| 0 <= i < a.len() && i < 6 ==> a[i] == b[i],
    ensures
        classify(a) == classify(b),
{
    lemma_has_magic(a, gzip_magic());
    lemma_has_magic(a, xz_magic());
    lemma_has_magic(a, zstd_magic());
    lemma_has_magic(a, newc_magic());
    lemma_has_magic(b, gzip_magic());
    lemma_has_magic(b, xz_magic());
    lemma_has_magic(b, zstd_magic());
    lemma_has_magic(b, newc_magic());
}

/// Classifies a blob by its magic bytes. Total: anything that matches no row,
/// the empty blob included, is `Unknown`.
pub fn detect(bytes: &[u8]) -> (kind: Compression)
    ensures
        kind == classify(bytes@),
{
    proof {
        lemma_has_magic(bytes@, gzip_magic());
        lemma_has_magic(bytes@, xz_magic());
        lemma_has_magic(bytes@, zstd_magic());
        lemma_has_magic(bytes@, newc_magic());
    }
    let n = bytes.len();
    if n >= 2 && bytes[0] == 0x1F && bytes[1] == 0x8B {
        Compression::Gzip
    } else if n >= 6 && bytes[0] == 0xFD && bytes[1] == 0x37 && bytes[2] == 0x7A && bytes[3]
        == 0x58 && bytes[4] == 0x5A && bytes[5] == 0x00 {
        Compression::Xz
    } else if n >= 4 && bytes[0] == 0x28 && bytes[1] == 0xB5 && bytes[2] == 0x2F && bytes[3]
        == 0xFD {
        Compression::Zstd
    } else if n >= 6 && bytes[0] == 0x30 && bytes[1] == 0x37 && bytes[2] == 0x30 && bytes[3]
        == 0x37 && bytes[4] == 0x30 && bytes[5] == 0x31 {
        Compression::Uncompressed
    } else {
        Compression::Unknown
    }
}

} // verus!
