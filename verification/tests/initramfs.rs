use lowell_core::formats::initramfs::{detect, Compression};

#[test]
fn initramfs_detects_gzip_xz_zstd_newc_unknown() {
    // gzip magic: 1F 8B
    assert!(matches!(
        detect(&[0x1F, 0x8B, 0x08, 0x00]),
        Compression::Gzip
    ));

    // xz magic: FD 37 7A 58 5A 00
    assert!(matches!(
        detect(&[0xFD, 0x37, 0x7A, 0x58, 0x5A, 0x00]),
        Compression::Xz
    ));

    // zstd magic: 28 B5 2F FD
    assert!(matches!(
        detect(&[0x28, 0xB5, 0x2F, 0xFD]),
        Compression::Zstd
    ));

    // newc cpio (uncompressed): ASCII "070701" at start
    assert!(matches!(detect(b"070701..."), Compression::Uncompressed));

    // unknown / too short
    assert!(matches!(detect(&[]), Compression::Unknown));
    assert!(matches!(detect(&[0x00, 0x01]), Compression::Unknown));
}

#[test]
fn detect_is_repeatable() {
    let samples: [&[u8]; 5] = [
        &[],
        &[0x1F, 0x8B],
        &[0xFD, 0x37, 0x7A, 0x58, 0x5A, 0x00, 0x01],
        &[0x28, 0xB5, 0x2F, 0xFD, 0x00],
        b"070701abc",
    ];
    for sample in samples {
        assert_eq!(detect(sample), detect(sample));
    }
}

#[test]
fn detect_needs_the_whole_magic() {
    assert_eq!(detect(&[0x1F]), Compression::Unknown);
    assert_eq!(detect(&[0x8B, 0x1F]), Compression::Unknown);
    assert_eq!(detect(&[0xFD, 0x37, 0x7A, 0x58, 0x5A]), Compression::Unknown);
    assert_eq!(detect(&[0xFD, 0x37, 0x7A, 0x58, 0x5A, 0x01]), Compression::Unknown);
    assert_eq!(detect(&[0x28, 0xB5, 0x2F]), Compression::Unknown);
    assert_eq!(detect(&[0x28, 0xB5, 0x2F, 0xFE]), Compression::Unknown);
    assert_eq!(detect(b"07070"), Compression::Unknown);
    assert_eq!(detect(b"070702"), Compression::Unknown);
    assert_eq!(detect(b"070707"), Compression::Unknown);
}

#[test]
fn detect_ignores_what_follows_the_magic() {
    assert_eq!(detect(&[0x1F, 0x8B]), Compression::Gzip);
    assert_eq!(detect(&[0x1F, 0x8B, 0xFF, 0xFF, 0xFF, 0xFF, 0xFF]), Compression::Gzip);
    assert_eq!(detect(&[0x28, 0xB5, 0x2F, 0xFD, 0x1F, 0x8B]), Compression::Zstd);
    assert_eq!(detect(b"070701"), Compression::Uncompressed);

    // Only the first six bytes count.
    let mut a = vec![0xFD, 0x37, 0x7A, 0x58, 0x5A, 0x00];
    let mut b = a.clone();
    a.extend_from_slice(&[1, 2, 3]);
    b.extend_from_slice(&[9, 9, 9, 9, 9, 9, 9]);
    assert_eq!(detect(&a), detect(&b));
    assert_eq!(detect(&a), Compression::Xz);
}

#[test]
fn magic_away_from_the_start_does_not_count() {
    assert_eq!(detect(&[0x00, 0x1F, 0x8B]), Compression::Unknown);
    assert_eq!(detect(b" 070701"), Compression::Unknown);
}

#[test]
fn compression_names_are_lowercase() {
    assert_eq!(Compression::Gzip.as_str(), "gzip");
    assert_eq!(Compression::Xz.as_str(), "xz");
    assert_eq!(Compression::Zstd.as_str(), "zstd");
    assert_eq!(Compression::Uncompressed.as_str(), "uncompressed");
    assert_eq!(Compression::Unknown.as_str(), "unknown");
}
