use lowell_core::error::InspectError;
use lowell_core::formats::pe::{
    arch_label, read_section, CertificateRecord, PeLayout, SectionEntry, MACHINE_ARM,
    MACHINE_ARM64, MACHINE_X86, MACHINE_X86_64,
};
use lowell_core::formats::section::SectionDescriptor;

fn entry(name: Option<&str>, offset: u32, size: u32) -> SectionEntry {
    SectionEntry { name: name.map(str::to_string), offset, size }
}

fn layout(sections: Vec<SectionEntry>) -> PeLayout {
    PeLayout { machine: MACHINE_X86_64, is_64: true, sections, certificates: Vec::new() }
}

fn image(len: usize) -> Vec<u8> {
    (0..len).map(|i| (i % 251) as u8).collect()
}

#[test]
fn machine_codes_are_those_of_the_pe_format() {
    assert_eq!(MACHINE_X86_64, goblin::pe::header::COFF_MACHINE_X86_64);
    assert_eq!(MACHINE_ARM64, goblin::pe::header::COFF_MACHINE_ARM64);
    assert_eq!(MACHINE_ARM, goblin::pe::header::COFF_MACHINE_ARM);
    assert_eq!(MACHINE_X86, goblin::pe::header::COFF_MACHINE_X86);
}

#[test]
fn arch_labels_follow_the_table() {
    assert_eq!(arch_label(0x8664), "x86_64");
    assert_eq!(arch_label(0xaa64), "aarch64");
    assert_eq!(arch_label(0x1c0), "arm");
    assert_eq!(arch_label(0x14c), "i386");
}

#[test]
fn other_machine_codes_are_unknown_not_an_error() {
    assert_eq!(arch_label(0), "unknown");
    assert_eq!(arch_label(0x1c4), "unknown");
    assert_eq!(arch_label(0x5064), "unknown");
    assert_eq!(arch_label(0xffff), "unknown");
}

#[test]
fn arch_summary_pairs_label_and_width() {
    let l = PeLayout { machine: 0x14c, is_64: false, sections: vec![], certificates: vec![] };
    assert_eq!(l.arch_summary(), ("i386", false));
    let l = PeLayout { machine: 0xaa64, is_64: true, sections: vec![], certificates: vec![] };
    assert_eq!(l.arch_summary(), ("aarch64", true));
}

#[test]
fn find_matches_the_exact_name() {
    let l = layout(vec![
        entry(Some(".text"), 0x400, 0x200),
        entry(Some(".linux"), 0x600, 0x100),
        entry(None, 0x700, 0x10),
        entry(Some(".initrd"), 0x800, 0x80),
    ]);
    assert_eq!(l.find(".text"), Some(0));
    assert_eq!(l.find(".linux"), Some(1));
    assert_eq!(l.find(".initrd"), Some(3));
    assert_eq!(l.find(".lin"), None);
    assert_eq!(l.find(".linux "), None);
    assert_eq!(l.find(".LINUX"), None);
    assert_eq!(l.find(""), None);
    assert_eq!(layout(vec![]).find(".linux"), None);
}

#[test]
fn first_match_wins_among_duplicates() {
    let l = layout(vec![
        entry(Some(".initrd"), 0x100, 0x10),
        entry(Some(".initrd"), 0x200, 0x20),
        entry(Some(".initrd"), 0x300, 0x30),
    ]);
    assert_eq!(l.find(".initrd"), Some(0));
    assert_eq!(l.section_info(".initrd", 0x1000).expect("fits"), Some((0x100, 0x10)));
    let d = l.locate(".initrd", 0x1000).expect("located");
    assert_eq!((d.offset(), d.size()), (0x100, 0x10));
}

#[test]
fn section_info_never_hands_out_what_does_not_fit() {
    let l = layout(vec![entry(Some(".linux"), 100, 50), entry(Some(".big"), 0xffff_0000, 0xffff_ffff)]);
    assert_eq!(l.section_info(".linux", 150).expect("fits exactly"), Some((100, 50)));
    assert_eq!(l.section_info(".initrd", 150).expect("absent is no failure"), None);
    match l.section_info(".linux", 149) {
        Err(InspectError::InvalidSectionBounds(name)) => assert_eq!(name, ".linux"),
        other => panic!("expected InvalidSectionBounds, got {:?}", other),
    }
    match l.section_info(".big", 0xffff_ffff) {
        Err(InspectError::InvalidSectionBounds(name)) => assert_eq!(name, ".big"),
        other => panic!("expected InvalidSectionBounds, got {:?}", other),
    }
}

#[test]
fn locate_tells_missing_from_out_of_bounds() {
    let l = layout(vec![entry(Some(".linux"), 100, 50), entry(Some(".initrd"), 140, 20)]);
    let d = l.locate(".linux", 150).expect("fits exactly");
    assert_eq!(d.name(), ".linux");
    assert_eq!((d.offset(), d.size(), d.end(), d.image_len()), (100, 50, 150, 150));

    match l.locate(".linux", 149) {
        Err(InspectError::InvalidSectionBounds(name)) => assert_eq!(name, ".linux"),
        other => panic!("expected InvalidSectionBounds, got {:?}", other),
    }
    match l.locate(".cmdline", 1000) {
        Err(InspectError::SectionNotFound(name)) => assert_eq!(name, ".cmdline"),
        other => panic!("expected SectionNotFound, got {:?}", other),
    }
}

#[test]
fn locate_does_not_wrap_large_coordinates() {
    let l = layout(vec![entry(Some(".x"), u32::MAX, u32::MAX)]);
    assert!(matches!(l.locate(".x", usize::MAX / 2), Ok(_) | Err(InspectError::InvalidSectionBounds(_))));
    assert!(matches!(l.locate(".x", 10), Err(InspectError::InvalidSectionBounds(_))));
    assert!(matches!(l.locate(".x", u32::MAX as usize), Err(InspectError::InvalidSectionBounds(_))));
}

#[test]
fn read_section_gives_the_exact_range() {
    let img = image(300);
    let d = SectionDescriptor::new(".linux".to_string(), 10, 20, 300).expect("fits");
    assert_eq!(read_section(&img, &d).expect("read"), &img[10..30]);

    let whole = SectionDescriptor::new(".w".to_string(), 0, 300, 300).expect("fits");
    assert_eq!(read_section(&img, &whole).expect("read"), &img[..]);

    let empty = SectionDescriptor::new(".e".to_string(), 300, 0, 300).expect("fits");
    assert_eq!(read_section(&img, &empty).expect("read"), &[] as &[u8]);
}

#[test]
fn read_section_checks_the_image_in_hand() {
    // A descriptor made for a longer file does not fit a shorter one.
    let d = SectionDescriptor::new(".initrd".to_string(), 200, 100, 4096).expect("fits");
    let short = image(299);
    match read_section(&short, &d) {
        Err(InspectError::InvalidSectionBounds(name)) => assert_eq!(name, ".initrd"),
        other => panic!("expected InvalidSectionBounds, got {:?}", other),
    }
    let enough = image(300);
    assert_eq!(read_section(&enough, &d).expect("read").len(), 100);
}

#[test]
fn section_bytes_is_none_only_when_missing() {
    let img = image(256);
    let l = layout(vec![
        entry(Some(".linux"), 16, 16),
        entry(Some(".initrd"), 250, 7),
        entry(Some(".tail"), 250, 6),
    ]);
    assert_eq!(l.section_bytes(&img, ".linux").expect("fits"), Some(&img[16..32]));
    assert_eq!(l.section_bytes(&img, ".tail").expect("fits exactly"), Some(&img[250..256]));
    assert_eq!(l.section_bytes(&img, ".cmdline").expect("absent is no failure"), None);
    match l.section_bytes(&img, ".initrd") {
        Err(InspectError::InvalidSectionBounds(name)) => assert_eq!(name, ".initrd"),
        other => panic!("expected InvalidSectionBounds, got {:?}", other),
    }
}

#[test]
fn an_out_of_bounds_first_row_is_not_skipped() {
    // The first row of the name decides, also when a later row would fit.
    let img = image(64);
    let l = layout(vec![entry(Some(".cmdline"), 60, 8), entry(Some(".cmdline"), 0, 8)]);
    assert!(matches!(l.section_bytes(&img, ".cmdline"), Err(InspectError::InvalidSectionBounds(_))));
    assert!(matches!(l.read_text(&img, ".cmdline"), Err(InspectError::InvalidSectionBounds(_))));
    assert!(matches!(l.section_info(".cmdline", 64), Err(InspectError::InvalidSectionBounds(_))));
}

#[test]
fn read_text_cuts_decodes_and_trims() {
    let mut img = vec![0u8; 64];
    img[8..24].copy_from_slice(b"  quiet splash \0");
    img[32..36].copy_from_slice(b"a\xffb\0");
    let l = layout(vec![
        entry(Some(".cmdline"), 8, 24),
        entry(Some(".bad"), 32, 8),
        entry(Some(".blank"), 40, 8),
        entry(Some(".far"), 60, 8),
    ]);
    assert_eq!(l.read_text(&img, ".cmdline").expect("fits").as_deref(), Some("quiet splash"));
    assert_eq!(l.read_text(&img, ".bad").expect("fits").as_deref(), Some("a\u{fffd}b"));
    assert_eq!(l.read_text(&img, ".blank").expect("fits").as_deref(), Some(""));
    assert_eq!(l.read_text(&img, ".osrel").expect("absent is no failure"), None);
    match l.read_text(&img, ".far") {
        Err(InspectError::InvalidSectionBounds(name)) => assert_eq!(name, ".far"),
        other => panic!("expected InvalidSectionBounds, got {:?}", other),
    }
}

#[test]
fn certificates_are_counted_and_listed_in_order() {
    let none = layout(vec![]);
    assert!(!none.is_signed());
    assert_eq!(none.cert_count(), 0);
    assert!(none.certificate_metadata().is_empty());
    assert!(none.certificate_blobs().is_empty());

    let signed = PeLayout {
        machine: MACHINE_X86_64,
        is_64: true,
        sections: vec![],
        certificates: vec![
            CertificateRecord { length: 11, revision: 0x0200, type_code: 0x0002, blob: vec![1, 2, 3] },
            CertificateRecord { length: 8, revision: 0x0100, type_code: 0x0001, blob: vec![] },
        ],
    };
    assert!(signed.is_signed());
    assert_eq!(signed.cert_count(), 2);
    assert_eq!(signed.certificate_metadata(), vec![(11, 0x0200, 0x0002), (8, 0x0100, 0x0001)]);
    assert_eq!(signed.certificate_blobs(), vec![vec![1u8, 2, 3], vec![]]);
}
