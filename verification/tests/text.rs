use lowell_core::formats::text::{
    char_is_whitespace, cut_at_nul, decode_section_text, trim_end_at, trim_start_at, trim_text,
};

#[test]
fn whitespace_is_what_std_calls_whitespace() {
    let mut count = 0;
    for code in 0..=0x10FFFFu32 {
        if let Some(c) = char::from_u32(code) {
            assert_eq!(char_is_whitespace(c), c.is_whitespace());
            if c.is_whitespace() {
                count += 1;
            }
        }
    }
    assert_eq!(count, 25);
}

#[test]
fn cut_at_nul_stops_at_the_first_nul() {
    assert_eq!(cut_at_nul(b""), b"");
    assert_eq!(cut_at_nul(b"abc"), b"abc");
    assert_eq!(cut_at_nul(b"abc\0"), b"abc");
    assert_eq!(cut_at_nul(b"abc\0def\0"), b"abc");
    assert_eq!(cut_at_nul(b"\0abc"), b"");
    assert_eq!(cut_at_nul(b"\0\0\0"), b"");
}

#[test]
fn trim_text_agrees_with_std() {
    let samples = [
        "",
        " ",
        "\n\t \r",
        "a",
        " a",
        "a ",
        "  a b  ",
        "\u{a0}x\u{3000}",
        "\u{2003}\u{2028} console=ttyS0 quiet \u{85}\n",
        "\u{200b}zero width space is not whitespace\u{200b}",
        "\u{feff}bom",
    ];
    for sample in samples {
        assert_eq!(trim_text(sample), sample.trim());
    }
    assert_eq!(trim_text("  a b  "), "a b");
    assert_eq!(trim_text("\n\t \r"), "");
}

#[test]
fn trim_bounds_on_characters() {
    let chars: Vec<char> = "  ab c \t".chars().collect();
    assert_eq!(trim_start_at(&chars, 0, chars.len()), 2);
    assert_eq!(trim_end_at(&chars, 0, chars.len()), 6);
    assert_eq!(trim_start_at(&chars, 4, chars.len()), 5);
    assert_eq!(trim_end_at(&chars, 0, 5), 4);
    // All whitespace: the start runs to the end, the end runs to the start.
    assert_eq!(trim_start_at(&chars, 6, chars.len()), chars.len());
    assert_eq!(trim_end_at(&chars, 6, chars.len()), 6);
    assert_eq!(trim_start_at(&chars, 3, 3), 3);
    assert_eq!(trim_end_at(&chars, 3, 3), 3);
}

#[test]
fn section_text_is_cut_decoded_and_trimmed() {
    assert_eq!(decode_section_text(b""), "");
    assert_eq!(decode_section_text(b"\0\0\0\0"), "");
    assert_eq!(decode_section_text(b"  console=ttyS0 quiet \n\0\0\0\0"), "console=ttyS0 quiet");
    assert_eq!(decode_section_text(b"root=/dev/sda\0garbage after"), "root=/dev/sda");
    assert_eq!(decode_section_text("caf\u{e9} \u{3000}".as_bytes()), "caf\u{e9}");
}

#[test]
fn invalid_utf8_is_replaced_not_refused() {
    assert_eq!(decode_section_text(b"a\xffb"), "a\u{fffd}b");
    assert_eq!(decode_section_text(b"\xc3"), "\u{fffd}");
    assert_eq!(decode_section_text(b" \xf0\x9f rest \0"), "\u{fffd} rest");
    // The decoding is lossy, so it cannot be the bytes handed back.
    assert_ne!(decode_section_text(b"a\xffb").as_bytes(), b"a\xffb");
}
