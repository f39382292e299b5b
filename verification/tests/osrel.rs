use lowell_core::error::InspectError;
use lowell_core::formats::osrel::{
    is_parse_defined, read_os_release_from_str, value_of, OsRelease,
};
use lowell_core::formats::text::chars_of;

fn defined(text: &str) -> bool {
    is_parse_defined(&chars_of(text))
}

fn pair(key: &str, value: &str) -> (String, String) {
    (key.to_string(), value.to_string())
}

#[test]
fn osrelease_parses_fedora41_and_prefers_pretty_name() {
    // Realistic snippet (trimmed)
    let fedora = r#"NAME="Fedora Linux"
VERSION="41 (Forty One)"
ID=fedora
VERSION_ID=41
PRETTY_NAME="Fedora Linux 41 (Forty One)"
"#;

    let os = read_os_release_from_str(fedora)
        .expect("parse ok")
        .expect("Some(os-release)");

    // PRETTY_NAME takes priority for human display
    assert_eq!(os.name.as_deref(), Some("Fedora Linux 41 (Forty One)"));
    // Stable fields used for tooling/logic
    assert_eq!(os.id.as_deref(), Some("fedora"));
    assert_eq!(os.version_id.as_deref(), Some("41"));
}

#[test]
fn osrelease_falls_back_to_name_when_pretty_missing() {
    let minimal = r#"NAME="MyOS"
ID=myos
VERSION_ID="1.2.3"
"#;
    let os = read_os_release_from_str(minimal)
        .expect("parse ok")
        .expect("Some(os-release)");

    // PRETTY_NAME absent → fall back to NAME
    assert_eq!(os.name.as_deref(), Some("MyOS"));
    assert_eq!(os.id.as_deref(), Some("myos"));
    assert_eq!(os.version_id.as_deref(), Some("1.2.3"));
}

#[test]
fn osrelease_without_known_keys_is_all_none() {
    let os = read_os_release_from_str("FOO=bar\n").expect("parse ok").expect("some");
    assert_eq!(os.name, None);
    assert_eq!(os.id, None);
    assert_eq!(os.version_id, None);

    let empty = read_os_release_from_str("").expect("parse ok").expect("some");
    assert_eq!(empty.name, None);
    assert_eq!(empty.id, None);
    assert_eq!(empty.version_id, None);
}

#[test]
fn osrelease_skips_comments_and_blank_lines() {
    let text = "# a comment = with an equals sign\n\n   \n  # indented r\u{e9}sum\u{e9} = x\nID=arch\r\n";
    let os = read_os_release_from_str(text).expect("parse ok").expect("some");
    assert_eq!(os.id.as_deref(), Some("arch"));
    assert_eq!(os.name, None);
}

#[test]
fn osrelease_values_may_hold_any_text() {
    let text = "PRETTY_NAME=\"Caf\u{e9} Linux \u{2014} r\u{e9}sum\u{e9}\"\nID='caf\u{e9}'\nVERSION_ID=  7 \n";
    let os = read_os_release_from_str(text).expect("parse ok").expect("some");
    assert_eq!(os.name.as_deref(), Some("Caf\u{e9} Linux \u{2014} r\u{e9}sum\u{e9}"));
    assert_eq!(os.id.as_deref(), Some("caf\u{e9}"));
    assert_eq!(os.version_id.as_deref(), Some("7"));
}

#[test]
fn osrelease_line_without_equals_is_malformed() {
    let read = read_os_release_from_str("ID=fedora\nthis line has no equals sign\n");
    assert!(matches!(read, Err(InspectError::MalformedOsRelease)));
}

#[test]
fn osrelease_lone_quote_is_malformed() {
    for text in ["NAME=\"", "NAME='", "ID=x\nNAME =  \" \t\n", "A=\u{a0}'\u{3000}"] {
        assert!(!defined(text));
        let read = read_os_release_from_str(text);
        assert!(matches!(read, Err(InspectError::MalformedOsRelease)));
    }
}

#[test]
fn osrelease_key_outside_ascii_is_malformed() {
    for text in ["\u{e9}=1", "ID=x\nN\u{c4}ME=y\n", "k\u{fffd}y = v"] {
        assert!(!defined(text));
        let read = read_os_release_from_str(text);
        assert!(matches!(read, Err(InspectError::MalformedOsRelease)));
    }
}

#[test]
fn parse_is_defined_on_ordinary_text() {
    assert!(defined(""));
    assert!(defined("\n\n\n"));
    assert!(defined("ID=fedora"));
    assert!(defined("ID=fedora\n"));
    assert!(defined("NAME=\"\"\n"));
    assert!(defined("NAME=''\n"));
    assert!(defined("NAME=\"'\n"));
    assert!(defined("NAME=\"x\n"));
    assert!(defined("NAME=\n"));
    assert!(defined("no equals sign here, r\u{e9}sum\u{e9}\n"));
    assert!(defined("# \u{e9} = \"\n"));
    assert!(defined("\u{a0}\u{3000} ID = \u{e9}\n"));
    assert!(defined("ID==\"\n"));
    assert!(!defined("ID= \"\nNAME=ok"));
    assert!(!defined("NAME=ok\nID= '"));
    assert!(!defined("NAME=ok\n\nID\u{e9}=1\n# tail"));
}

fn texts_over(alphabet: &[char], len: usize, prefix: &mut String, out: &mut Vec<String>) {
    out.push(prefix.clone());
    if len == 0 {
        return;
    }
    for &c in alphabet {
        prefix.push(c);
        texts_over(alphabet, len - 1, prefix, out);
        prefix.pop();
    }
}

#[test]
fn every_short_text_is_read_or_refused() {
    // Every text of up to five characters over an alphabet that holds all the
    // characters the reading turns on. None may bring the parser down.
    let alphabet = [' ', '=', '"', '\'', 'a', '\u{e9}', '#', '\n', '\r', '\u{a0}'];
    let mut texts = Vec::new();
    texts_over(&alphabet, 5, &mut String::new(), &mut texts);
    let mut read_ok = 0usize;
    let mut refused = 0usize;
    for text in &texts {
        let read = read_os_release_from_str(text);
        match read {
            Ok(Some(_)) => {
                assert!(defined(text));
                read_ok += 1;
            }
            Ok(None) => panic!("text {:?} read as nothing", text),
            Err(InspectError::MalformedOsRelease) => refused += 1,
            Err(other) => panic!("text {:?} gave {:?}", text, other),
        }
        if !defined(text) {
            assert!(matches!(read_os_release_from_str(text), Err(InspectError::MalformedOsRelease)));
        }
    }
    assert!(read_ok > 0);
    assert!(refused > 0);
    assert_eq!(read_ok + refused, texts.len());
}

#[test]
fn chars_of_lists_characters_not_bytes() {
    assert_eq!(chars_of(""), Vec::<char>::new());
    assert_eq!(chars_of("a=\u{e9}\n"), vec!['a', '=', '\u{e9}', '\n']);
    assert_eq!(chars_of("\u{1f600}").len(), 1);
}

#[test]
fn value_of_takes_the_first_pair() {
    let pairs = vec![pair("ID", "first"), pair("NAME", "n"), pair("ID", "second")];
    assert_eq!(value_of(&pairs, "ID").as_deref(), Some("first"));
    assert_eq!(value_of(&pairs, "NAME").as_deref(), Some("n"));
    assert_eq!(value_of(&pairs, "VERSION_ID"), None);
    assert_eq!(value_of(&pairs, "id"), None);
    assert_eq!(value_of(&[], "ID"), None);
}

#[test]
fn from_pairs_prefers_pretty_name() {
    let both = vec![
        pair("NAME", "Fedora Linux"),
        pair("PRETTY_NAME", "Fedora Linux 41 (Forty One)"),
        pair("ID", "fedora"),
        pair("VERSION_ID", "41"),
    ];
    let os = OsRelease::from_pairs(&both);
    assert_eq!(os.name.as_deref(), Some("Fedora Linux 41 (Forty One)"));
    assert_eq!(os.id.as_deref(), Some("fedora"));
    assert_eq!(os.version_id.as_deref(), Some("41"));

    let plain = vec![pair("NAME", "MyOS"), pair("ID", "myos"), pair("VERSION_ID", "1.2.3")];
    let os = OsRelease::from_pairs(&plain);
    assert_eq!(os.name.as_deref(), Some("MyOS"));

    let pretty_only = vec![pair("PRETTY_NAME", "")];
    let os = OsRelease::from_pairs(&pretty_only);
    assert_eq!(os.name.as_deref(), Some(""));
    assert_eq!(os.id, None);

    let none = OsRelease::from_pairs(&[]);
    assert_eq!(none.name, None);
    assert_eq!(none.id, None);
    assert_eq!(none.version_id, None);
}
