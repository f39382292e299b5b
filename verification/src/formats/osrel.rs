//! OS-release metadata: `KEY=VALUE` text, as found in a `.osrel` section.
//!
//! The text is tokenised by the `rs_release` crate. That parser slices lines
//! by character counts and strips quotes without looking at the length, so
//! there are texts it cannot digest. `parse_is_defined` says which texts are
//! safe to hand over, `is_parse_defined` decides it, and everything else is
//! reported as `MalformedOsRelease` without the parser ever seeing it.

use crate::error::{InspectError, InspectFailure};
use crate::formats::pe::{layout_of, named_text, Layout, PeFile, PeLayout};
use crate::formats::text::{
    chars_of, first_non_ws, is_whitespace, lemma_first_non_ws, trim_end_at, trim_start_at,
    trimmed,
};
use vstd::prelude::*;

verus! {

/// The fields of an os-release text that a report carries.
#[derive(Debug)]
pub struct OsRelease {
    /// `PRETTY_NAME` if the text has it, else `NAME`.
    pub name: Option<String>,
    /// `ID`.
    pub id: Option<String>,
    /// `VERSION_ID`.
    pub version_id: Option<String>,
}

/// An `OsRelease` as plain values.
pub struct OsReleaseInfo {
    pub name: Option<Seq<char>>,
    pub id: Option<Seq<char>>,
    pub version_id: Option<Seq<char>>,
}

pub open spec fn text_of(field: Option<String>) -> Option<Seq<char>> {
    match field {
        Some(value) => Some(value@),
        None => None,
    }
}

impl View for OsRelease {
    type V = OsReleaseInfo;

    open spec fn view(&self) -> OsReleaseInfo {
        OsReleaseInfo {
            name: text_of(self.name),
            id: text_of(self.id),
            version_id: text_of(self.version_id),
        }
    }
}

pub open spec fn is_quote(c: char) -> bool {
    c == '"' || c == '\''
}

pub open spec fn is_ascii(c: char) -> bool {
    (c as u32) < 0x80
}

/// Index of the first `=`; the length if there is none.
pub open spec fn first_eq(line: Seq<char>) -> int
    decreases line.len(),
{
    if line.len() == 0 || line[0] == '=' {
        0
    } else {
        1 + first_eq(line.drop_first())
    }
}

/// The value is, once trimmed, a single quote character and nothing else.
pub open spec fn is_lone_quote(value: Seq<char>) -> bool {
    trimmed(value).len() == 1 && is_quote(trimmed(value)[0])
}

/// A line the parser can digest. It is blank, or a comment, or has no `=`
/// (which the parser rejects in good order), or else everything between its
/// first non-blank character and its first `=` is ASCII and what follows the
/// `=` is not a lone quote.
pub open spec fn line_is_readable(line: Seq<char>) -> bool {
    let key = first_non_ws(line);
    let eq = first_eq(line);
    ||| key == line.len()
    ||| line[key] == '#'
    ||| eq == line.len()
    ||| ((forall|i: int| key <= i < eq ==> is_ascii(#[trigger] line[i])) && !is_lone_quote(
        line.skip(eq + 1),
    ))
}

/// `[start, end)` is a line of `text`: a longest stretch without a newline.
pub open spec fn is_line(text: Seq<char>, start: int, end: int) -> bool {
    &&& 0 <= start <= end <= text.len()
    &&& start == 0 || text[start - 1] == '\n'
    &&& end == text.len() || text[end] == '\n'
    &&& forall|k: int| start <= k < end ==> #[trigger] text[k] != '\n'
}

/// Every line of `text` is one the parser can digest.
pub open spec fn parse_is_defined(text: Seq<char>) -> bool {
    forall|start: int, end: int| #[trigger]
        is_line(text, start, end) ==> line_is_readable(text.subrange(start, end))
}

#[verifier::external_type_specification]
#[verifier::external_body]
pub struct ExOsReleaseError(rs_release::OsReleaseError);

/// The key-to-value mapping that `rs_release` reads from `text`; `None`
/// where it rejects the text.
pub uninterp spec fn os_release_fields(text: Seq<char>) -> Option<Map<Seq<char>, Seq<char>>>;

/// `pairs` holds what `fields` maps, and nothing else.
pub open spec fn lists(pairs: Seq<(String, String)>, fields: Map<Seq<char>, Seq<char>>) -> bool {
    &&& forall|i: int|
        0 <= i < pairs.len() ==> fields.contains_key((#[trigger] pairs[i]).0@)
            && fields[pairs[i].0@] == pairs[i].1@
    &&& forall|key: Seq<char>|
        fields.contains_key(key) ==> exists|i: int|
            0 <= i < pairs.len() && (#[trigger] pairs[i]).0@ == key
}

/// Calls `rs_release::parse_os_release_str` and lists the entries of the map
/// it returns, in no particular order.
///
/// Trusted: on a text that meets `parse_is_defined` the call returns, and
/// its outcome (the mapping, or the refusal) is a function of the text
/// alone. Nothing is claimed about what the mapping holds.
///
/// The precondition is there because the crate panics on two kinds of line.
/// It cuts a trimmed line at the character index of its first `=` as though
/// that were a byte index, which goes wrong once a character before the `=`
/// takes more than one byte; and it strips the quotes of a trimmed value
/// that begins and ends with the same quote by slicing `1..len - 1`, which
/// is `1..0` when the value is that one quote.
#[verifier::external_body]
fn parse_fields(text: &str) -> (parsed: Result<Vec<(String, String)>, rs_release::OsReleaseError>)
    requires
        parse_is_defined(text@),
    ensures
        parsed matches Ok(pairs) ==> os_release_fields(text@) matches Some(fields) && lists(
            pairs@,
            fields,
        ),
        parsed is Err ==> os_release_fields(text@) is None,
{
    let fields = rs_release::parse_os_release_str(text)?;
    Ok(fields.into_iter().map(|(key, value)| (key.into_owned(), value)).collect())
}

pub proof fn lemma_first_eq(line: Seq<char>)
    ensures
        0 <= first_eq(line) <= line.len(),
        forall|i: int| 0 <= i < first_eq(line) ==> #[trigger] line[i] != '=',
        first_eq(line) < line.len() ==> line[first_eq(line)] == '=',
    decreases line.len(),
{
    if line.len() == 0 || line[0] == '=' {
    } else {
        let rest = line.drop_first();
        lemma_first_eq(rest);
        assert forall|i: int| 0 <= i < first_eq(line) implies #[trigger] line[i] != '=' by {
            if i > 0 {
                assert(line[i] == rest[i - 1]);
            }
        }
        if first_eq(line) < line.len() {
            assert(line[first_eq(line)] == rest[first_eq(rest)]);
        }
    }
}

/// `first_eq` is the one index with no `=` before it that holds one or is
/// the end.
pub proof fn lemma_first_eq_is(line: Seq<char>, n: int)
    requires
        0 <= n <= line.len(),
        forall|i: int| 0 <= i < n ==> #[trigger] line[i] != '=',
        n < line.len() ==> line[n] == '=',
    ensures
        first_eq(line) == n,
{
    lemma_first_eq(line);
    let m = first_eq(line);
    if m < n {
        assert(line[m] != '=');
    } else if n < m {
        assert(line[n] != '=');
    }
}

/// Two lines of one text that touch or overlap are the same line.
pub proof fn lemma_lines_apart(text: Seq<char>, a: int, b: int, s: int, e: int)
    requires
        is_line(text, a, b),
        is_line(text, s, e),
        s <= b,
        a <= e,
    ensures
        s == a && e == b,
{
    if s < a {
        assert(text[a - 1] == '\n');
    }
    if a < s {
        assert(text[s - 1] == '\n');
    }
    if e < b {
        assert(text[e] == '\n');
    }
    if b < e {
        assert(text[b] == '\n');
    }
}

fn char_is_ascii(c: char) -> (ascii: bool)
    ensures
        ascii == is_ascii(c),
{
    (c as u32) < 0x80
}

/// Whether the parser can digest the line `chars[start..end]`.
fn is_line_readable(chars: &[char], start: usize, end: usize) -> (ok: bool)
    requires
        start <= end <= chars@.len(),
    ensures
        ok == line_is_readable(chars@.subrange(start as int, end as int)),
{
    let ghost line = chars@.subrange(start as int, end as int);
    let key = trim_start_at(chars, start, end);
    if key == end {
        return true;
    }
    assert(line[key - start] == chars@[key as int]);
    if chars[key] == '#' {
        return true;
    }
    let mut eq = key;
    let mut ascii = true;
    while eq < end && chars[eq] != '='
        invariant
            key <= eq <= end <= chars@.len(),
            forall|k: int| key <= k < eq ==> #[trigger] chars@[k] != '=',
            ascii == (forall|k: int| key <= k < eq ==> is_ascii(#[trigger] chars@[k])),
        decreases end - eq,
    {
        if !char_is_ascii(chars[eq]) {
            ascii = false;
        }
        eq += 1;
    }
    proof {
        lemma_first_non_ws(line);
        assert forall|i: int| 0 <= i < eq - start implies #[trigger] line[i] != '=' by {
            if i < key - start {
                assert(is_whitespace(line[i]));
            } else {
                assert(line[i] == chars@[start + i]);
            }
        }
        if eq < end {
            assert(line[eq - start] == chars@[eq as int]);
        }
        lemma_first_eq_is(line, eq - start);
    }
    if eq == end {
        return true;
    }
    if !ascii {
        proof {
            let k = choose|k: int| key <= k < eq && !is_ascii(#[trigger] chars@[k]);
            assert(line[k - start] == chars@[k]);
        }
        return false;
    }
    let from = trim_start_at(chars, eq + 1, end);
    let to = trim_end_at(chars, eq + 1, end);
    let lone = from < to && to - from == 1 && (chars[from] == '"' || chars[from] == '\'');
    proof {
        let value = line.skip(eq + 1 - start);
        assert(value =~= chars@.subrange(eq + 1, end as int));
        assert forall|i: int| key - start <= i < eq - start implies is_ascii(
            #[trigger] line[i],
        ) by {
            assert(line[i] == chars@[start + i]);
        }
        if from < to {
            assert(trimmed(value)[0] == value[from - (eq + 1)]);
            assert(value[from - (eq + 1)] == chars@[from as int]);
        }
    }
    !lone
}

/// Whether every line of `chars` is one the parser can digest.
pub fn is_parse_defined(chars: &[char]) -> (ok: bool)
    ensures
        ok == parse_is_defined(chars@),
{
    let n = chars.len();
    let mut start: usize = 0;
    loop
        invariant
            n == chars@.len(),
            start <= n,
            start == 0 || chars@[start - 1] == '\n',
            forall|s: int, e: int| #[trigger]
                is_line(chars@, s, e) && e < start ==> line_is_readable(chars@.subrange(s, e)),
        decreases n - start,
    {
        let mut end = start;
        while end < n && chars[end] != '\n'
            invariant
                n == chars@.len(),
                start <= end <= n,
                forall|k: int| start <= k < end ==> #[trigger] chars@[k] != '\n',
            decreases n - end,
        {
            end += 1;
        }
        assert(is_line(chars@, start as int, end as int));
        if !is_line_readable(chars, start, end) {
            return false;
        }
        proof {
            assert forall|s: int, e: int| #[trigger]
                is_line(chars@, s, e) && e <= end implies line_is_readable(
                chars@.subrange(s, e),
            ) by {
                if e >= start {
                    lemma_lines_apart(chars@, start as int, end as int, s, e);
                }
            }
        }
        if end == n {
            return true;
        }
        start = end + 1;
    }
}

/// Index of the first pair whose key is `key`; the number of pairs if there
/// is none.
pub open spec fn key_position(pairs: Seq<(String, String)>, key: Seq<char>) -> int
    decreases pairs.len(),
{
    if pairs.len() == 0 || pairs[0].0@ == key {
        0
    } else {
        1 + key_position(pairs.drop_first(), key)
    }
}

/// The value that `pairs` gives for `key`: that of the first pair with this
/// key.
pub open spec fn pair_value(pairs: Seq<(String, String)>, key: Seq<char>) -> Option<Seq<char>> {
    if key_position(pairs, key) < pairs.len() {
        Some(pairs[key_position(pairs, key)].1@)
    } else {
        None
    }
}

/// The value that `fields` gives for `key`.
pub open spec fn field(fields: Map<Seq<char>, Seq<char>>, key: Seq<char>) -> Option<Seq<char>> {
    if fields.contains_key(key) {
        Some(fields[key])
    } else {
        None
    }
}

/// The report's view of a key-to-value mapping. `name` prefers `PRETTY_NAME`
/// and falls back to `NAME`.
pub open spec fn info_from(fields: Map<Seq<char>, Seq<char>>) -> OsReleaseInfo {
    OsReleaseInfo {
        name: if fields.contains_key("PRETTY_NAME"@) {
            Some(fields["PRETTY_NAME"@])
        } else {
            field(fields, "NAME"@)
        },
        id: field(fields, "ID"@),
        version_id: field(fields, "VERSION_ID"@),
    }
}

/// The same, read off a list of pairs.
pub open spec fn info_from_pairs(pairs: Seq<(String, String)>) -> OsReleaseInfo {
    OsReleaseInfo {
        name: if pair_value(pairs, "PRETTY_NAME"@) is Some {
            pair_value(pairs, "PRETTY_NAME"@)
        } else {
            pair_value(pairs, "NAME"@)
        },
        id: pair_value(pairs, "ID"@),
        version_id: pair_value(pairs, "VERSION_ID"@),
    }
}

/// What reading `text` as os-release gives: `None` where the text is
/// malformed, be it that the parser cannot digest it or that it rejects it.
pub open spec fn os_release_of(text: Seq<char>) -> Option<OsReleaseInfo> {
    if !parse_is_defined(text) {
        None
    } else {
        match os_release_fields(text) {
            Some(fields) => Some(info_from(fields)),
            None => None,
        }
    }
}

/// What the `.osrel` section of an image gives. An image without an
/// `.osrel` section has no os-release info, which is not an error; one whose
/// `.osrel` does not lie inside the file is corrupt, which is.
pub open spec fn section_os_release(layout: Layout, image: Seq<u8>) -> Result<
    Option<OsReleaseInfo>,
    InspectFailure,
> {
    match named_text(layout, image, ".osrel"@) {
        Err(failure) => Err(failure),
        Ok(None) => Ok(None),
        Ok(Some(text)) => match os_release_of(text) {
            Some(info) => Ok(Some(info)),
            None => Err(InspectFailure::MalformedOsRelease),
        },
    }
}

pub proof fn lemma_key_position(pairs: Seq<(String, String)>, key: Seq<char>)
    ensures
        0 <= key_position(pairs, key) <= pairs.len(),
        forall|i: int| 0 <= i < key_position(pairs, key) ==> (#[trigger] pairs[i]).0@ != key,
        key_position(pairs, key) < pairs.len() ==> pairs[key_position(pairs, key)].0@ == key,
    decreases pairs.len(),
{
    if pairs.len() == 0 || pairs[0].0@ == key {
    } else {
        let rest = pairs.drop_first();
        lemma_key_position(rest, key);
        assert forall|i: int| 0 <= i < key_position(pairs, key) implies (
        #[trigger] pairs[i]).0@ != key by {
            if i > 0 {
                assert(pairs[i] == rest[i - 1]);
            }
        }
        if key_position(pairs, key) < pairs.len() {
            assert(pairs[key_position(pairs, key)] == rest[key_position(rest, key)]);
        }
    }
}

/// `key_position` is the one index with no such key before it that holds
/// the key or is the end.
pub proof fn lemma_key_position_is(pairs: Seq<(String, String)>, key: Seq<char>, n: int)
    requires
        0 <= n <= pairs.len(),
        forall|i: int| 0 <= i < n ==> (#[trigger] pairs[i]).0@ != key,
        n < pairs.len() ==> pairs[n].0@ == key,
    ensures
        key_position(pairs, key) == n,
{
    lemma_key_position(pairs, key);
    let m = key_position(pairs, key);
    if m < n {
        assert(pairs[m].0@ != key);
    } else if n < m {
        assert(pairs[n].0@ != key);
    }
}

/// A list of a mapping's entries gives for every key what the mapping gives.
pub proof fn lemma_pairs_agree(
    pairs: Seq<(String, String)>,
    fields: Map<Seq<char>, Seq<char>>,
    key: Seq<char>,
)
    requires
        lists(pairs, fields),
    ensures
        pair_value(pairs, key) == field(fields, key),
{
    lemma_key_position(pairs, key);
    let n = key_position(pairs, key);
    if n < pairs.len() {
        assert(fields.contains_key(pairs[n].0@));
    } else if fields.contains_key(key) {
        let i = choose|i: int| 0 <= i < pairs.len() && (#[trigger] pairs[i]).0@ == key;
        assert(pairs[i].0@ != key);
    }
}

/// Hence the report's view is the same either way.
pub proof fn lemma_info_agrees(pairs: Seq<(String, String)>, fields: Map<Seq<char>, Seq<char>>)
    requires
        lists(pairs, fields),
    ensures
        info_from_pairs(pairs) == info_from(fields),
{
    lemma_pairs_agree(pairs, fields, "PRETTY_NAME"@);
    lemma_pairs_agree(pairs, fields, "NAME"@);
    lemma_pairs_agree(pairs, fields, "ID"@);
    lemma_pairs_agree(pairs, fields, "VERSION_ID"@);
}

/// The value of the first pair whose key is `key`.
pub fn value_of(pairs: &[(String, String)], key: &str) -> (value: Option<String>)
    ensures
        text_of(value) == pair_value(pairs@, key@),
{
    let wanted = key.to_owned();
    let mut i: usize = 0;
    while i < pairs.len()
        invariant
            i <= pairs@.len(),
            wanted@ == key@,
            forall|k: int| 0 <= k < i ==> (#[trigger] pairs@[k]).0@ != key@,
        decreases pairs@.len() - i,
    {
        if pairs[i].0 == wanted {
            proof {
                lemma_key_position_is(pairs@, key@, i as int);
            }
            return Some(pairs[i].1.clone());
        }
        i += 1;
    }
    proof {
        lemma_key_position_is(pairs@, key@, i as int);
    }
    None
}

impl OsRelease {
    /// Picks the reported fields out of a list of `(key, value)` pairs.
    /// `name` is the value of `PRETTY_NAME`, or that of `NAME` where there is
    /// no `PRETTY_NAME`.
    pub fn from_pairs(pairs: &[(String, String)]) -> (info: OsRelease)
        ensures
            info@ == info_from_pairs(pairs@),
    {
        let name = match value_of(pairs, "PRETTY_NAME") {
            Some(pretty) => Some(pretty),
            None => value_of(pairs, "NAME"),
        };
        OsRelease { name, id: value_of(pairs, "ID"), version_id: value_of(pairs, "VERSION_ID") }
    }
}

/// Reads os-release text. Fails with `MalformedOsRelease` where the text is
/// not `KEY=VALUE` lines that the parser can digest and accepts.
pub fn read_os_release_from_str(text: &str) -> (read: Result<Option<OsRelease>, InspectError>)
    ensures
        match os_release_of(text@) {
            Some(info) => read matches Ok(Some(found)) && found@ == info,
            None => read matches Err(e) && e == InspectError::MalformedOsRelease,
        },
{
    let chars = chars_of(text);
    if !is_parse_defined(chars.as_slice()) {
        return Err(InspectError::MalformedOsRelease);
    }
    match parse_fields(text) {
        Ok(pairs) => {
            proof {
                lemma_info_agrees(pairs@, os_release_fields(text@)->0);
            }
            Ok(Some(OsRelease::from_pairs(pairs.as_slice())))
        },
        Err(_) => Err(InspectError::MalformedOsRelease),
    }
}

impl PeLayout {
    /// The os-release info in the `.osrel` section of `image`; `None` where
    /// the image has no `.osrel` section. Fails with `InvalidSectionBounds`
    /// where the section does not lie inside `image`, and with
    /// `MalformedOsRelease` where its text is malformed.
    pub fn os_release(&self, image: &[u8]) -> (read: Result<Option<OsRelease>, InspectError>)
        ensures
            match section_os_release(self@, image@) {
                Ok(Some(info)) => read matches Ok(Some(found)) && found@ == info,
                Ok(None) => read matches Ok(None),
                Err(failure) => read matches Err(e) && e@ == failure,
            },
    {
        match self.read_text(image, ".osrel")? {
            None => Ok(None),
            Some(text) => read_os_release_from_str(text.as_str()),
        }
    }
}

/// The os-release info in the `.osrel` section of `file`. Fails with
/// `MalformedImage` where the file is not a PE/COFF image, and as
/// `PeLayout::os_release` does.
pub fn read_os_release(file: &PeFile) -> (read: Result<Option<OsRelease>, InspectError>)
    ensures
        match layout_of(file@) {
            None => read matches Err(e) && e == InspectError::MalformedImage,
            Some(layout) => match section_os_release(layout, file@) {
                Ok(Some(info)) => read matches Ok(Some(found)) && found@ == info,
                Ok(None) => read matches Ok(None),
                Err(failure) => read matches Err(e) && e@ == failure,
            },
        },
{
    let layout = file.layout()?;
    layout.os_release(file.image())
}

} // verus!
