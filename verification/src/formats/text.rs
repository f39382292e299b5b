//! Text held in NUL-padded sections: cut at the first NUL, decode leniently,
//! trim.

use vstd::prelude::*;
use vstd::string::StrSliceExecFns;
use vstd::utf8::{decode_utf8, valid_utf8};

verus! {

/// The code points with the Unicode `White_Space` property, which is what
/// `char::is_whitespace` and `str::trim` go by.
pub open spec fn is_whitespace(c: char) -> bool {
    let u = c as u32;
    ||| 0x09 <= u <= 0x0D
    ||| u == 0x20
    ||| u == 0x85
    ||| u == 0xA0
    ||| u == 0x1680
    ||| 0x2000 <= u <= 0x200A
    ||| u == 0x2028
    ||| u == 0x2029
    ||| u == 0x202F
    ||| u == 0x205F
    ||| u == 0x3000
}

/// Index of the first character that is not whitespace; the length if there
/// is none.
pub open spec fn first_non_ws(s: Seq<char>) -> int
    decreases s.len(),
{
    if s.len() == 0 || !is_whitespace(s[0]) {
        0
    } else {
        1 + first_non_ws(s.drop_first())
    }
}

/// One past the last character that is not whitespace; 0 if there is none.
pub open spec fn end_non_ws(s: Seq<char>) -> int
    decreases s.len(),
{
    if s.len() == 0 || !is_whitespace(s.last()) {
        s.len() as int
    } else {
        end_non_ws(s.drop_last())
    }
}

/// `s` without its leading and trailing whitespace.
pub open spec fn trimmed(s: Seq<char>) -> Seq<char> {
    if first_non_ws(s) < end_non_ws(s) {
        s.subrange(first_non_ws(s), end_non_ws(s))
    } else {
        Seq::empty()
    }
}

/// Neither the first nor the last character is whitespace.
pub open spec fn is_trimmed(s: Seq<char>) -> bool {
    s.len() > 0 ==> !is_whitespace(s.first()) && !is_whitespace(s.last())
}

/// Index of the first NUL byte; the length if there is none.
pub open spec fn nul_index(bytes: Seq<u8>) -> int
    decreases bytes.len(),
{
    if bytes.len() == 0 || bytes[0] == 0 {
        0
    } else {
        1 + nul_index(bytes.drop_first())
    }
}

/// The bytes before the first NUL; all of them if there is none.
pub open spec fn until_nul(bytes: Seq<u8>) -> Seq<u8> {
    bytes.take(nul_index(bytes))
}

/// What `String::from_utf8_lossy` makes of `bytes`.
pub uninterp spec fn utf8_lossy(bytes: Seq<u8>) -> Seq<char>;

/// The text a NUL-padded section holds.
pub open spec fn section_text(bytes: Seq<u8>) -> Seq<char> {
    trimmed(utf8_lossy(until_nul(bytes)))
}

pub proof fn lemma_first_non_ws(s: Seq<char>)
    ensures
        0 <= first_non_ws(s) <= s.len(),
        forall|i: int| 0 <= i < first_non_ws(s) ==> is_whitespace(#[trigger] s[i]),
        first_non_ws(s) < s.len() ==> !is_whitespace(s[first_non_ws(s)]),
    decreases s.len(),
{
    if s.len() == 0 || !is_whitespace(s[0]) {
    } else {
        let rest = s.drop_first();
        lemma_first_non_ws(rest);
        assert forall|i: int| 0 <= i < first_non_ws(s) implies is_whitespace(#[trigger] s[i]) by {
            if i > 0 {
                assert(s[i] == rest[i - 1]);
            }
        }
        if first_non_ws(s) < s.len() {
            assert(s[first_non_ws(s)] == rest[first_non_ws(rest)]);
        }
    }
}

pub proof fn lemma_end_non_ws(s: Seq<char>)
    ensures
        0 <= end_non_ws(s) <= s.len(),
        forall|i: int| end_non_ws(s) <= i < s.len() ==> is_whitespace(#[trigger] s[i]),
        end_non_ws(s) > 0 ==> !is_whitespace(s[end_non_ws(s) - 1]),
    decreases s.len(),
{
    if s.len() == 0 || !is_whitespace(s.last()) {
    } else {
        let rest = s.drop_last();
        lemma_end_non_ws(rest);
        assert forall|i: int| end_non_ws(s) <= i < s.len() implies is_whitespace(
            #[trigger] s[i],
        ) by {
            if i < s.len() - 1 {
                assert(s[i] == rest[i]);
            }
        }
        if end_non_ws(s) > 0 {
            assert(s[end_non_ws(s) - 1] == rest[end_non_ws(rest) - 1]);
        }
    }
}

/// `first_non_ws` is the one index with only whitespace before it that
/// holds something else or is the end.
pub proof fn lemma_first_non_ws_is(s: Seq<char>, n: int)
    requires
        0 <= n <= s.len(),
        forall|i: int| 0 <= i < n ==> is_whitespace(#[trigger] s[i]),
        n < s.len() ==> !is_whitespace(s[n]),
    ensures
        first_non_ws(s) == n,
{
    lemma_first_non_ws(s);
    let m = first_non_ws(s);
    if m < n {
        assert(is_whitespace(s[m]));
    } else if n < m {
        assert(is_whitespace(s[n]));
    }
}

/// `end_non_ws` is the one index with only whitespace from it on that
/// follows something else or is the start.
pub proof fn lemma_end_non_ws_is(s: Seq<char>, n: int)
    requires
        0 <= n <= s.len(),
        forall|i: int| n <= i < s.len() ==> is_whitespace(#[trigger] s[i]),
        n > 0 ==> !is_whitespace(s[n - 1]),
    ensures
        end_non_ws(s) == n,
{
    lemma_end_non_ws(s);
    let m = end_non_ws(s);
    if m < n {
        assert(is_whitespace(s[n - 1]));
    } else if n < m {
        assert(is_whitespace(s[m - 1]));
    }
}

/// Trimming leaves no whitespace at either end.
pub proof fn lemma_trimmed(s: Seq<char>)
    ensures
        is_trimmed(trimmed(s)),
        trimmed(s).len() <= s.len(),
{
    lemma_first_non_ws(s);
    lemma_end_non_ws(s);
    let a = first_non_ws(s);
    let b = end_non_ws(s);
    if a < b {
        assert(trimmed(s).first() == s[a]);
        assert(trimmed(s).last() == s[b - 1]);
    }
}

/// A string with no whitespace at its ends is its own trimming.
pub proof fn lemma_trimmed_fixpoint(s: Seq<char>)
    requires
        is_trimmed(s),
    ensures
        trimmed(s) == s,
{
    if s.len() > 0 {
        assert(first_non_ws(s) == 0);
        assert(end_non_ws(s) == s.len());
        assert(s.subrange(0, s.len() as int) =~= s);
    }
}

/// Trimming twice is trimming once.
pub proof fn lemma_trim_idempotent(s: Seq<char>)
    ensures
        trimmed(trimmed(s)) == trimmed(s),
{
    lemma_trimmed(s);
    lemma_trimmed_fixpoint(trimmed(s));
}

pub proof fn lemma_nul_index(bytes: Seq<u8>)
    ensures
        0 <= nul_index(bytes) <= bytes.len(),
        forall|i: int| 0 <= i < nul_index(bytes) ==> #[trigger] bytes[i] != 0,
        nul_index(bytes) < bytes.len() ==> bytes[nul_index(bytes)] == 0,
    decreases bytes.len(),
{
    if bytes.len() == 0 || bytes[0] == 0 {
    } else {
        let rest = bytes.drop_first();
        lemma_nul_index(rest);
        assert forall|i: int| 0 <= i < nul_index(bytes) implies #[trigger] bytes[i] != 0 by {
            if i > 0 {
                assert(bytes[i] == rest[i - 1]);
            }
        }
        if nul_index(bytes) < bytes.len() {
            assert(bytes[nul_index(bytes)] == rest[nul_index(rest)]);
        }
    }
}

/// The first NUL is where the scan below stops: the one index with no NUL
/// before it that holds a NUL or is the end.
pub proof fn lemma_nul_index_is(bytes: Seq<u8>, n: int)
    requires
        0 <= n <= bytes.len(),
        forall|i: int| 0 <= i < n ==> #[trigger] bytes[i] != 0,
        n < bytes.len() ==> bytes[n] == 0,
    ensures
        nul_index(bytes) == n,
{
    lemma_nul_index(bytes);
    let m = nul_index(bytes);
    if m < n {
        assert(bytes[m] != 0);
    } else if n < m {
        assert(bytes[n] != 0);
    }
}

/// Whether `c` is whitespace in the sense of `str::trim`.
pub fn char_is_whitespace(c: char) -> (ws: bool)
    ensures
        ws == is_whitespace(c),
{
    let u = c as u32;
    (0x09 <= u && u <= 0x0D) || u == 0x20 || u == 0x85 || u == 0xA0 || u == 0x1680 || (0x2000 <= u
        && u <= 0x200A) || u == 0x2028 || u == 0x2029 || u == 0x202F || u == 0x205F || u
        == 0x3000
}

/// Where the first non-whitespace character of `chars[from..to]` stands;
/// `to` if there is none.
pub fn trim_start_at(chars: &[char], from: usize, to: usize) -> (at: usize)
    requires
        from <= to <= chars@.len(),
    ensures
        from <= at <= to,
        at - from == first_non_ws(chars@.subrange(from as int, to as int)),
{
    let mut at = from;
    while at < to && char_is_whitespace(chars[at])
        invariant
            from <= at <= to <= chars@.len(),
            forall|k: int| from <= k < at ==> is_whitespace(#[trigger] chars@[k]),
        decreases to - at,
    {
        at += 1;
    }
    proof {
        let part = chars@.subrange(from as int, to as int);
        assert forall|i: int| 0 <= i < at - from implies is_whitespace(#[trigger] part[i]) by {
            assert(part[i] == chars@[from + i]);
        }
        lemma_first_non_ws_is(part, at - from);
    }
    at
}

/// One past where the last non-whitespace character of `chars[from..to]`
/// stands; `from` if there is none.
pub fn trim_end_at(chars: &[char], from: usize, to: usize) -> (at: usize)
    requires
        from <= to <= chars@.len(),
    ensures
        from <= at <= to,
        at - from == end_non_ws(chars@.subrange(from as int, to as int)),
{
    let mut at = to;
    while at > from && char_is_whitespace(chars[at - 1])
        invariant
            from <= at <= to <= chars@.len(),
            forall|k: int| at <= k < to ==> is_whitespace(#[trigger] chars@[k]),
        decreases at - from,
    {
        at -= 1;
    }
    proof {
        let part = chars@.subrange(from as int, to as int);
        assert forall|i: int| at - from <= i < part.len() implies is_whitespace(
            #[trigger] part[i],
        ) by {
            assert(part[i] == chars@[from + i]);
        }
        lemma_end_non_ws_is(part, at - from);
    }
    at
}

/// The part of `bytes` before its first NUL.
pub fn cut_at_nul(bytes: &[u8]) -> (head: &[u8])
    ensures
        head@ == until_nul(bytes@),
{
    let mut n: usize = 0;
    while n < bytes.len() && bytes[n] != 0
        invariant
            n <= bytes.len(),
            forall|i: int| 0 <= i < n ==> #[trigger] bytes@[i] != 0,
        decreases bytes.len() - n,
    {
        n += 1;
    }
    proof {
        lemma_nul_index_is(bytes@, n as int);
    }
    vstd::slice::slice_subrange(bytes, 0, n)
}

/// Calls `String::from_utf8_lossy` and takes ownership of what it returns.
///
/// Trusted: the result is a function of the bytes alone; and, as the
/// function's documentation says, bytes that are valid UTF-8 decode to the
/// string they encode, with nothing replaced.
#[verifier::external_body]
fn decode_lossy(bytes: &[u8]) -> (text: String)
    ensures
        text@ == utf8_lossy(bytes@),
        valid_utf8(bytes@) ==> text@ == decode_utf8(bytes@),
{
    String::from_utf8_lossy(bytes).into_owned()
}

/// The characters of `text`, one element each.
pub fn chars_of(text: &str) -> (chars: Vec<char>)
    ensures
        chars@ == text@,
{
    broadcast use vstd::string::group_string_axioms;

    let mut chars: Vec<char> = Vec::new();
    for c in it: text.chars()
        invariant
            it.seq() == text@,
            chars@ == text@.take(it.index() as int),
    {
        chars.push(c);
        assert(chars@ =~= text@.take(it.index() + 1));
    }
    assert(chars@ =~= text@);
    chars
}

/// `text` without its leading and trailing whitespace, as `str::trim` gives
/// it.
pub fn trim_text(text: &str) -> (inner: String)
    ensures
        inner@ == trimmed(text@),
        is_trimmed(inner@),
{
    proof {
        lemma_trimmed(text@);
    }
    let chars = chars_of(text);
    let len = chars.len();
    assert(chars@.subrange(0, len as int) =~= text@);
    let start = trim_start_at(chars.as_slice(), 0, len);
    let end = trim_end_at(chars.as_slice(), 0, len);
    if start < end {
        text.substring_char(start, end).to_owned()
    } else {
        String::new()
    }
}

/// Decodes the text of a NUL-padded section: the bytes before the first NUL,
/// read as UTF-8 with every invalid sequence replaced, then trimmed. Never
/// fails.
pub fn decode_section_text(bytes: &[u8]) -> (text: String)
    ensures
        text@ == section_text(bytes@),
        is_trimmed(text@),
        valid_utf8(until_nul(bytes@)) ==> text@ == trimmed(decode_utf8(until_nul(bytes@))),
{
    let head = cut_at_nul(bytes);
    let decoded = decode_lossy(head);
    trim_text(decoded.as_str())
}

} // verus!
