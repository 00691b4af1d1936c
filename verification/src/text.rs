//! Searching and cutting byte strings.
//!
//! The modem speaks ASCII, so every rule of the protocol is stated on bytes.
//! Offsets are byte offsets, as they are in a `str`.

use vstd::prelude::*;
use vstd::string::*;
use vstd::utf8::*;

verus! {

/// `needle` stands in `text` at offset `at`.
pub open spec fn occurs_at(text: Seq<u8>, needle: Seq<u8>, at: int) -> bool {
    &&& 0 <= at
    &&& at + needle.len() <= text.len()
    &&& text.subrange(at, at + needle.len()) == needle
}

/// `text` begins with `prefix`.
pub open spec fn is_prefix(prefix: Seq<u8>, text: Seq<u8>) -> bool {
    occurs_at(text, prefix, 0)
}

/// `text` ends with `suffix`.
pub open spec fn is_suffix(suffix: Seq<u8>, text: Seq<u8>) -> bool {
    occurs_at(text, suffix, text.len() - suffix.len())
}

/// `at` is the offset of the first place where `needle` stands in `text`.
pub open spec fn first_occurrence(text: Seq<u8>, needle: Seq<u8>, at: int) -> bool {
    &&& occurs_at(text, needle, at)
    &&& forall|j: int| 0 <= j < at ==> !occurs_at(text, needle, j)
}

/// `needle` stands somewhere in `text`.
pub open spec fn occurs(text: Seq<u8>, needle: Seq<u8>) -> bool {
    exists|j: int| occurs_at(text, needle, j)
}

/// The offset of the first place where `needle` stands in `text`, if there is one.
pub open spec fn index_of(text: Seq<u8>, needle: Seq<u8>) -> Option<int> {
    if occurs(text, needle) {
        Some(choose|at: int| first_occurrence(text, needle, at))
    } else {
        None
    }
}

/// Tells whether `needle` stands in `text` at offset `at`.
pub fn matches_at(text: &[u8], needle: &[u8], at: usize) -> (r: bool)
    ensures
        r == occurs_at(text@, needle@, at as int),
{
    if needle.len() > text.len() || at > text.len() - needle.len() {
        return false;
    }
    let mut k: usize = 0;
    while k < needle.len()
        invariant
            k <= needle.len(),
            at + needle.len() <= text.len(),
            forall|j: int| 0 <= j < k ==> text@[at + j] == needle@[j],
        decreases needle.len() - k,
    {
        if text[at + k] != needle[k] {
            proof {
                let cut = text@.subrange(at as int, at + needle@.len());
                assert(cut[k as int] == text@[at + k]);
            }
            return false;
        }
        k += 1;
    }
    assert(text@.subrange(at as int, at + needle@.len()) =~= needle@);
    true
}

/// Tells whether `text` begins with `prefix`.
pub fn starts_with(text: &[u8], prefix: &[u8]) -> (r: bool)
    ensures
        r == is_prefix(prefix@, text@),
{
    matches_at(text, prefix, 0)
}

/// Tells whether `text` ends with `suffix`.
pub fn ends_with(text: &[u8], suffix: &[u8]) -> (r: bool)
    ensures
        r == is_suffix(suffix@, text@),
{
    if suffix.len() > text.len() {
        return false;
    }
    matches_at(text, suffix, text.len() - suffix.len())
}

/// The offset of the first place where `needle` stands in `text`, if there is one.
pub fn find(text: &[u8], needle: &[u8]) -> (r: Option<usize>)
    ensures
        match r {
            Some(at) => first_occurrence(text@, needle@, at as int) && index_of(text@, needle@)
                == Some(at as int),
            None => index_of(text@, needle@) is None,
        },
{
    if needle.len() > text.len() {
        return None;
    }
    let last: usize = text.len() - needle.len();
    let mut at: usize = 0;
    loop
        invariant
            last + needle.len() == text.len(),
            at <= last,
            forall|j: int| 0 <= j < at ==> !occurs_at(text@, needle@, j),
        decreases last - at,
    {
        if matches_at(text, needle, at) {
            proof {
                let first = choose|i: int| first_occurrence(text@, needle@, i);
                assert(first_occurrence(text@, needle@, at as int));
                assert(first == at);
            }
            return Some(at);
        }
        if at == last {
            return None;
        }
        at += 1;
    }
}

/// Tells whether `needle` stands somewhere in `text`.
pub fn contains(text: &[u8], needle: &[u8]) -> (r: bool)
    ensures
        r == occurs(text@, needle@),
{
    find(text, needle).is_some()
}

/// Tells whether two byte strings are the same.
pub fn same(a: &[u8], b: &[u8]) -> (r: bool)
    ensures
        r == (a@ == b@),
{
    if a.len() != b.len() {
        return false;
    }
    let r = matches_at(a, b, 0);
    assert(a@.subrange(0, a@.len() as int) =~= a@);
    r
}

/// Every byte is an ASCII code.
pub open spec fn is_ascii(bytes: Seq<u8>) -> bool {
    forall|i: int| 0 <= i < bytes.len() ==> #[trigger] bytes[i] <= 0x7f
}

/// The characters with the given ASCII codes.
pub open spec fn ascii_chars(bytes: Seq<u8>) -> Seq<char> {
    Seq::new(bytes.len(), |i: int| bytes[i] as char)
}

/// ASCII bytes are UTF-8, and are the text of the characters with their codes.
pub proof fn lemma_ascii_is_utf8(bytes: Seq<u8>)
    requires
        is_ascii(bytes),
    ensures
        valid_utf8(bytes),
        encode_utf8(ascii_chars(bytes)) == bytes,
        decode_utf8(bytes) == ascii_chars(bytes),
{
    let chars = ascii_chars(bytes);
    assert(is_ascii_chars(chars)) by {
        assert forall|i: int| 0 <= i < chars.len() implies '\0' <= #[trigger] chars[i] <= '\u{7f}' by {
            assert(bytes[i] <= 0x7f);
        }
    }
    is_ascii_chars_encode_utf8(chars);
    assert(encode_utf8(chars) =~= bytes) by {
        assert forall|i: int| 0 <= i < bytes.len() implies encode_utf8(chars)[i] == bytes[i] by {
            assert(chars[i] as u8 == encode_utf8(chars)[i]);
            assert(bytes[i] <= 0x7f);
        }
    }
    encode_utf8_valid_utf8(chars);
    encode_utf8_decode_utf8(chars);
}

/// A place in UTF-8 text where no continuation byte stands, or its end,
/// parts the text into two UTF-8 texts.
pub proof fn lemma_cut_at_boundary(text: Seq<u8>, at: int)
    requires
        valid_utf8(text),
        0 <= at <= text.len(),
        at < text.len() ==> !is_continuation_byte(text[at]),
    ensures
        is_char_boundary(text, at),
        valid_utf8(text.subrange(0, at)),
        valid_utf8(text.subrange(at, text.len() as int)),
{
    if at == text.len() {
        is_char_boundary_start_end_of_seq(text);
    } else {
        is_char_boundary_iff_not_is_continuation_byte(text, at);
    }
    valid_utf8_split(text, at);
}

/// Where UTF-8 text begins with another UTF-8 text, a character begins
/// behind that prefix.
pub proof fn lemma_cut_after_prefix(text: Seq<u8>, prefix: Seq<u8>)
    requires
        valid_utf8(text),
        valid_utf8(prefix),
        is_prefix(prefix, text),
    ensures
        is_char_boundary(text, prefix.len() as int),
        valid_utf8(text.subrange(prefix.len() as int, text.len() as int)),
    decreases prefix.len(),
{
    if prefix.len() > 0 {
        let width = length_of_first_scalar(prefix);
        let head = text.subrange(0, prefix.len() as int);
        assert(forall|i: int| 0 <= i < prefix.len() ==> text[i] == head[i]);
        assert(length_of_first_scalar(text) == width);
        let rest = pop_first_scalar(text);
        let prefix_rest = pop_first_scalar(prefix);
        assert(rest.subrange(0, prefix_rest.len() as int) =~= prefix_rest);
        lemma_cut_after_prefix(rest, prefix_rest);
        assert(rest.subrange(prefix_rest.len() as int, rest.len() as int)
            =~= text.subrange(prefix.len() as int, text.len() as int));
    } else {
        assert(text.subrange(0, text.len() as int) =~= text);
    }
}

/// `bytes` are not UTF-8, and `n` is the length of the longest prefix of
/// them that is.
pub open spec fn longest_valid_prefix(bytes: Seq<u8>, n: int) -> bool {
    &&& !valid_utf8(bytes)
    &&& 0 <= n < bytes.len()
    &&& valid_utf8(bytes.subrange(0, n))
    &&& forall|k: int| n < k <= bytes.len() ==> !valid_utf8(#[trigger] bytes.subrange(0, k))
}

/// Calls `core::str::from_utf8`, and `Utf8Error::valid_up_to` where it
/// fails. The bytes are returned as a string exactly when they are UTF-8;
/// else the number returned is the length of the longest prefix of them that is.
#[verifier::external_body]
pub(crate) fn as_text(bytes: &[u8]) -> (r: Result<&str, usize>)
    ensures
        match r {
            Ok(s) => valid_utf8(bytes@) && s.spec_bytes() == bytes@,
            Err(n) => longest_valid_prefix(bytes@, n as int),
        },
{
    match core::str::from_utf8(bytes) {
        Ok(s) => Ok(s),
        Err(e) => Err(e.valid_up_to()),
    }
}

/// The string of the characters with the given ASCII codes.
pub fn ascii_string(bytes: &[u8]) -> (r: String)
    requires
        is_ascii(bytes@),
    ensures
        r@ == ascii_chars(bytes@),
{
    proof {
        lemma_ascii_is_utf8(bytes@);
    }
    match as_text(bytes) {
        Ok(s) => {
            proof {
                encode_utf8_decode_utf8(s@);
            }
            s.to_owned()
        },
        // Never taken: ASCII is UTF-8.
        Err(_) => String::new(),
    }
}

/// The byte is a carriage return or a line feed.
pub open spec fn is_line_end(b: u8) -> bool {
    b == 0x0d || b == 0x0a
}

/// `text` without the carriage returns and line feeds at its end.
pub open spec fn trimmed(text: Seq<u8>) -> Seq<u8>
    decreases text.len(),
{
    if text.len() > 0 && is_line_end(text.last()) {
        trimmed(text.drop_last())
    } else {
        text
    }
}

/// What `trimmed` keeps is a prefix, and it is the longest one that does
/// not end in a carriage return or a line feed.
pub proof fn lemma_trimmed(text: Seq<u8>)
    ensures
        trimmed(text).len() <= text.len(),
        trimmed(text) == text.subrange(0, trimmed(text).len() as int),
        trimmed(text).len() > 0 ==> !is_line_end(trimmed(text).last()),
        forall|i: int| trimmed(text).len() <= i < text.len() ==> is_line_end(#[trigger] text[i]),
    decreases text.len(),
{
    if text.len() > 0 && is_line_end(text.last()) {
        lemma_trimmed(text.drop_last());
        let kept = trimmed(text).len() as int;
        assert(text.drop_last().subrange(0, kept) =~= text.subrange(0, kept));
        assert forall|i: int| kept <= i < text.len() implies is_line_end(#[trigger] text[i]) by {
            if i < text.len() - 1 {
                assert(text.drop_last()[i] == text[i]);
            }
        }
    } else {
        assert(text.subrange(0, text.len() as int) =~= text);
    }
}

/// The length of `text` without the carriage returns and line feeds at its end.
pub fn trimmed_len(text: &[u8]) -> (r: usize)
    ensures
        r <= text@.len(),
        text@.subrange(0, r as int) == trimmed(text@),
{
    let mut n: usize = text.len();
    assert(text@.subrange(0, n as int) =~= text@);
    while n > 0 && (text[n - 1] == 0x0d || text[n - 1] == 0x0a)
        invariant
            n <= text@.len(),
            trimmed(text@.subrange(0, n as int)) == trimmed(text@),
        decreases n,
    {
        assert(text@.subrange(0, n as int).drop_last() =~= text@.subrange(0, n - 1));
        n -= 1;
    }
    n
}

} // verus!
