//! Text stored as bytes in metadata fields: UTF-8 decoding and whitespace
//! trimming.
use vstd::prelude::*;
use vstd::string::StringSliceAdditionalSpecFns;
use vstd::utf8::{decode_utf8, encode_utf8_decode_utf8, valid_utf8};

verus! {

/// Unicode `White_Space`, the property by which `str::trim` and
/// `char::is_whitespace` judge a character.
pub open spec fn is_white_space(c: char) -> bool {
    let u = c as u32;
    ||| 0x09 <= u <= 0x0d
    ||| u == 0x20
    ||| u == 0x85
    ||| u == 0xa0
    ||| u == 0x1680
    ||| 0x2000 <= u <= 0x200a
    ||| u == 0x2028
    ||| u == 0x2029
    ||| u == 0x202f
    ||| u == 0x205f
    ||| u == 0x3000
}

/// `s` without its leading white space.
pub open spec fn trim_start_chars(s: Seq<char>) -> Seq<char>
    decreases s.len(),
{
    if s.len() > 0 && is_white_space(s[0]) {
        trim_start_chars(s.drop_first())
    } else {
        s
    }
}

/// `s` without its trailing white space.
pub open spec fn trim_end_chars(s: Seq<char>) -> Seq<char>
    decreases s.len(),
{
    if s.len() > 0 && is_white_space(s.last()) {
        trim_end_chars(s.drop_last())
    } else {
        s
    }
}

/// `s` without its leading and trailing white space.
pub open spec fn trim_chars(s: Seq<char>) -> Seq<char> {
    trim_end_chars(trim_start_chars(s))
}

/// The text that `bytes` hold, trimmed, when they are non-empty valid UTF-8
/// and the trimmed text is not empty.
pub open spec fn utf8_text(bytes: Seq<u8>) -> Option<Seq<char>> {
    if bytes.len() == 0 || !valid_utf8(bytes) {
        None
    } else {
        let t = trim_chars(decode_utf8(bytes));
        if t.len() == 0 {
            None
        } else {
            Some(t)
        }
    }
}

/// Calls `std::str::from_utf8`, which gives the bytes back as a string
/// slice over the same bytes exactly when they are valid UTF-8.
#[verifier::external_body]
pub(crate) fn utf8_str(bytes: &[u8]) -> (r: Option<&str>)
    ensures
        r is Some <==> valid_utf8(bytes@),
        r matches Some(s) ==> s.spec_bytes() == bytes@,
{
    std::str::from_utf8(bytes).ok()
}

/// Calls `str::trim`, which drops the leading and trailing characters that
/// have the Unicode `White_Space` property.
#[verifier::external_body]
pub(crate) fn trim_str(s: &str) -> (r: &str)
    ensures
        r@ == trim_chars(s@),
{
    s.trim()
}

/// Decode `bytes` as UTF-8 and trim it; `None` when the bytes are empty, not
/// UTF-8, or only white space.
pub fn utf8_nonempty(bytes: &[u8]) -> (r: Option<String>)
    ensures
        r.deep_view() == utf8_text(bytes@),
{
    if bytes.len() == 0 {
        return None;
    }
    match utf8_str(bytes) {
        None => None,
        Some(s) => {
            proof {
                encode_utf8_decode_utf8(s@);
            }
            let t = trim_str(s);
            if t.is_empty() {
                None
            } else {
                Some(t.to_owned())
            }
        },
    }
}

proof fn lemma_trim_start(s: Seq<char>)
    ensures
        trim_start_chars(s).len() == 0 || !is_white_space(trim_start_chars(s)[0]),
    decreases s.len(),
{
    if s.len() > 0 && is_white_space(s[0]) {
        lemma_trim_start(s.drop_first());
    }
}

proof fn lemma_trim_end(s: Seq<char>)
    ensures
        trim_end_chars(s).len() == 0 || !is_white_space(trim_end_chars(s).last()),
        trim_end_chars(s).len() > 0 ==> trim_end_chars(s)[0] == s[0],
        trim_end_chars(s).len() <= s.len(),
    decreases s.len(),
{
    if s.len() > 0 && is_white_space(s.last()) {
        lemma_trim_end(s.drop_last());
    }
}

/// The text of a metadata field is never blank: it is not empty and does
/// not start or end with white space.
pub proof fn law_text_is_trimmed_and_nonempty(bytes: Seq<u8>)
    ensures
        utf8_text(bytes) matches Some(t) ==> t.len() > 0 && !is_white_space(t[0])
            && !is_white_space(t.last()),
{
    if bytes.len() > 0 && valid_utf8(bytes) {
        let d = decode_utf8(bytes);
        lemma_trim_start(d);
        lemma_trim_end(trim_start_chars(d));
    }
}

} // verus!
