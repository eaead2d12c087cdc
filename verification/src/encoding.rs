//! Bytes as text, and text as it is quoted.
use vstd::prelude::*;
use vstd::utf8::{decode_utf8, valid_utf8};
use base64::Engine;
use crate::text::text_in;

verus! {

/// What the standard base64 engine writes for those bytes.
pub uninterp spec fn base64_of(bytes: Seq<u8>) -> Seq<char>;

/// What the standard base64 engine reads from a text, where it is base64.
pub uninterp spec fn base64_in(s: Seq<char>) -> Option<Seq<u8>>;

/// `base64::engine::general_purpose::STANDARD.encode`: padded base64 over the
/// standard alphabet. The text depends on the bytes alone, and decoding it with
/// the same engine gives the bytes back.
#[verifier::external_body]
pub(crate) fn base64_text(bytes: &[u8]) -> (r: String)
    ensures
        r@ == base64_of(bytes@),
        base64_in(r@) == Some(bytes@),
{
    base64::engine::general_purpose::STANDARD.encode(bytes)
}

/// `base64::engine::general_purpose::STANDARD.decode`: the bytes that the text
/// stands for, where it is padded base64 over the standard alphabet. What is
/// read depends on the text alone.
#[verifier::external_body]
pub(crate) fn base64_bytes(s: &str) -> (r: Option<Vec<u8>>)
    ensures
        match r {
            Some(bytes) => base64_in(s@) == Some(bytes@),
            None => base64_in(s@) is None,
        },
{
    base64::engine::general_purpose::STANDARD.decode(s).ok()
}

/// What `std::str::from_utf8` says of bytes that are not UTF-8.
pub uninterp spec fn utf8_fault(bytes: Seq<u8>) -> Seq<char>;

/// `std::str::from_utf8`: the text that the bytes encode, where they are valid
/// UTF-8, and otherwise an error whose words depend on the bytes alone.
#[verifier::external_body]
pub(crate) fn utf8_text(bytes: &Vec<u8>) -> (r: Result<String, String>)
    ensures
        match r {
            Ok(s) => valid_utf8(bytes@) && s@ == decode_utf8(bytes@),
            Err(why) => !valid_utf8(bytes@) && why@ == utf8_fault(bytes@),
        },
{
    match std::str::from_utf8(bytes) {
        Ok(s) => Ok(s.to_owned()),
        Err(e) => Err(e.to_string()),
    }
}

/// A text as `{:?}` writes it: between quotation marks, with what does not
/// print escaped.
pub uninterp spec fn quoted(s: Seq<char>) -> Seq<char>;

/// `std::fmt::Debug` of a text. What it writes depends on the text alone.
#[verifier::external_body]
pub(crate) fn quoted_text(s: &str) -> (r: String)
    ensures
        r@ == quoted(s@),
{
    format!("{s:?}")
}

/// A text that may be absent, as `{:?}` writes it.
pub open spec fn quoted_option(s: Option<Seq<char>>) -> Seq<char> {
    match s {
        Some(t) => "Some("@ + quoted(t) + ")"@,
        None => "None"@,
    }
}

/// A text that may be absent, as `{:?}` writes it.
pub fn quoted_option_text(s: Option<&str>) -> (r: String)
    ensures
        r@ == quoted_option(
            text_in(s),
        ),
{
    match s {
        Some(t) => {
            let mut out = "Some(".to_owned();
            out.append(quoted_text(t).as_str());
            out.append(")");
            out
        },
        None => "None".to_owned(),
    }
}

} // verus!
