//! The request headers that the server reads.

use axum::http::header::ToStrError;
use axum::http::{HeaderMap, HeaderValue};
use vstd::prelude::*;

verus! {

/// The headers of a request.
#[verifier::external_type_specification]
#[verifier::external_body]
#[verifier::reject_recursive_types(T)]
pub struct ExHeaderMap<T>(HeaderMap<T>);

/// The value of one header field.
#[verifier::external_type_specification]
#[verifier::external_body]
pub struct ExHeaderValue(HeaderValue);

/// The error of a header value that is not plain text.
#[verifier::external_type_specification]
#[verifier::external_body]
pub struct ExToStrError(ToStrError);

/// The first value of each field that `headers` holds, by the field's name in lower case.
pub uninterp spec fn first_values(headers: HeaderMap<HeaderValue>) -> Map<Seq<char>, Seq<u8>>;

/// The bytes of a header value.
pub uninterp spec fn value_bytes(value: HeaderValue) -> Seq<u8>;

/// Whether `byte` is a visible ASCII character, a space or a tab.
pub open spec fn is_visible(byte: u8) -> bool {
    32 <= byte < 127 || byte == 9
}

/// The text that `bytes` spell, one character for each byte.
pub open spec fn ascii_text(bytes: Seq<u8>) -> Seq<char> {
    bytes.map_values(|byte: u8| byte as char)
}

/// The content type that `headers` declare: the first value of their `content-type` field, where
/// it has one and that value is plain text.
pub open spec fn declared_content_type(headers: HeaderMap<HeaderValue>) -> Option<Seq<char>> {
    let values = first_values(headers);
    let name = "content-type"@;
    if values.contains_key(name) && values[name].all(|byte: u8| is_visible(byte)) {
        Some(ascii_text(values[name]))
    } else {
        None
    }
}

/// The text of a string that may be missing.
pub open spec fn text_of(string: Option<String>) -> Option<Seq<char>> {
    match string {
        Some(string) => Some(string@),
        None => None,
    }
}

/// Calls `http::HeaderMap::get` with the name `content-type`.
///
/// Believed: a value comes back exactly if the headers hold that field, and it is the first of
/// the field's values.
#[verifier::external_body]
pub(crate) fn content_type_field(headers: &HeaderMap<HeaderValue>) -> (field: Option<&HeaderValue>)
    ensures
        match field {
            Some(value) => first_values(*headers).contains_key("content-type"@)
                && first_values(*headers)["content-type"@] == value_bytes(*value),
            None => !first_values(*headers).contains_key("content-type"@),
        },
{
    headers.get(axum::http::header::CONTENT_TYPE)
}

/// `http::HeaderValue::to_str` yields the value as text if each of its bytes is a visible ASCII
/// character, a space or a tab, and fails otherwise.
pub assume_specification[ HeaderValue::to_str ](value: &HeaderValue) -> (text: Result<
    &str,
    ToStrError,
>)
    ensures
        match text {
            Ok(text) => value_bytes(*value).all(|byte: u8| is_visible(byte)) && text@
                == ascii_text(value_bytes(*value)),
            Err(_) => !value_bytes(*value).all(|byte: u8| is_visible(byte)),
        },
;

/// The content type that a request declares, if any.
pub fn content_type(headers: &HeaderMap<HeaderValue>) -> (declared: Option<String>)
    ensures
        text_of(declared) == declared_content_type(*headers),
{
    match content_type_field(headers) {
        Some(value) => match value.to_str() {
            Ok(text) => Some(text.to_owned()),
            Err(_) => None,
        },
        None => None,
    }
}

/// A declared content type is plain text: it can be sent back in a header as it came.
pub proof fn declared_type_is_plain(headers: HeaderMap<HeaderValue>)
    ensures
        declared_content_type(headers) matches Some(text) ==> forall|i: int|
            0 <= i < text.len() ==> (#[trigger] text[i] as u32) < 128 && is_visible(text[i] as u8),
{
    if let Some(text) = declared_content_type(headers) {
        let bytes = first_values(headers)["content-type"@];
        let visible = |byte: u8| is_visible(byte);
        assert(bytes.all(visible));
        assert forall|i: int| 0 <= i < text.len() implies (#[trigger] text[i] as u32) < 128
            && is_visible(text[i] as u8) by {
            assert(visible(bytes[i]));
        }
    }
}

} // verus!
