//! Responses that carry headers of their own.

use axum::http::{HeaderMap, HeaderValue};
use vstd::prelude::*;
use vstd::utf8::*;

verus! {

/// The header fields of an HTTP message.
#[verifier::external_type_specification]
#[verifier::external_body]
#[verifier::reject_recursive_types(T)]
pub struct ExHeaderMap<T>(axum::http::HeaderMap<T>);

/// The value of a header field.
#[verifier::external_type_specification]
#[verifier::external_body]
pub struct ExHeaderValue(axum::http::HeaderValue);

/// The bytes that `value` holds.
pub uninterp spec fn header_value_bytes(value: HeaderValue) -> Seq<u8>;

/// The fields of `headers`: the values under each name, the names in lower case.
pub uninterp spec fn header_entries(headers: HeaderMap) -> Map<Seq<char>, Seq<Seq<u8>>>;

/// No field at all.
pub open spec fn no_entries() -> Map<Seq<char>, Seq<Seq<u8>>> {
    Map::empty()
}

/// One value.
pub open spec fn one_value(value: Seq<char>) -> Seq<Seq<u8>> {
    seq![encode_utf8(value)]
}

/// `c`, in lower case where it is an ASCII letter.
pub open spec fn lower_char(c: char) -> char {
    if 'A' <= c <= 'Z' {
        (c as u32 + 32) as char
    } else {
        c
    }
}

/// `s` with its ASCII letters in lower case.
pub open spec fn lower_case(s: Seq<char>) -> Seq<char> {
    s.map_values(|c: char| lower_char(c))
}

/// A name of at most 64 ASCII letters, digits and hyphens.
pub open spec fn is_header_name(name: Seq<char>) -> bool {
    &&& 1 <= name.len() <= 64
    &&& forall|i: int|
        0 <= i < name.len() ==> ('a' <= #[trigger] name[i] <= 'z' || 'A' <= name[i] <= 'Z' || '0'
            <= name[i] <= '9' || name[i] == '-')
}

/// A value of printable ASCII characters.
pub open spec fn is_header_text(value: Seq<char>) -> bool {
    forall|i: int| 0 <= i < value.len() ==> ' ' <= #[trigger] value[i] <= '~'
}

/// Calls `HeaderMap::new`. Claimed: it has no field.
#[verifier::external_body]
pub(crate) fn new_headers() -> (headers: HeaderMap)
    ensures
        header_entries(headers) == no_entries(),
{
    HeaderMap::new()
}

/// Calls `HeaderValue::from_str`, which takes every text of printable ASCII
/// characters. Claimed: the value holds the bytes of the text.
#[verifier::external_body]
pub(crate) fn header_value(value: &str) -> (v: HeaderValue)
    requires
        is_header_text(value@),
    ensures
        header_value_bytes(v) == encode_utf8(value@),
{
    HeaderValue::from_str(value).unwrap()
}

/// Calls `HeaderMap::insert`, with a name written out. Claimed: the value is the only
/// one under the name, which is taken in lower case; the other fields stay. The bound
/// on the number of fields keeps the map far below the size at which it refuses more.
#[verifier::external_body]
pub(crate) fn insert_header(headers: &mut HeaderMap, name: &'static str, value: HeaderValue)
    requires
        is_header_name(name@),
        header_entries(*old(headers)).len() < 1024,
    ensures
        header_entries(*final(headers)) == header_entries(*old(headers)).insert(
            lower_case(name@),
            seq![header_value_bytes(value)],
        ),
{
    headers.insert(name, value);
}

/// A body with its status code, and header fields that are added to those that the
/// body brings.
#[derive(Debug)]
pub struct ResponseWithHeaders<T> {
    pub status: u16,
    pub headers: HeaderMap,
    pub body: T,
}

impl<T> ResponseWithHeaders<T> {
    pub fn new(status: u16, headers: HeaderMap, body: T) -> (response: Self)
        ensures
            response.status == status,
            response.headers == headers,
            response.body == body,
    {
        Self { status, headers, body }
    }
}

} // verus!
