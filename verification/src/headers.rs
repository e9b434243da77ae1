//! What the middleware needs of HTTP header tables: the trusted description
//! of the `http` crate's header values, names and maps.

use http::header::{HeaderMap, HeaderName, HeaderValue, InvalidHeaderValue, MaxSizeReached};
use vstd::prelude::*;
use vstd::string::*;

verus! {

/// `http::header::HeaderValue`, carried as an opaque value.
#[verifier::external_type_specification]
#[verifier::external_body]
pub struct ExHeaderValue(HeaderValue);

/// `http::header::HeaderName`, carried as an opaque value.
#[verifier::external_type_specification]
#[verifier::external_body]
pub struct ExHeaderName(HeaderName);

/// `http::header::HeaderMap`, the header table of a request.
#[verifier::external_type_specification]
#[verifier::external_body]
#[verifier::reject_recursive_types(T)]
pub struct ExHeaderMap<T>(HeaderMap<T>);

/// `http::header::InvalidHeaderValue`, the error of parsing a header value.
#[verifier::external_type_specification]
#[verifier::external_body]
pub struct ExInvalidHeaderValue(InvalidHeaderValue);

/// `http::header::MaxSizeReached`, the error of a header table that is full.
#[verifier::external_type_specification]
#[verifier::external_body]
pub struct ExMaxSizeReached(MaxSizeReached);

/// The bytes that a header value holds.
pub uninterp spec fn header_value_bytes(value: HeaderValue) -> Seq<u8>;

/// The text of a header name, which is always in lower case.
pub uninterp spec fn header_name_text(name: HeaderName) -> Seq<char>;

/// What a header table holds: for each header name that is present, its
/// values in the order in which they were added.
pub uninterp spec fn header_map_contents(headers: HeaderMap<HeaderValue>) -> Map<
    Seq<char>,
    Seq<Seq<u8>>,
>;

/// Whether a header value may hold the byte: anything from the space on
/// except DEL, and the horizontal tab.
pub open spec fn value_byte_ok(b: u8) -> bool {
    b >= 32 && b != 127 || b == 9
}

/// Whether every byte may stand in a header value.
pub open spec fn valid_value(bytes: Seq<u8>) -> bool {
    forall|i: int| 0 <= i < bytes.len() ==> value_byte_ok(#[trigger] bytes[i])
}

/// `HeaderValue::from_str`: succeeds exactly when every byte of the text's
/// UTF-8 encoding may stand in a header value, and the value then holds
/// those bytes.
#[verifier::external_body]
pub(crate) fn parse_header_value(text: &str) -> (r: Result<HeaderValue, InvalidHeaderValue>)
    ensures
        r is Ok <==> valid_value(text.spec_bytes()),
        r matches Ok(value) ==> header_value_bytes(value) == text.spec_bytes(),
{
    HeaderValue::from_str(text)
}

/// The text of the standard `authorization` header name.
pub open spec fn authorization_text() -> Seq<char> {
    seq!['a', 'u', 't', 'h', 'o', 'r', 'i', 'z', 'a', 't', 'i', 'o', 'n']
}

/// `http::header::AUTHORIZATION`: the standard header name `authorization`.
#[verifier::external_body]
pub(crate) fn authorization_name() -> (name: HeaderName)
    ensures
        header_name_text(name) == authorization_text(),
{
    http::header::AUTHORIZATION
}

/// `HeaderMap::try_insert`: on success the name holds the one new value,
/// whatever it held before, and every other name is untouched; the result
/// is the first value that the name held before, if it held any. When the
/// table refuses to grow it is left holding what it held.
#[verifier::external_body]
pub(crate) fn try_insert_header(
    headers: &mut HeaderMap<HeaderValue>,
    name: HeaderName,
    value: HeaderValue,
) -> (r: Result<Option<HeaderValue>, MaxSizeReached>)
    ensures
        r is Ok ==> header_map_contents(*final(headers)) == header_map_contents(
            *old(headers),
        ).insert(header_name_text(name), seq![header_value_bytes(value)]),
        r matches Ok(previous) ==> (previous is Some <==> header_map_contents(
            *old(headers),
        ).contains_key(header_name_text(name))),
        r matches Ok(Some(previous)) ==> header_map_contents(*old(headers))[header_name_text(
            name,
        )].len() > 0 && header_value_bytes(previous) == header_map_contents(
            *old(headers),
        )[header_name_text(name)][0],
        r is Err ==> header_map_contents(*final(headers)) == header_map_contents(*old(headers)),
{
    headers.try_insert(name, value)
}

} // verus!
