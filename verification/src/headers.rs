//! The HTTP header types of `reqwest` (those of the `http` crate) that a
//! Consul registration carries, with what this crate relies on of them.
use vstd::prelude::*;

use reqwest::header::{HeaderMap, HeaderName, HeaderValue, InvalidHeaderValue};

verus! {

#[verifier::external_type_specification]
#[verifier::external_body]
pub struct ExHeaderValue(HeaderValue);

#[verifier::external_type_specification]
#[verifier::external_body]
pub struct ExHeaderName(HeaderName);

#[verifier::external_type_specification]
#[verifier::external_body]
pub struct ExInvalidHeaderValue(InvalidHeaderValue);

#[verifier::external_type_specification]
#[verifier::external_body]
#[verifier::reject_recursive_types(T)]
pub struct ExHeaderMap<T>(HeaderMap<T>);

/// The bytes that a header value holds (what `HeaderValue::as_bytes` gives).
pub uninterp spec fn header_value_bytes(v: HeaderValue) -> Seq<u8>;

/// Whether a header value is marked sensitive (what
/// `HeaderValue::is_sensitive` gives).
pub uninterp spec fn header_value_is_sensitive(v: HeaderValue) -> bool;

/// The lower-case text of a header name (what `HeaderName::as_str` gives).
pub uninterp spec fn header_name_text(n: HeaderName) -> Seq<char>;

/// What a header map holds: for each header name, its values in order,
/// each as its bytes and whether it is marked sensitive.
pub uninterp spec fn header_map_entries(m: HeaderMap) -> Map<Seq<char>, Seq<(Seq<u8>, bool)>>;

/// A byte that a header value may hold: visible ASCII, space, tab, or any
/// byte from 0x80 up.
pub open spec fn is_header_value_byte(b: u8) -> bool {
    (b >= 32 && b != 127) || b == 9
}

/// `HeaderValue::from_str` accepts a string exactly when every byte of its
/// UTF-8 encoding may stand in a header value; the value then holds those
/// bytes and is not marked sensitive.
pub assume_specification[ HeaderValue::from_str ](src: &str) -> (r: Result<
    HeaderValue,
    InvalidHeaderValue,
>)
    ensures
        r is Ok <==> forall|i: int|
            0 <= i < vstd::utf8::encode_utf8(src@).len() ==> is_header_value_byte(
                #[trigger] vstd::utf8::encode_utf8(src@)[i],
            ),
        r matches Ok(v) ==> header_value_bytes(v) == vstd::utf8::encode_utf8(src@),
        r matches Ok(v) ==> !header_value_is_sensitive(v),
;

/// `HeaderValue::set_sensitive` sets the mark and keeps the bytes.
pub assume_specification[ HeaderValue::set_sensitive ](v: &mut HeaderValue, val: bool)
    ensures
        header_value_bytes(*final(v)) == header_value_bytes(*old(v)),
        header_value_is_sensitive(*final(v)) == val,
;

/// `HeaderMap::new` makes a map that holds nothing.
pub assume_specification[ HeaderMap::new ]() -> (m: HeaderMap)
    ensures
        header_map_entries(m).dom() == Set::<Seq<char>>::empty(),
;

/// The name of the `Authorization` header (the constant
/// `reqwest::header::AUTHORIZATION`, whose text is `authorization`).
#[verifier::external_body]
pub(crate) fn authorization_header() -> (r: HeaderName)
    ensures
        header_name_text(r) == "authorization"@,
{
    reqwest::header::AUTHORIZATION
}

/// Calls `HeaderMap::insert`: the name then maps to the given value alone,
/// whatever values it had before; other names keep theirs. `insert` panics
/// when the map must grow beyond its largest table, which can happen once it
/// holds 6554 names (a fifth of that table); the map must hold fewer.
#[verifier::external_body]
pub(crate) fn header_map_insert(map: &mut HeaderMap, name: HeaderName, value: HeaderValue)
    requires
        header_map_entries(*old(map)).dom().finite(),
        header_map_entries(*old(map)).dom().len() < 6554,
    ensures
        header_map_entries(*final(map)) == header_map_entries(*old(map)).insert(
            header_name_text(name),
            seq![(header_value_bytes(value), header_value_is_sensitive(value))],
        ),
{
    map.insert(name, value);
}

} // verus!
