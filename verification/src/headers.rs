//! Header names, header values and the header map of the `http` crate.
//!
//! A header map is modelled as a map from canonical (lower-case) name bytes to
//! the values appended under that name, in the order they were appended.

use http::header::{HeaderMap, HeaderName, HeaderValue};
use vstd::prelude::*;

verus! {

/// `http::HeaderMap`, a multimap from header names to values.
#[verifier::external_type_specification]
#[verifier::external_body]
#[verifier::reject_recursive_types(T)]
pub struct ExHeaderMap<T>(HeaderMap<T>);

/// `http::header::HeaderName`, a validated, lower-cased header name.
#[verifier::external_type_specification]
#[verifier::external_body]
pub struct ExHeaderName(HeaderName);

/// `http::header::HeaderValue`, a validated header value.
#[verifier::external_type_specification]
#[verifier::external_body]
pub struct ExHeaderValue(HeaderValue);

/// The values stored under each name, oldest first.
pub type HeaderEntries = Map<Seq<u8>, Seq<Seq<u8>>>;

/// What a header map holds.
pub uninterp spec fn header_entries(map: HeaderMap<HeaderValue>) -> HeaderEntries;

/// How many values a header map holds, over all names.
pub uninterp spec fn header_count(map: HeaderMap<HeaderValue>) -> nat;

/// The bytes of a header name.
pub uninterp spec fn header_name_bytes(name: HeaderName) -> Seq<u8>;

/// The bytes of a header value.
pub uninterp spec fn header_value_bytes(value: HeaderValue) -> Seq<u8>;

/// The most values a header map is ever asked to hold.
pub const MAX_HEADER_MAP_ENTRIES: usize = 32768;

/// The length from which on a header name is refused outright.
pub const MAX_HEADER_NAME_LEN: usize = 65536;

/// The bytes that may occur in a header name: letters, digits and
/// ``!"#$%&'*+-.^_`|~``.
pub open spec fn is_name_byte(b: u8) -> bool {
    ||| 33 <= b <= 39
    ||| b == 42
    ||| b == 43
    ||| b == 45
    ||| b == 46
    ||| 48 <= b <= 57
    ||| 65 <= b <= 90
    ||| 94 <= b <= 122
    ||| b == 124
    ||| b == 126
}

/// ASCII lower case of one byte.
pub open spec fn lowered_byte(b: u8) -> u8 {
    if 65 <= b <= 90 {
        (b + 32) as u8
    } else {
        b
    }
}

/// ASCII lower case of a byte string.
pub open spec fn lowered(bytes: Seq<u8>) -> Seq<u8> {
    bytes.map_values(|b: u8| lowered_byte(b))
}

/// A byte string that is accepted as a header name.
pub open spec fn valid_header_name(bytes: Seq<u8>) -> bool {
    &&& 0 < bytes.len() < MAX_HEADER_NAME_LEN
    &&& forall|i: int| 0 <= i < bytes.len() ==> is_name_byte(#[trigger] bytes[i])
}

/// The bytes that may occur in a header value: tab and everything from space
/// up, except DEL.
pub open spec fn is_value_byte(b: u8) -> bool {
    (b >= 32 && b != 127) || b == 9
}

/// A byte string that is accepted as a header value.
pub open spec fn valid_header_value(bytes: Seq<u8>) -> bool {
    forall|i: int| 0 <= i < bytes.len() ==> is_value_byte(#[trigger] bytes[i])
}

/// The entries of a map that holds nothing.
pub open spec fn no_entries() -> HeaderEntries {
    Map::empty()
}

/// The entries after one more value has been appended under `name`.
pub open spec fn appended(entries: HeaderEntries, name: Seq<u8>, value: Seq<u8>) -> HeaderEntries {
    if entries.dom().contains(name) {
        entries.insert(name, entries[name].push(value))
    } else {
        entries.insert(name, seq![value])
    }
}

/// `content-length`
pub open spec fn content_length_name() -> Seq<u8> {
    seq![99u8, 111, 110, 116, 101, 110, 116, 45, 108, 101, 110, 103, 116, 104]
}

/// `transfer-encoding`
pub open spec fn transfer_encoding_name() -> Seq<u8> {
    seq![116u8, 114, 97, 110, 115, 102, 101, 114, 45, 101, 110, 99, 111, 100, 105, 110, 103]
}

/// `upgrade`
pub open spec fn upgrade_name() -> Seq<u8> {
    seq![117u8, 112, 103, 114, 97, 100, 101]
}

/// `HeaderMap::new`: a map that holds nothing.
#[verifier::external_body]
pub(crate) fn new_header_map() -> (headers: HeaderMap<HeaderValue>)
    ensures
        header_entries(headers) == no_entries(),
        header_count(headers) == 0,
{
    HeaderMap::new()
}

/// `HeaderMap::append`: pushes `value` to the end of the values stored under
/// `name`, creating the list when the name is new, and says whether the name
/// was already there. The outside function panics once the map holds 32768
/// names.
#[verifier::external_body]
pub(crate) fn append_header(map: &mut HeaderMap<HeaderValue>, name: HeaderName, value: HeaderValue) -> (present: bool)
    requires
        header_count(*old(map)) < MAX_HEADER_MAP_ENTRIES,
    ensures
        header_entries(*final(map)) == appended(
            header_entries(*old(map)),
            header_name_bytes(name),
            header_value_bytes(value),
        ),
        header_count(*final(map)) == header_count(*old(map)) + 1,
        present == header_entries(*old(map)).dom().contains(header_name_bytes(name)),
{
    map.append(name, value)
}

/// `HeaderMap::get`: the first value stored under `name`, if there is one.
#[verifier::external_body]
pub(crate) fn get_header<'a>(map: &'a HeaderMap<HeaderValue>, name: &HeaderName) -> (found: Option<&'a HeaderValue>)
    ensures
        found is Some == header_entries(*map).dom().contains(header_name_bytes(*name)),
        found matches Some(value) ==> header_entries(*map)[header_name_bytes(*name)].len() > 0
            && header_value_bytes(*value) == header_entries(*map)[header_name_bytes(*name)][0],
{
    map.get(name)
}

/// `HeaderMap::contains_key`: whether any value is stored under `name`.
#[verifier::external_body]
pub(crate) fn has_header(map: &HeaderMap<HeaderValue>, name: &HeaderName) -> (found: bool)
    ensures
        found == header_entries(*map).dom().contains(header_name_bytes(*name)),
{
    map.contains_key(name)
}

/// `HeaderName::from_bytes`: accepts a non-empty string of name bytes and
/// lower-cases it; refuses anything else. The outside function panics on
/// 65536 bytes or more.
#[verifier::external_body]
pub(crate) fn header_name_from_bytes(bytes: &[u8]) -> (name: Option<HeaderName>)
    requires
        bytes@.len() < MAX_HEADER_NAME_LEN,
    ensures
        name is Some == valid_header_name(bytes@),
        name matches Some(n) ==> header_name_bytes(n) == lowered(bytes@),
{
    HeaderName::from_bytes(bytes).ok()
}

/// `HeaderValue::from_bytes`: accepts a string of value bytes and keeps it as
/// it is; refuses anything else.
#[verifier::external_body]
pub(crate) fn header_value_from_bytes(bytes: &[u8]) -> (value: Option<HeaderValue>)
    ensures
        value is Some == valid_header_value(bytes@),
        value matches Some(v) ==> header_value_bytes(v) == bytes@,
{
    HeaderValue::from_bytes(bytes).ok()
}

/// `HeaderValue::as_bytes`: the value's bytes.
#[verifier::external_body]
pub(crate) fn header_value_as_bytes(value: &HeaderValue) -> (bytes: &[u8])
    ensures
        bytes@ == header_value_bytes(*value),
{
    value.as_bytes()
}

/// `http::header::CONTENT_LENGTH`
#[verifier::external_body]
pub(crate) fn content_length_key() -> (name: HeaderName)
    ensures
        header_name_bytes(name) == content_length_name(),
{
    http::header::CONTENT_LENGTH
}

/// `http::header::TRANSFER_ENCODING`
#[verifier::external_body]
pub(crate) fn transfer_encoding_key() -> (name: HeaderName)
    ensures
        header_name_bytes(name) == transfer_encoding_name(),
{
    http::header::TRANSFER_ENCODING
}

/// `http::header::UPGRADE`
#[verifier::external_body]
pub(crate) fn upgrade_key() -> (name: HeaderName)
    ensures
        header_name_bytes(name) == upgrade_name(),
{
    http::header::UPGRADE
}

} // verus!
