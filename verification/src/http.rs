//! What the library has from `hyper`'s HTTP types: the texts that are methods, URIs,
//! statuses and header fields, and the header map.
//!
//! Everything marked `external_body` here is believed, not proved. Each such item makes
//! one call into `hyper` (or `std`) and states what that call's source shows.
use crate::order::texts;
use vstd::prelude::*;
use vstd::utf8::{decode_utf8, encode_utf8, valid_utf8};

verus! {

/// `hyper::HeaderMap`, opaque but for [`header_contents`].
#[verifier::external_type_specification]
#[verifier::external_body]
#[verifier::reject_recursive_types(T)]
pub struct ExHeaderMap<T>(hyper::HeaderMap<T>);

/// `hyper::header::HeaderValue`, which a header map holds.
#[verifier::external_type_specification]
#[verifier::external_body]
pub struct ExHeaderValue(hyper::header::HeaderValue);

/// `hyper::Body`, a stream that the library passes on unread.
#[verifier::external_type_specification]
#[verifier::external_body]
pub struct ExBody(hyper::Body);

/// `hyper::Uri`, which the library passes on unread.
#[verifier::external_type_specification]
#[verifier::external_body]
pub struct ExUri(hyper::Uri);

/// `hyper::Version`, which the library passes on unread.
#[verifier::external_type_specification]
#[verifier::external_body]
pub struct ExVersion(hyper::Version);

/// `hyper::http::Extensions`, which the library passes on unread.
#[verifier::external_type_specification]
#[verifier::external_body]
pub struct ExExtensions(hyper::http::Extensions);

/// The values of each header field, in the order in which they were appended, under the
/// field's lower-case name.
pub type Fields = Map<Seq<u8>, Seq<Seq<u8>>>;

/// The fields that a header map holds.
pub uninterp spec fn header_contents(headers: hyper::HeaderMap) -> Fields;

/// A header map without fields.
pub open spec fn no_fields() -> Fields {
    Map::empty()
}

/// The number of field names from which on a header map may refuse another one.
pub const FIELD_NAMES_LIMIT: usize = 6554;

/// The lower-case form of a byte of a field name, or 0 for a byte that no field name
/// holds.
pub open spec fn folded_byte(b: u8) -> u8 {
    if 65 <= b <= 90 {
        (b + 32) as u8
    } else if 33 <= b <= 39 || b == 42 || b == 43 || b == 45 || b == 46 || 48 <= b <= 57 || 94 <= b
        <= 122 || b == 124 || b == 126 {
        b
    } else {
        0
    }
}

/// `name` with each byte folded to lower case.
pub open spec fn folded(name: Seq<u8>) -> Seq<u8> {
    name.map_values(|b: u8| folded_byte(b))
}

/// Whether `name` can name a header field.
pub open spec fn valid_field_name(name: Seq<u8>) -> bool {
    &&& 0 < name.len() <= 65535
    &&& forall|i: int| 0 <= i < name.len() ==> folded_byte(#[trigger] name[i]) != 0
}

/// Whether `value` can be the value of a header field.
pub open spec fn valid_field_value(value: Seq<u8>) -> bool {
    forall|i: int|
        0 <= i < value.len() ==> (#[trigger] value[i] >= 32 && value[i] != 127) || value[i] == 9
}

/// The values of the field `name`, whatever the case of its letters.
pub open spec fn values_of(fields: Fields, name: Seq<u8>) -> Seq<Seq<u8>> {
    if fields.contains_key(folded(name)) {
        fields[folded(name)]
    } else {
        Seq::empty()
    }
}

/// `fields` with one more value, the last one, for the field `name`.
pub open spec fn appended(fields: Fields, name: Seq<u8>, value: Seq<u8>) -> Fields {
    fields.insert(folded(name), values_of(fields, name).push(value))
}

/// Whether a request method can hold `b`.
pub open spec fn method_byte(b: u8) -> bool {
    b == 33 || b == 42 || b == 43 || b == 45 || b == 46 || 48 <= b <= 57 || 65 <= b <= 90 || 94 <= b
        <= 122 || b == 124 || b == 126
}

/// Whether `text` is a request method.
pub open spec fn valid_method(text: Seq<u8>) -> bool {
    text.len() > 0 && forall|i: int| 0 <= i < text.len() ==> method_byte(#[trigger] text[i])
}

/// Whether `code` is a status code.
pub open spec fn valid_status(code: u16) -> bool {
    100 <= code < 1000
}

/// The text of the URI that `raw` is read as, or `None` where `raw` is no URI.
pub uninterp spec fn uri_text(raw: Seq<u8>) -> Option<Seq<u8>>;

/// Calls `hyper::HeaderMap::new`. Believed: the map holds no field.
#[verifier::external_body]
pub(crate) fn header_map_new() -> (headers: hyper::HeaderMap)
    ensures
        header_contents(headers) == no_fields(),
{
    hyper::HeaderMap::new()
}

/// Calls `hyper::HeaderMap::keys`. Believed: each field name comes exactly once, in its
/// lower-case form. Their order is left unsaid.
#[verifier::external_body]
pub(crate) fn header_map_keys(headers: &hyper::HeaderMap) -> (names: Vec<Vec<u8>>)
    ensures
        texts(names@).no_duplicates(),
        texts(names@).to_set() == header_contents(*headers).dom(),
{
    headers.keys().map(|name| name.as_str().as_bytes().to_vec()).collect()
}

/// Calls `hyper::HeaderMap::get_all`. Believed: these are the values of the field that
/// `name` names when the case of its letters is ignored, in the order in which they were
/// appended. A text that names no field has no values.
#[verifier::external_body]
pub(crate) fn header_map_get_all(headers: &hyper::HeaderMap, name: &str) -> (values: Vec<Vec<u8>>)
    ensures
        texts(values@) == values_of(header_contents(*headers), encode_utf8(name@)),
{
    headers.get_all(name).iter().map(|value| value.as_bytes().to_vec()).collect()
}

/// Calls `hyper::HeaderMap::try_append`, which is `append` with an error in place of a
/// panic. Believed: the value becomes the last one of the field that `name` names, and
/// nothing else changes; or the map refuses, and keeps what it holds.
///
/// A map refuses where it would have to grow past 32768 slots. It grows only when at least
/// a fifth of its slots are taken, so below 6554 names it never refuses. From there on it
/// depends on how the map was filled, which is left unsaid.
#[verifier::external_body]
pub(crate) fn header_map_try_append(headers: &mut hyper::HeaderMap, name: &str, value: &[u8]) -> (r:
    bool)
    requires
        valid_field_name(encode_utf8(name@)),
        valid_field_value(value@),
    ensures
        r ==> header_contents(*final(headers)) == appended(
            header_contents(*old(headers)),
            encode_utf8(name@),
            value@,
        ),
        !r ==> header_contents(*final(headers)) == header_contents(*old(headers)),
        !r ==> header_contents(*final(headers)).dom().len() >= FIELD_NAMES_LIMIT,
{
    headers.try_append(
        hyper::header::HeaderName::from_bytes(name.as_bytes()).unwrap(),
        hyper::header::HeaderValue::from_bytes(value).unwrap(),
    ).is_ok()
}

/// Calls `hyper::header::HeaderName::from_bytes`. Believed: exactly the valid field names
/// are accepted, and the result is the name in lower case.
#[verifier::external_body]
pub(crate) fn header_name_from_bytes(bytes: &[u8]) -> (r: Option<String>)
    ensures
        match r {
            Some(name) => valid_field_name(bytes@) && encode_utf8(name@) == folded(bytes@),
            None => !valid_field_name(bytes@),
        },
{
    match hyper::header::HeaderName::from_bytes(bytes) {
        Ok(name) => Some(name.as_str().to_string()),
        Err(_) => None,
    }
}

/// Calls `hyper::header::HeaderValue::from_bytes`. Believed: exactly the valid field
/// values are accepted, and the result holds the same bytes.
#[verifier::external_body]
pub(crate) fn header_value_from_bytes(bytes: &[u8]) -> (r: Option<Vec<u8>>)
    ensures
        match r {
            Some(value) => valid_field_value(bytes@) && value@ == bytes@,
            None => !valid_field_value(bytes@),
        },
{
    match hyper::header::HeaderValue::from_bytes(bytes) {
        Ok(value) => Some(value.as_bytes().to_vec()),
        Err(_) => None,
    }
}

/// Calls `hyper::Method::from_bytes`. Believed: exactly the valid methods are accepted,
/// and the method's text is the bytes that were read.
#[verifier::external_body]
pub(crate) fn method_from_bytes(bytes: &[u8]) -> (r: Option<Vec<u8>>)
    ensures
        match r {
            Some(text) => valid_method(bytes@) && text@ == bytes@,
            None => !valid_method(bytes@),
        },
{
    match hyper::Method::from_bytes(bytes) {
        Ok(method) => Some(method.as_str().as_bytes().to_vec()),
        Err(_) => None,
    }
}

/// Calls `hyper::Method::default`. Believed: it is `GET`.
#[verifier::external_body]
pub(crate) fn method_default() -> (text: Vec<u8>)
    ensures
        text@ == seq![71u8, 69u8, 84u8],
{
    hyper::Method::default().as_str().as_bytes().to_vec()
}

/// Calls `hyper::Uri::from_maybe_shared`. Believed: whether `raw` is a URI, and the text
/// that the URI is written as, depend on `raw` alone. Which texts are URIs is left
/// unsaid.
#[verifier::external_body]
pub(crate) fn uri_from_maybe_shared(raw: Vec<u8>) -> (r: Option<Vec<u8>>)
    ensures
        match r {
            Some(text) => uri_text(raw@) == Some(text@),
            None => uri_text(raw@) is None,
        },
{
    match hyper::Uri::from_maybe_shared(raw) {
        Ok(uri) => Some(uri.to_string().into_bytes()),
        Err(_) => None,
    }
}

/// Calls `hyper::Uri::default`. Believed: it is written as `/`.
#[verifier::external_body]
pub(crate) fn uri_default() -> (text: Vec<u8>)
    ensures
        text@ == seq![47u8],
{
    hyper::Uri::default().to_string().into_bytes()
}

/// Calls `hyper::StatusCode::from_u16`. Believed: exactly the codes from 100 to 999 are
/// accepted, and the error reads `invalid status code`.
#[verifier::external_body]
pub(crate) fn status_from_u16(code: u16) -> (r: Result<u16, String>)
    ensures
        match r {
            Ok(status) => valid_status(code) && status == code,
            Err(message) => !valid_status(code) && message@ == "invalid status code"@,
        },
{
    match hyper::StatusCode::from_u16(code) {
        Ok(status) => Ok(status.as_u16()),
        Err(error) => Err(error.to_string()),
    }
}

/// Calls `hyper::StatusCode::default`. Believed: it is 200.
#[verifier::external_body]
pub(crate) fn status_default() -> (status: u16)
    ensures
        status == 200,
{
    hyper::StatusCode::default().as_u16()
}

/// Calls `std::str::from_utf8`. Believed: exactly the valid UTF-8 texts are accepted, and
/// the result holds the characters that they encode.
#[verifier::external_body]
pub(crate) fn str_from_utf8(bytes: &[u8]) -> (r: Option<String>)
    ensures
        match r {
            Some(text) => valid_utf8(bytes@) && text@ == decode_utf8(bytes@),
            None => !valid_utf8(bytes@),
        },
{
    match std::str::from_utf8(bytes) {
        Ok(text) => Some(text.to_string()),
        Err(_) => None,
    }
}

/// Folding a name twice does no more than folding it once.
pub proof fn lemma_folded_is_idempotent(name: Seq<u8>)
    ensures
        folded(folded(name)) == folded(name),
{
    assert(folded(folded(name)) =~= folded(name));
}

/// A valid field name stays valid when it is folded.
pub proof fn lemma_folded_is_valid(name: Seq<u8>)
    requires
        valid_field_name(name),
    ensures
        valid_field_name(folded(name)),
{
    assert forall|i: int| 0 <= i < folded(name).len() implies folded_byte(
        #[trigger] folded(name)[i],
    ) != 0 by {
        assert(folded_byte(name[i]) != 0);
    }
}

/// A method is not empty and holds letters, digits and `!*+-.^_`|~` alone, however long it is.
pub proof fn law_methods(text: Seq<u8>)
    ensures
        valid_method(text) <==> text.len() > 0 && forall|i: int|
            0 <= i < text.len() ==> is_alphanumeric(#[trigger] text[i]) || seq![
                0x21u8,
                0x2au8,
                0x2bu8,
                0x2du8,
                0x2eu8,
                0x5eu8,
                0x5fu8,
                0x60u8,
                0x7cu8,
                0x7eu8,
            ].contains(text[i]),
{
    let marks = seq![
        0x21u8,
        0x2au8,
        0x2bu8,
        0x2du8,
        0x2eu8,
        0x5eu8,
        0x5fu8,
        0x60u8,
        0x7cu8,
        0x7eu8,
    ];
    assert forall|b: u8| method_byte(b) == (is_alphanumeric(b) || #[trigger] marks.contains(b)) by {
        assert(marks[0] == 0x21 && marks[1] == 0x2a && marks[2] == 0x2b && marks[3] == 0x2d
            && marks[4] == 0x2e && marks[5] == 0x5e && marks[6] == 0x5f && marks[7] == 0x60
            && marks[8] == 0x7c && marks[9] == 0x7e);
    }
    assert forall|i: int| 0 <= i < text.len() implies method_byte(#[trigger] text[i]) == (
    is_alphanumeric(text[i]) || marks.contains(text[i])) by {}
}

/// Whether `b` is a letter or a digit.
pub open spec fn is_alphanumeric(b: u8) -> bool {
    0x30 <= b <= 0x39 || 0x41 <= b <= 0x5a || 0x61 <= b <= 0x7a
}

/// A field name has from 1 to 65535 bytes, which are letters, digits and the marks that stand
/// from `!` to `'`, and `*+-.^_`|~`.
pub proof fn law_field_names(name: Seq<u8>)
    ensures
        valid_field_name(name) <==> 1 <= name.len() <= 65535 && forall|i: int|
            0 <= i < name.len() ==> is_alphanumeric(#[trigger] name[i]) || 0x21 <= name[i] <= 0x27
                || name[i] == 0x2a || name[i] == 0x2b || name[i] == 0x2d || name[i] == 0x2e || 0x5e
                <= name[i] <= 0x60 || name[i] == 0x7c || name[i] == 0x7e,
{
    assert forall|b: u8| #[trigger] folded_byte(b) != 0 <==> is_alphanumeric(b) || 0x21 <= b
        <= 0x27 || b == 0x2a || b == 0x2b || b == 0x2d || b == 0x2e || 0x5e <= b <= 0x60 || b
        == 0x7c || b == 0x7e by {}
    assert forall|i: int| 0 <= i < name.len() implies (folded_byte(#[trigger] name[i]) != 0) == (
    is_alphanumeric(name[i]) || 0x21 <= name[i] <= 0x27 || name[i] == 0x2a || name[i] == 0x2b
        || name[i] == 0x2d || name[i] == 0x2e || 0x5e <= name[i] <= 0x60 || name[i] == 0x7c
        || name[i] == 0x7e) by {}
}

/// A field value, however long it is, holds tabs and everything but control characters.
pub proof fn law_field_values(value: Seq<u8>)
    ensures
        valid_field_value(value) <==> !exists|i: int|
            0 <= i < value.len() && #[trigger] value[i] != 9 && (value[i] < 32 || value[i] == 127),
{
}

/// Case folding changes capital letters alone, and tells two field names apart where they
/// differ in more than case.
pub proof fn law_folding_keeps_all_but_case(name: Seq<u8>)
    requires
        valid_field_name(name),
    ensures
        folded(name).len() == name.len(),
        forall|i: int|
            0 <= i < name.len() ==> #[trigger] folded(name)[i] == if 0x41 <= name[i] <= 0x5a {
                (name[i] + 0x20) as u8
            } else {
                name[i]
            },
{
    assert forall|i: int| 0 <= i < name.len() implies #[trigger] folded(name)[i] == if 0x41
        <= name[i] <= 0x5a {
        (name[i] + 0x20) as u8
    } else {
        name[i]
    } by {
        assert(folded_byte(name[i]) != 0);
    }
}

/// The status codes are those from 100 to 999.
pub proof fn law_status_codes(code: u16)
    ensures
        valid_status(code) <==> 99 < code && code <= 999,
{
}

} // verus!
