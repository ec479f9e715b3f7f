//! HTTP header fields: what the `http` crate does with them, and how the library reads and sets
//! them.
use crate::error::{CommonError, InvalidValue};
use crate::text::is_readable;
use http::{HeaderMap, HeaderValue};
use vstd::prelude::*;
use vstd::utf8::*;

verus! {

/// `http::HeaderMap`, a multimap from header names to values.
#[verifier::external_type_specification]
#[verifier::external_body]
#[verifier::reject_recursive_types(T)]
pub struct ExHeaderMap<T>(http::HeaderMap<T>);

/// `http::HeaderValue`, the bytes of one header value.
#[verifier::external_type_specification]
#[verifier::external_body]
pub struct ExHeaderValue(http::HeaderValue);

/// `http::header::ToStrError`, which says that a value is not text.
#[verifier::external_type_specification]
#[verifier::external_body]
pub struct ExToStrError(http::header::ToStrError);

/// `http::header::InvalidHeaderValue`, which says that a text cannot be a value.
#[verifier::external_type_specification]
#[verifier::external_body]
pub struct ExInvalidHeaderValue(http::header::InvalidHeaderValue);

/// `http::header::MaxSizeReached`, which says that a map cannot grow.
#[verifier::external_type_specification]
#[verifier::external_body]
pub struct ExMaxSizeReached(http::header::MaxSizeReached);

/// Header fields: each name, in lower case, with its values in the order of their arrival.
pub type Fields = Map<Seq<char>, Seq<Seq<u8>>>;

/// The fields that a header map holds.
pub uninterp spec fn header_fields(
    map: http::HeaderMap<http::HeaderValue>,
) -> Map<Seq<char>, Seq<Seq<u8>>>;

/// The bytes that a header value holds.
pub uninterp spec fn value_bytes(value: http::HeaderValue) -> Seq<u8>;

/// The origin that a request comes from.
pub const ORIGIN: &'static str = "origin";

/// The request headers that a response depends on.
pub const VARY: &'static str = "vary";

/// The method that a preflight request asks leave to use.
pub const ACCESS_CONTROL_REQUEST_METHOD: &'static str = "access-control-request-method";

/// The headers that a preflight request asks leave to send.
pub const ACCESS_CONTROL_REQUEST_HEADERS: &'static str = "access-control-request-headers";

/// The origin that a response is meant for.
pub const ACCESS_CONTROL_ALLOW_ORIGIN: &'static str = "access-control-allow-origin";

/// The methods that a response allows.
pub const ACCESS_CONTROL_ALLOW_METHODS: &'static str = "access-control-allow-methods";

/// The request headers that a response allows.
pub const ACCESS_CONTROL_ALLOW_HEADERS: &'static str = "access-control-allow-headers";

/// The response headers that a script may read.
pub const ACCESS_CONTROL_EXPOSE_HEADERS: &'static str = "access-control-expose-headers";

/// A header map with fewer names than these takes another one, whatever the state of its table.
/// From here on, one whose table has its greatest size and is marked as prone to collisions
/// refuses to take any; the fields that a map holds do not show this.
pub const NAME_LIMIT: usize = 6554;

/// A printable ASCII character, a space or a tab.
pub open spec fn is_visible_ascii(b: u8) -> bool {
    32 <= b < 127 || b == 9
}

/// A byte that a header value can hold: no control character but the tab.
pub open spec fn is_value_byte(b: u8) -> bool {
    (32 <= b && b != 127) || b == 9
}

/// All of `bytes` are visible.
pub open spec fn all_visible(bytes: Seq<u8>) -> bool {
    forall|i: int| 0 <= i < bytes.len() ==> is_visible_ascii(#[trigger] bytes[i])
}

/// The text that ASCII bytes spell.
pub open spec fn ascii_text(bytes: Seq<u8>) -> Seq<char> {
    bytes.map_values(|b: u8| b as char)
}

/// `text` can be the value of a header.
pub open spec fn is_value_text(text: Seq<char>) -> bool {
    forall|i: int|
        0 <= i < encode_utf8(text).len() ==> is_value_byte(#[trigger] encode_utf8(text)[i])
}

/// A header name in lower case, made of letters and hyphens.
pub open spec fn is_field_name(name: Seq<char>) -> bool {
    &&& 1 <= name.len() <= 64
    &&& forall|i: int|
        0 <= i < name.len() ==> ('a' <= #[trigger] name[i] <= 'z' || name[i] == '-')
}

/// A header map with these fields has so many names that it can refuse to take a value.
pub open spec fn may_be_full(fields: Fields) -> bool {
    fields.dom().finite() && fields.dom().len() >= NAME_LIMIT
}

/// With `count` more names, a header map with these fields stays within the limit.
pub open spec fn has_room(fields: Fields, count: nat) -> bool {
    fields.dom().finite() && fields.dom().len() + count <= NAME_LIMIT
}

/// `http::HeaderMap::new`: the map holds nothing.
pub assume_specification[ http::HeaderMap::<http::HeaderValue>::new ]() -> (map: http::HeaderMap<
    http::HeaderValue,
>)
    ensures
        header_fields(map) == Fields::empty(),
;

/// `http::HeaderValue::to_str`: a value whose bytes are all visible is handed out as the text
/// that they spell, and any other is refused.
pub assume_specification[ http::HeaderValue::to_str ](value: &http::HeaderValue) -> (result: Result<
    &str,
    http::header::ToStrError,
>)
    ensures
        result is Ok <==> all_visible(value_bytes(*value)),
        result matches Ok(text) ==> text@ == ascii_text(value_bytes(*value)),
;

/// `http::HeaderValue::from_str`: a text whose UTF-8 bytes can all stand in a header value
/// becomes a value with those bytes, and any other is refused.
pub assume_specification[ http::HeaderValue::from_str ](src: &str) -> (result: Result<
    http::HeaderValue,
    http::header::InvalidHeaderValue,
>)
    ensures
        result is Ok <==> is_value_text(src@),
        result matches Ok(value) ==> value_bytes(value) == encode_utf8(src@),
;

/// `http::HeaderValue::from_static`: a text of visible characters becomes a value with the same
/// bytes. The function panics on any other text.
pub assume_specification[ http::HeaderValue::from_static ](src: &'static str) -> (value:
    http::HeaderValue)
    requires
        all_visible(encode_utf8(src@)),
    ensures
        value_bytes(value) == encode_utf8(src@),
;

/// `http::HeaderMap::get`: the first value of the name, or nothing where the map has no such
/// name.
#[verifier::external_body]
pub(crate) fn header_get<'a>(map: &'a HeaderMap<HeaderValue>, name: &str) -> (found: Option<
    &'a HeaderValue,
>)
    requires
        is_field_name(name@),
    ensures
        match found {
            Some(value) => {
                &&& header_fields(*map).contains_key(name@)
                &&& header_fields(*map)[name@].len() > 0
                &&& value_bytes(*value) == header_fields(*map)[name@][0]
            },
            None => !header_fields(*map).contains_key(name@),
        },
{
    map.get(name)
}

/// `http::HeaderMap::insert`: the value becomes the only one of the name, and the first of the
/// name's earlier values, if it had any, is handed back. The function panics on text that is no
/// header name, and where the map cannot grow, which takes as many names as the limit.
#[verifier::external_body]
pub(crate) fn header_insert(
    map: &mut HeaderMap<HeaderValue>,
    name: &'static str,
    value: HeaderValue,
) -> (earlier: Option<HeaderValue>)
    requires
        is_field_name(name@),
        !may_be_full(header_fields(*old(map))),
    ensures
        header_fields(*final(map)) == header_fields(*old(map)).insert(
            name@,
            seq![value_bytes(value)],
        ),
        match earlier {
            Some(first) => {
                &&& header_fields(*old(map)).contains_key(name@)
                &&& header_fields(*old(map))[name@].len() > 0
                &&& value_bytes(first) == header_fields(*old(map))[name@][0]
            },
            None => !header_fields(*old(map)).contains_key(name@),
        },
{
    map.insert(name, value)
}

/// `http::HeaderMap::try_insert`: does what `insert` does, but where the map cannot grow it says
/// so, and the map holds what it held. This takes as many names as the limit. Whether a map with
/// so many names can grow depends on its table, and is left open. The function panics on text
/// that is no header name.
#[verifier::external_body]
pub(crate) fn header_try_insert(
    map: &mut HeaderMap<HeaderValue>,
    name: &'static str,
    value: HeaderValue,
) -> (result: Result<Option<HeaderValue>, http::header::MaxSizeReached>)
    requires
        is_field_name(name@),
    ensures
        match result {
            Ok(_) => header_fields(*final(map)) == header_fields(*old(map)).insert(
                name@,
                seq![value_bytes(value)],
            ),
            Err(_) => {
                &&& header_fields(*final(map)) == header_fields(*old(map))
                &&& may_be_full(header_fields(*old(map)))
            },
        },
        match result {
            Ok(Some(first)) => {
                &&& header_fields(*old(map)).contains_key(name@)
                &&& header_fields(*old(map))[name@].len() > 0
                &&& value_bytes(first) == header_fields(*old(map))[name@][0]
            },
            Ok(None) => !header_fields(*old(map)).contains_key(name@),
            Err(_) => true,
        },
{
    map.try_insert(name, value)
}

/// What a reader gets of a header.
pub enum Reading {
    /// There is no such header.
    Missing,
    /// Its first value is not text.
    Unreadable,
    /// The text of its first value.
    Text(Seq<char>),
}

/// What a reader gets of the header `name`.
pub open spec fn reading(fields: Fields, name: Seq<char>) -> Reading {
    if !fields.contains_key(name) {
        Reading::Missing
    } else if !all_visible(fields[name][0]) {
        Reading::Unreadable
    } else {
        Reading::Text(ascii_text(fields[name][0]))
    }
}

/// `fields` with `text` as the only value of the header `name`.
pub open spec fn with_field(fields: Fields, name: Seq<char>, text: Seq<char>) -> Fields {
    fields.insert(name, seq![encode_utf8(text)])
}

/// The header names of this module are header names.
pub(crate) proof fn lemma_names()
    ensures
        is_field_name(ORIGIN@),
        is_field_name(VARY@),
        is_field_name(ACCESS_CONTROL_REQUEST_METHOD@),
        is_field_name(ACCESS_CONTROL_REQUEST_HEADERS@),
        is_field_name(ACCESS_CONTROL_ALLOW_ORIGIN@),
        is_field_name(ACCESS_CONTROL_ALLOW_METHODS@),
        is_field_name(ACCESS_CONTROL_ALLOW_HEADERS@),
        is_field_name(ACCESS_CONTROL_EXPOSE_HEADERS@),
{
    reveal_strlit("origin");
    reveal_strlit("vary");
    reveal_strlit("access-control-request-method");
    reveal_strlit("access-control-request-headers");
    reveal_strlit("access-control-allow-origin");
    reveal_strlit("access-control-allow-methods");
    reveal_strlit("access-control-allow-headers");
    reveal_strlit("access-control-expose-headers");
}

/// Setting a header takes the room of one name at most.
pub(crate) proof fn lemma_room(fields: Fields, name: Seq<char>, text: Seq<char>, count: nat)
    requires
        has_room(fields, count),
        count > 0,
    ensures
        has_room(with_field(fields, name, text), (count - 1) as nat),
{
    assert(with_field(fields, name, text).dom() =~= fields.dom().insert(name));
}

/// Readable text is encoded byte for character, can be the value of a header, and is read back
/// from it.
pub proof fn lemma_readable_text(text: Seq<char>)
    requires
        is_readable(text),
    ensures
        all_visible(encode_utf8(text)),
        is_value_text(text),
        ascii_text(encode_utf8(text)) == text,
{
    is_ascii_chars_encode_utf8(text);
    assert(ascii_text(encode_utf8(text)) =~= text);
}

/// Reads the first value of the header `name` as text.
pub(crate) fn read_header<'a>(map: &'a HeaderMap<HeaderValue>, name: &str) -> (result: Result<
    Option<&'a str>,
    CommonError,
>)
    requires
        is_field_name(name@),
    ensures
        match reading(header_fields(*map), name@) {
            Reading::Missing => result == Ok::<Option<&'a str>, CommonError>(None),
            Reading::Unreadable => result == Err::<Option<&'a str>, CommonError>(
                CommonError::InvalidHeader,
            ),
            Reading::Text(text) => is_readable(text) && (result matches Ok(Some(s)) && s@ == text),
        },
{
    match header_get(map, name) {
        None => Ok(None),
        Some(value) => match value.to_str() {
            Ok(text) => {
                assert(is_readable(text@));
                Ok(Some(text))
            },
            Err(_) => Err(CommonError::InvalidHeader),
        },
    }
}

/// Makes `text` the only value of the header `name`. Gives nothing where the map cannot grow.
pub(crate) fn set_header(
    map: &mut HeaderMap<HeaderValue>,
    name: &'static str,
    text: &str,
) -> (result: Option<Result<(), InvalidValue>>)
    requires
        is_field_name(name@),
    ensures
        match result {
            Some(Ok(())) => {
                &&& is_value_text(text@)
                &&& header_fields(*final(map)) == with_field(header_fields(*old(map)), name@, text@)
            },
            Some(Err(_)) => {
                &&& !is_value_text(text@)
                &&& header_fields(*final(map)) == header_fields(*old(map))
            },
            None => {
                &&& is_value_text(text@)
                &&& may_be_full(header_fields(*old(map)))
                &&& header_fields(*final(map)) == header_fields(*old(map))
            },
        },
{
    match HeaderValue::from_str(text) {
        Ok(value) => match header_try_insert(map, name, value) {
            Ok(_) => Some(Ok(())),
            Err(_) => None,
        },
        Err(_) => Some(Err(InvalidValue)),
    }
}

} // verus!
