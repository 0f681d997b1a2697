//! The request headers that routing reads and writes.

use axum::http::{HeaderMap, HeaderValue};
use axum::http::header::{InvalidHeaderValue, ToStrError};
use vstd::prelude::*;
use vstd::string::StringSliceAdditionalSpecFns;

verus! {

/// The header that carries the key by which requests are kept together.
pub const ROUTING_KEY_HEADER: &'static str = "x-smg-routing-key";

/// The header by which a request names the worker that it wants.
pub const TARGET_WORKER_HEADER: &'static str = "x-smg-target-worker";

/// `http::HeaderMap`, as `axum` exports it.
#[verifier::external_type_specification]
#[verifier::external_body]
#[verifier::reject_recursive_types(Value)]
pub struct ExHeaderMap<Value>(HeaderMap<Value>);

/// `http::HeaderValue`, as `axum` exports it.
#[verifier::external_type_specification]
#[verifier::external_body]
pub struct ExHeaderValue(HeaderValue);

/// The error of `HeaderValue::from_str`.
#[verifier::external_type_specification]
#[verifier::external_body]
pub struct ExInvalidHeaderValue(InvalidHeaderValue);

/// The error of `HeaderValue::to_str`.
#[verifier::external_type_specification]
#[verifier::external_body]
pub struct ExToStrError(ToStrError);

/// What a header map holds: for each name, in lower case, the bytes of its first value.
pub uninterp spec fn header_values(headers: HeaderMap<HeaderValue>) -> Map<Seq<char>, Seq<u8>>;

/// What a header value holds: its bytes.
pub uninterp spec fn value_bytes(value: HeaderValue) -> Seq<u8>;

/// No header at all.
pub open spec fn no_headers() -> Map<Seq<char>, Seq<u8>> {
    Map::empty()
}

/// A name in the form in which header maps keep it: lower-case letters, digits and hyphens.
pub open spec fn is_header_name(name: Seq<char>) -> bool {
    &&& 1 <= name.len() <= 64
    &&& forall|i: int|
        0 <= i < name.len() ==> {
            let c = #[trigger] name[i];
            'a' <= c <= 'z' || '0' <= c <= '9' || c == '-'
        }
}

/// The byte may stand in a header value: any but the control characters, of which only the
/// tab is allowed.
pub open spec fn is_field_byte(byte: u8) -> bool {
    byte >= 32 && byte != 127 || byte == 9
}

/// The byte is a visible ASCII character, a space or a tab.
pub open spec fn is_visible_byte(byte: u8) -> bool {
    32 <= byte < 127 || byte == 9
}

/// Every byte may stand in a header value.
pub open spec fn all_field_bytes(bytes: Seq<u8>) -> bool {
    forall|i: int| 0 <= i < bytes.len() ==> is_field_byte(#[trigger] bytes[i])
}

/// Every byte is visible ASCII, a space or a tab.
pub open spec fn all_visible_bytes(bytes: Seq<u8>) -> bool {
    forall|i: int| 0 <= i < bytes.len() ==> is_visible_byte(#[trigger] bytes[i])
}

/// The characters that ASCII bytes stand for.
pub open spec fn ascii_text(bytes: Seq<u8>) -> Seq<char> {
    Seq::new(bytes.len(), |i: int| bytes[i] as char)
}

/// The bytes that stand for ASCII characters.
pub open spec fn ascii_bytes(text: Seq<char>) -> Seq<u8> {
    Seq::new(text.len(), |i: int| text[i] as u8)
}

/// `HeaderMap::new`: a map without headers.
pub assume_specification[ HeaderMap::<HeaderValue>::new ]() -> (headers: HeaderMap<HeaderValue>)
    ensures
        header_values(headers) == no_headers(),
;

/// `HeaderValue::from_str`: takes the bytes of the string over if each of them may stand in a
/// header value, and refuses the string otherwise.
pub assume_specification[ HeaderValue::from_str ](src: &str) -> (value: Result<
    HeaderValue,
    InvalidHeaderValue,
>)
    ensures
        value is Ok <==> all_field_bytes(src.spec_bytes()),
        value matches Ok(made) ==> value_bytes(made) == src.spec_bytes(),
;

/// `HeaderValue::to_str`: the characters of the value if all of its bytes are visible ASCII,
/// spaces or tabs, and an error otherwise.
pub assume_specification[ HeaderValue::to_str ](value: &HeaderValue) -> (text: Result<
    &str,
    ToStrError,
>)
    ensures
        text is Ok <==> all_visible_bytes(value_bytes(*value)),
        text matches Ok(chars) ==> chars@ == ascii_text(value_bytes(*value)),
;

/// `HeaderMap::insert`: puts the value under the name, in a map that holds nothing yet. The
/// call panics on a name that is no header name and on a map that is full.
#[verifier::external_body]
fn insert_header(headers: &mut HeaderMap<HeaderValue>, name: &'static str, value: HeaderValue)
    requires
        is_header_name(name@),
        header_values(*old(headers)) == no_headers(),
    ensures
        header_values(*final(headers)) == header_values(*old(headers)).insert(
            name@,
            value_bytes(value),
        ),
{
    headers.insert(name, value);
}

/// `HeaderMap::get`: the first value under the name, if there is one.
#[verifier::external_body]
fn get_header<'a>(headers: &'a HeaderMap<HeaderValue>, name: &str) -> (value: Option<
    &'a HeaderValue,
>)
    requires
        is_header_name(name@),
    ensures
        value is Some <==> header_values(*headers).dom().contains(name@),
        value matches Some(found) ==> value_bytes(*found) == header_values(*headers)[name@],
{
    headers.get(name)
}

/// `String::push`: puts a character at the end.
pub assume_specification[ String::push ](text: &mut String, c: char)
    ensures
        final(text)@ == old(text)@.push(c),
;

/// The text under `name`: there is none where the header is missing or is not visible ASCII.
pub open spec fn header_text(values: Map<Seq<char>, Seq<u8>>, name: Seq<char>) -> Option<
    Seq<char>,
> {
    if values.dom().contains(name) && all_visible_bytes(values[name]) {
        Some(ascii_text(values[name]))
    } else {
        None
    }
}

/// What an optional header map holds.
pub open spec fn optional_values(headers: Option<&HeaderMap<HeaderValue>>) -> Option<
    Map<Seq<char>, Seq<u8>>,
> {
    match headers {
        Some(headers) => Some(header_values(*headers)),
        None => None,
    }
}

/// The text under `name` in the headers of a request, if it has headers.
pub open spec fn request_header(
    values: Option<Map<Seq<char>, Seq<u8>>>,
    name: Seq<char>,
) -> Option<Seq<char>> {
    match values {
        Some(values) => header_text(values, name),
        None => None,
    }
}

/// The view of an optional string slice.
pub open spec fn text_view(text: Option<&str>) -> Option<Seq<char>> {
    match text {
        Some(text) => Some(text@),
        None => None,
    }
}

fn read_header<'a>(headers: Option<&'a HeaderMap<HeaderValue>>, name: &str) -> (text: Option<
    &'a str,
>)
    requires
        is_header_name(name@),
    ensures
        text_view(text) == request_header(optional_values(headers), name@),
{
    match headers {
        None => None,
        Some(headers) => match get_header(headers, name) {
            None => None,
            Some(value) => match value.to_str() {
                Ok(text) => Some(text),
                Err(_) => None,
            },
        },
    }
}

proof fn lemma_header_names()
    ensures
        is_header_name(ROUTING_KEY_HEADER@),
        is_header_name(TARGET_WORKER_HEADER@),
{
    reveal_strlit("x-smg-routing-key");
    reveal_strlit("x-smg-target-worker");
}

/// The worker that the request names, if it names one.
pub fn extract_target_worker<'a>(headers: Option<&'a HeaderMap<HeaderValue>>) -> (target: Option<
    &'a str,
>)
    ensures
        text_view(target) == request_header(optional_values(headers), TARGET_WORKER_HEADER@),
{
    proof {
        lemma_header_names();
    }
    read_header(headers, TARGET_WORKER_HEADER)
}

/// The routing key of the request, if it carries one.
pub fn extract_routing_key<'a>(headers: Option<&'a HeaderMap<HeaderValue>>) -> (key: Option<
    &'a str,
>)
    ensures
        text_view(key) == request_header(optional_values(headers), ROUTING_KEY_HEADER@),
{
    proof {
        lemma_header_names();
    }
    read_header(headers, ROUTING_KEY_HEADER)
}

/// The lower-case hexadecimal digit of a number below sixteen.
pub open spec fn hex_digit(nibble: int) -> char {
    if nibble < 10 {
        ('0' as int + nibble) as char
    } else {
        ('a' as int + nibble - 10) as char
    }
}

/// Two hexadecimal digits per byte, the high one first.
pub open spec fn hex_text(bytes: Seq<u8>) -> Seq<char> {
    Seq::new(
        2 * bytes.len(),
        |i: int|
            if i % 2 == 0 {
                hex_digit(bytes[i / 2] as int / 16)
            } else {
                hex_digit(bytes[i / 2] as int % 16)
            },
    )
}

fn hex_char(nibble: u8) -> (c: char)
    requires
        nibble < 16,
    ensures
        c == hex_digit(nibble as int),
{
    if nibble < 10 {
        (48 + nibble) as char
    } else {
        (87 + nibble) as char
    }
}

/// The bytes in lower-case hexadecimal.
pub fn hex_encode(bytes: &[u8]) -> (out: String)
    ensures
        out@ == hex_text(bytes@),
{
    let mut out = String::new();
    let mut i: usize = 0;
    while i < bytes.len()
        invariant
            i <= bytes@.len(),
            out@ == hex_text(bytes@.take(i as int)),
        decreases bytes@.len() - i,
    {
        let byte: u8 = bytes[i];
        assert(byte >> 4 == byte / 16 && byte & 0x0f == byte % 16) by (bit_vector);
        out.push(hex_char(byte >> 4));
        out.push(hex_char(byte & 0x0f));
        i = i + 1;
        assert(out@ =~= hex_text(bytes@.take(i as int)));
    }
    assert(bytes@.take(i as int) =~= bytes@);
    out
}

/// The headers under which one multimodal item is routed: its content hash in hexadecimal as
/// the routing key, and nothing else.
pub open spec fn encode_headers(content_hash: Seq<u8>) -> Map<Seq<char>, Seq<u8>> {
    no_headers().insert(ROUTING_KEY_HEADER@, ascii_bytes(hex_text(content_hash)))
}

proof fn lemma_hex_digits(one: int, other: int)
    requires
        0 <= one < 16,
        0 <= other < 16,
        hex_digit(one) == hex_digit(other),
    ensures
        one == other,
{
}

/// The content of an item decides its routing key: equal contents are routed under one key, and
/// different contents under different keys. The key has two characters per byte.
pub proof fn law_content_decides_routing_key(one: Seq<u8>, other: Seq<u8>)
    ensures
        encode_headers(one) == encode_headers(other) <==> one == other,
        request_header(Some(encode_headers(one)), ROUTING_KEY_HEADER@) == Some(hex_text(one)),
        hex_text(one).len() == 2 * one.len(),
{
    let value = encode_headers(one)[ROUTING_KEY_HEADER@];
    assert(all_visible_bytes(value));
    assert(ascii_text(value) =~= hex_text(one));
    if encode_headers(one) == encode_headers(other) {
        assert(value == encode_headers(other)[ROUTING_KEY_HEADER@]);
        assert(ascii_text(value) =~= hex_text(other));
        assert(hex_text(one).len() == hex_text(other).len());
        assert forall|i: int| 0 <= i < one.len() implies one[i] == other[i] by {
            assert(hex_text(one)[2 * i] == hex_text(other)[2 * i]);
            assert(hex_text(one)[2 * i + 1] == hex_text(other)[2 * i + 1]);
            lemma_hex_digits(one[i] as int / 16, other[i] as int / 16);
            lemma_hex_digits(one[i] as int % 16, other[i] as int % 16);
        }
        assert(one =~= other);
    }
}

/// The headers under which one multimodal item is routed.
pub fn encode_routing_headers(content_hash: &[u8]) -> (headers: HeaderMap<HeaderValue>)
    ensures
        header_values(headers) == encode_headers(content_hash@),
{
    let mut headers = HeaderMap::new();
    let key = hex_encode(content_hash);
    let text: &str = key.as_str();
    proof {
        lemma_header_names();
        assert(text.is_ascii());
        vstd::string::is_ascii_spec_bytes(text);
        assert(text.spec_bytes() =~= ascii_bytes(hex_text(content_hash@)));
        assert(all_field_bytes(text.spec_bytes()));
    }
    if let Ok(value) = HeaderValue::from_str(text) {
        insert_header(&mut headers, ROUTING_KEY_HEADER, value);
    }
    headers
}

} // verus!
