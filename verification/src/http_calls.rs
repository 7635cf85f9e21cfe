//! The `http` and `uuid` crates as the library uses them: requests,
//! header values, and random request identifiers.
//!
//! An `http::Request<Vec<u8>>` is seen through four names: its method, its
//! URI, its header map (each header name, lowercase, with the values stored
//! under it, in order) and its body.

use vstd::prelude::*;
use vstd::utf8::encode_utf8;
use crate::std_text::ascii_lower;

verus! {

#[verifier::external_type_specification]
#[verifier::external_body]
#[verifier::reject_recursive_types(T)]
pub struct ExHttpRequest<T>(http::Request<T>);

#[verifier::external_type_specification]
#[verifier::external_body]
pub struct ExHeaderValue(http::HeaderValue);

#[verifier::external_type_specification]
#[verifier::external_body]
pub struct ExInvalidHeaderValue(http::header::InvalidHeaderValue);

/// The method of a request, as text.
pub uninterp spec fn request_method(r: http::Request<Vec<u8>>) -> Seq<char>;

/// The URI of a request, as text.
pub uninterp spec fn request_uri(r: http::Request<Vec<u8>>) -> Seq<char>;

/// The header map of a request: each (lowercase) header name with the values
/// stored under it, in order.
pub uninterp spec fn request_headers(r: http::Request<Vec<u8>>) -> Map<Seq<char>, Seq<Seq<u8>>>;

/// The body of a request.
pub uninterp spec fn request_body(r: http::Request<Vec<u8>>) -> Seq<u8>;

/// The protocol version of a request, by the name its `Debug` form shows,
/// such as `HTTP/1.1`.
pub uninterp spec fn request_version(r: http::Request<Vec<u8>>) -> Seq<char>;

/// How many extensions a request carries (`Extensions::len`).
pub uninterp spec fn request_extension_count(r: http::Request<Vec<u8>>) -> nat;

/// The bytes that a header value holds.
pub uninterp spec fn header_value_bytes(v: http::HeaderValue) -> Seq<u8>;

/// A byte that a header value may hold: visible ASCII, a horizontal tab, or
/// any byte from 128 up.
pub open spec fn header_value_byte(b: u8) -> bool {
    (b >= 32 && b != 127) || b == 9
}

/// A header name that `HeaderMap::insert` takes as a `&'static str` without
/// panicking and stores in lowercase: 1 to 64 ASCII letters, digits and `-`.
pub open spec fn plain_header_name(name: Seq<char>) -> bool {
    &&& 1 <= name.len() <= 64
    &&& forall|i: int|
        0 <= i < name.len() ==> {
            let c = #[trigger] name[i];
            ('a' <= c <= 'z') || ('A' <= c <= 'Z') || ('0' <= c <= '9') || c == '-'
        }
}

/// At most this many distinct header names let `HeaderMap::insert` add one
/// more without its table overflowing (the table holds at most 2^15 slots
/// and grows when a fifth of them are taken).
pub open spec fn header_map_room() -> nat {
    6553
}

/// `http::Request::new`.
///
/// Claims: the new request has method `GET`, URI `/`, version `HTTP/1.1`,
/// no headers, no extensions, and the given body.
#[verifier::external_body]
pub(crate) fn blank_request(body: Vec<u8>) -> (r: http::Request<Vec<u8>>)
    ensures
        request_method(r) == "GET"@,
        request_uri(r) == "/"@,
        request_headers(r).dom() == Set::<Seq<char>>::empty(),
        request_body(r) == body@,
        request_version(r) == "HTTP/1.1"@,
        request_extension_count(r) == 0,
{
    http::Request::new(body)
}

/// `HeaderValue::from_str` (what `str::parse::<HeaderValue>` calls).
///
/// Claims: it succeeds exactly when every byte of the UTF-8 text is a
/// `header_value_byte`, and the value then holds those bytes.
#[verifier::external_body]
pub(crate) fn parse_header_value(s: &str) -> (r: Result<http::HeaderValue, http::header::InvalidHeaderValue>)
    ensures
        r is Ok <==> (forall|i: int|
            0 <= i < encode_utf8(s@).len() ==> header_value_byte(#[trigger] encode_utf8(s@)[i])),
        r matches Ok(v) ==> header_value_bytes(v) == encode_utf8(s@),
{
    s.parse::<http::HeaderValue>()
}

/// `HeaderMap::insert` on the headers of a request (through `headers_mut`),
/// with a static header name.
///
/// Claims: the value becomes the only one stored under the lowercase name;
/// the other headers, the method, the URI, the version, the body and the
/// number of extensions stay as they were. The value that was replaced,
/// which the call returns, is dropped. (The extensions themselves are
/// type-erased values; only their number is modelled, though the call
/// leaves them all untouched.)
#[verifier::external_body]
pub(crate) fn insert_header(req: &mut http::Request<Vec<u8>>, name: &'static str, value: http::HeaderValue)
    requires
        plain_header_name(name@),
        request_headers(*old(req)).dom().finite(),
        request_headers(*old(req)).dom().len() <= header_map_room(),
    ensures
        request_headers(*final(req)) == request_headers(*old(req)).insert(
            ascii_lower(name@),
            seq![header_value_bytes(value)],
        ),
        request_method(*final(req)) == request_method(*old(req)),
        request_uri(*final(req)) == request_uri(*old(req)),
        request_body(*final(req)) == request_body(*old(req)),
        request_version(*final(req)) == request_version(*old(req)),
        request_extension_count(*final(req)) == request_extension_count(*old(req)),
{
    req.headers_mut().insert(name, value);
}

/// Whether a 128-bit UUID value is a random (version 4, RFC 4122 variant) UUID.
pub open spec fn is_random_uuid(v: u128) -> bool {
    &&& (v >> 76u128) & 0xfu128 == 4
    &&& (v >> 62u128) & 0x3u128 == 2
}

/// `Uuid::new_v4`, read as its 128-bit big-endian value (`as_u128`).
///
/// Claims only what every outcome has: the version bits say 4 and the variant
/// bits say RFC 4122; the other 122 bits are random. (It panics if the
/// operating system gives no random bytes.)
#[verifier::external_body]
pub(crate) fn random_uuid() -> (v: u128)
    ensures
        is_random_uuid(v),
{
    uuid::Uuid::new_v4().as_u128()
}

/// The lowercase hexadecimal digit for `d` in `0..16`.
pub open spec fn hex_digit(d: int) -> char {
    if d < 10 {
        (d + 48) as char
    } else {
        (d + 87) as char
    }
}

/// Hexadecimal digit number `k` (from the most significant, `0..32`) of `v`.
pub open spec fn uuid_digit(v: u128, k: int) -> int {
    ((v >> ((124 - 4 * k) as u128)) & 0xfu128) as int
}

/// Which hexadecimal digit stands at position `i` of the hyphenated form.
pub open spec fn digit_at(i: int) -> int {
    if i < 8 {
        i
    } else if i < 13 {
        i - 1
    } else if i < 18 {
        i - 2
    } else if i < 23 {
        i - 3
    } else {
        i - 4
    }
}

/// The hyphenated lowercase form of a UUID: its 32 hexadecimal digits in
/// groups of 8, 4, 4, 4 and 12, joined by `-`.
pub open spec fn uuid_hyphenated(v: u128) -> Seq<char> {
    Seq::new(
        36,
        |i: int|
            if i == 8 || i == 13 || i == 18 || i == 23 {
                '-'
            } else {
                hex_digit(uuid_digit(v, digit_at(i)))
            },
    )
}

/// `Uuid::to_string` for the UUID with the given 128-bit value (`from_u128`).
///
/// Claims: the text is the hyphenated lowercase form.
#[verifier::external_body]
pub(crate) fn uuid_text(v: u128) -> (s: String)
    ensures
        s@ == uuid_hyphenated(v),
{
    uuid::Uuid::from_u128(v).to_string()
}

} // verus!
