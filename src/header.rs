use vstd::prelude::*;
use vstd::utf8::encode_utf8;
use crate::log::ServerTimings;
use crate::log::header_value;
use axum_core::response::ResponseParts;
use http::header::MaxSizeReached;
use http::{HeaderName, HeaderValue};
use http::header::InvalidHeaderValue;

verus! {

#[verifier::external_type_specification]
#[verifier::external_body]
pub struct ExResponseParts(ResponseParts);

#[verifier::external_type_specification]
#[verifier::external_body]
pub struct ExHeaderName(HeaderName);

#[verifier::external_type_specification]
#[verifier::external_body]
pub struct ExHeaderValue(HeaderValue);

#[verifier::external_type_specification]
#[verifier::external_body]
pub struct ExInvalidHeaderValue(InvalidHeaderValue);

#[verifier::external_type_specification]
#[verifier::external_body]
pub struct ExMaxSizeReached(MaxSizeReached);

/// The number of header values that a response holds (`HeaderMap::len`).
pub uninterp spec fn header_value_count(res: ResponseParts) -> nat;

/// The header fields of a response: each lower-case field name mapped to
/// the bytes of its values, in the order `HeaderMap::get_all` yields them.
pub uninterp spec fn header_fields(res: ResponseParts) -> Map<Seq<char>, Seq<Seq<u8>>>;

/// The bytes that a header value holds (`HeaderValue::as_bytes`).
pub uninterp spec fn header_value_bytes(v: HeaderValue) -> Seq<u8>;

/// The text of a header name (`HeaderName::as_str`).
pub uninterp spec fn header_name_text(n: HeaderName) -> Seq<char>;

/// The name of the header that carries the timings.
pub open spec fn timing_header_name() -> Seq<char> {
    seq!['s', 'e', 'r', 'v', 'e', 'r', '-', 't', 'i', 'm', 'i', 'n', 'g']
}

/// The values that `fields` holds under `name`: none where the field is
/// absent.
pub open spec fn values_of(fields: Map<Seq<char>, Seq<Seq<u8>>>, name: Seq<char>) -> Seq<Seq<u8>> {
    if fields.contains_key(name) {
        fields[name]
    } else {
        Seq::empty()
    }
}

/// `fields` with `value` added after the values under `name`.
pub open spec fn appended(fields: Map<Seq<char>, Seq<Seq<u8>>>, name: Seq<char>, value: Seq<u8>) -> Map<
    Seq<char>,
    Seq<Seq<u8>>,
> {
    fields.insert(name, values_of(fields, name).push(value))
}

/// Below this many values a header map always has room for one more: it
/// can then still grow to its largest table (`HeaderMap`'s `MAX_SIZE`, with
/// its load factor threshold of 5).
pub open spec fn header_room(res: ResponseParts) -> bool {
    header_value_count(res) < 6554
}

/// A character that `HeaderValue::from_str` accepts: a visible or
/// non-ASCII character, a space or a tab. (Every byte of a non-ASCII
/// character is 0x80 or above.)
pub open spec fn header_char_ok(c: char) -> bool {
    (c >= ' ' && c != '\x7f') || c == '\t'
}

/// Text that `HeaderValue::from_str` accepts.
pub open spec fn header_text_ok(s: Seq<char>) -> bool {
    forall|i: int| 0 <= i < s.len() ==> header_char_ok(#[trigger] s[i])
}

/// Relies on `HeaderName::from_static`, which keeps the name as it is and
/// panics unless the name is a non-empty lower-case token of at most 65535
/// bytes.
#[verifier::external_body]
fn static_header_name(name: &'static str) -> (r: HeaderName)
    requires
        0 < name@.len() <= 65535,
        forall|i: int| 0 <= i < name@.len() ==> ('a' <= #[trigger] name@[i] <= 'z' || name@[i] == '-'),
    ensures
        header_name_text(r) == name@,
{
    HeaderName::from_static(name)
}

/// Relies on `HeaderValue::from_str`: it fails exactly where a byte of the
/// text is a control character other than tab, and otherwise holds the
/// text's UTF-8 bytes.
#[verifier::external_body]
fn parse_header_value(text: &str) -> (r: Result<HeaderValue, InvalidHeaderValue>)
    ensures
        r is Ok <==> header_text_ok(text@),
        r matches Ok(v) ==> header_value_bytes(v) == encode_utf8(text@),
{
    HeaderValue::from_str(text)
}

/// Relies on `HeaderMap::try_append` on the response's headers: on success
/// the value is added after the values under its name; on failure (the map
/// is full) the map is as before, which cannot happen while there is room.
#[verifier::external_body]
fn try_append_header(res: &mut ResponseParts, name: HeaderName, value: HeaderValue) -> (r: Result<bool, MaxSizeReached>)
    ensures
        header_room(*old(res)) ==> r is Ok,
        r is Ok ==> header_value_count(*final(res)) == header_value_count(*old(res)) + 1,
        r is Ok ==> header_fields(*final(res)) == appended(
            header_fields(*old(res)),
            header_name_text(name),
            header_value_bytes(value),
        ),
        r is Err ==> header_value_count(*final(res)) == header_value_count(*old(res)),
        r is Err ==> header_fields(*final(res)) == header_fields(*old(res)),
{
    res.headers_mut().try_append(name, value)
}

/// Whether attaching `log` to a response adds a `server-timing` header value
/// (given room in the header map).
pub open spec fn emits_header(log: ServerTimings) -> bool {
    &&& log.enabled()
    &&& log.entries().len() > 0
    &&& header_text_ok(header_value(log.entries()))
}

impl ServerTimings {
    /// Adds this log's `server-timing` header to a response being built: one
    /// value, the metrics' texts joined by commas, after any values already
    /// under that name; the other fields are kept. Nothing is added where
    /// the log is disabled or empty, or where its text is not a valid header
    /// value; a full header map leaves the response as it was.
    pub fn into_response_parts(self, res: ResponseParts) -> (r: ResponseParts)
        ensures
            !emits_header(self) ==> r == res,
            emits_header(self) && header_room(res) ==> header_value_count(r) == header_value_count(res) + 1,
            emits_header(self) && header_room(res) ==> header_fields(r) == appended(
                header_fields(res),
                timing_header_name(),
                encode_utf8(header_value(self.entries())),
            ),
            emits_header(self) && !header_room(res) ==> (header_fields(r) == header_fields(res)
                || header_fields(r) == appended(
                header_fields(res),
                timing_header_name(),
                encode_utf8(header_value(self.entries())),
            )),
    {
        let mut res = res;
        let text = match self.header_text() {
            Some(t) => t,
            None => return res,
        };
        match parse_header_value(text.as_str()) {
            Ok(value) => {
                proof {
                    reveal_strlit("server-timing");
                }
                let name = static_header_name("server-timing");
                assert(header_name_text(name) =~= timing_header_name());
                let _ = try_append_header(&mut res, name, value);
                res
            },
            Err(_) => res,
        }
    }
}

} // verus!
