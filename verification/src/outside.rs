//! The calls into other crates, and the few calls into the standard library
//! that have no specification yet. Everything here is believed, not proved;
//! each item says what is claimed of the function behind it.
use rand::Rng;
use rand::RngCore;
use vstd::prelude::*;
use vstd::utf8::*;

use crate::text::ascii_lower;

verus! {

/// One of the sixteen hexadecimal digits, in capitals or not.
pub open spec fn hex_digit(d: int, capital: bool) -> char {
    if d < 10 {
        (48 + d) as char
    } else if capital {
        (55 + d) as char
    } else {
        (87 + d) as char
    }
}

/// An ASCII letter or an ASCII digit.
pub open spec fn is_alphanumeric_byte(b: u8) -> bool {
    ||| 48 <= b <= 57
    ||| 65 <= b <= 90
    ||| 97 <= b <= 122
}

/// A letter or digit stands for itself; any other byte becomes a percent
/// sign and two capital hexadecimal digits.
pub open spec fn percent_byte(b: u8) -> Seq<char> {
    if is_alphanumeric_byte(b) {
        seq![b as char]
    } else {
        seq!['%', hex_digit(b as int / 16, true), hex_digit(b as int % 16, true)]
    }
}

/// The bytes in percent-encoding, one after the other.
pub open spec fn percent_bytes(bytes: Seq<u8>) -> Seq<char>
    decreases bytes.len(),
{
    if bytes.len() == 0 {
        Seq::empty()
    } else {
        percent_bytes(bytes.drop_last()) + percent_byte(bytes.last())
    }
}

/// `percent_encoding::utf8_percent_encode` with `NON_ALPHANUMERIC`: the UTF-8
/// bytes of the text, each of them kept if it is an ASCII letter or digit and
/// written as `%XX` otherwise.
#[verifier::external_body]
pub(crate) fn percent_encode(text: &str) -> (r: String)
    ensures
        r@ == percent_bytes(encode_utf8(text@)),
{
    percent_encoding::utf8_percent_encode(text, percent_encoding::NON_ALPHANUMERIC).to_string()
}

/// Two lower-case hexadecimal digits for each byte.
pub open spec fn hex_bytes(bytes: Seq<u8>) -> Seq<char>
    decreases bytes.len(),
{
    if bytes.len() == 0 {
        Seq::empty()
    } else {
        hex_bytes(bytes.drop_last()) + seq![
            hex_digit(bytes.last() as int / 16, false),
            hex_digit(bytes.last() as int % 16, false),
        ]
    }
}

/// `hex::encode`: two lower-case hexadecimal digits for each byte, in order.
#[verifier::external_body]
pub(crate) fn hex_encode(bytes: &Vec<u8>) -> (r: String)
    ensures
        r@ == hex_bytes(bytes@),
{
    hex::encode(bytes)
}

/// `rand::RngCore::fill_bytes` of the thread's generator. Which bytes come is
/// left to chance; only their number is known.
#[verifier::external_body]
pub(crate) fn random_bytes(n: usize) -> (r: Vec<u8>)
    ensures
        r@.len() == n,
{
    let mut bytes = vec![0u8; n];
    rand::thread_rng().fill_bytes(&mut bytes);
    bytes
}

/// `rand::Rng::gen_range` of the thread's generator over `0..bound`. Which
/// number comes is left to chance; it lies in the range.
#[verifier::external_body]
pub(crate) fn random_below(bound: usize) -> (r: usize)
    requires
        bound > 0,
    ensures
        r < bound,
{
    rand::thread_rng().gen_range(0..bound)
}

/// The RFC 3339 text, in UTC, of a point in time given in seconds since 1970
/// and nanoseconds; none for a point that the calendar does not reach.
pub uninterp spec fn rfc3339_text(secs: i64, nanos: u32) -> Option<Seq<char>>;

/// The last second of the calendar of `chrono`, at the end of the year 262142.
pub const CALENDAR_END_SECS: i64 = 8_210_266_876_799;

/// `chrono::DateTime::from_timestamp` and `to_rfc3339` of what it gives. The
/// text depends on the two numbers alone, and there is one for every second
/// from 1970 to the end of the calendar; how it is written is not stated, nor
/// what comes of other numbers.
#[verifier::external_body]
pub(crate) fn rfc3339(secs: i64, nanos: u32) -> (r: Option<String>)
    ensures
        match r {
            Some(s) => rfc3339_text(secs, nanos) == Some(s@),
            None => rfc3339_text(secs, nanos) is None,
        },
        0 <= secs <= CALENDAR_END_SECS && nanos < 1_000_000_000 ==> r is Some,
{
    chrono::DateTime::from_timestamp(secs, nanos).map(|t| t.to_rfc3339())
}

/// `chrono::Utc::now`: the clock, in whole seconds since 1970 and
/// nanoseconds. What the clock shows is not stated, only that it is a point
/// in time of the calendar, not before 1970, and that the nanoseconds stay
/// below one second.
#[verifier::external_body]
pub(crate) fn clock() -> (r: (i64, u32))
    ensures
        0 <= r.0 <= CALENDAR_END_SECS,
        r.1 < 1_000_000_000,
{
    let now = chrono::Utc::now();
    (now.timestamp(), now.timestamp_subsec_nanos())
}

/// The media type that `mime_guess` lists first for a file extension, or
/// `application/octet-stream`.
pub uninterp spec fn guessed_mime(extension: Seq<char>) -> Seq<char>;

/// `mime_guess::from_ext` and `first_or_octet_stream`: the media type of an
/// extension; an empty one has none and gets `application/octet-stream`. The
/// list of the others is not stated.
#[verifier::external_body]
pub(crate) fn guess_mime(extension: &str) -> (r: String)
    ensures
        r@ == guessed_mime(extension@),
        extension@.len() == 0 ==> r@ == "application/octet-stream"@,
{
    mime_guess::from_ext(extension).first_or_octet_stream().to_string()
}

/// The text that `String::from_utf8_lossy` makes of bytes.
pub uninterp spec fn lossy_utf8(bytes: Seq<u8>) -> Seq<char>;

/// `String::from_utf8_lossy`: valid UTF-8 becomes the text that it encodes;
/// elsewhere replacement characters stand for what is not valid.
#[verifier::external_body]
pub(crate) fn text_from_utf8_lossy(bytes: &Vec<u8>) -> (r: String)
    ensures
        r@ == lossy_utf8(bytes@),
        valid_utf8(bytes@) ==> r@ == decode_utf8(bytes@),
{
    String::from_utf8_lossy(bytes).into_owned()
}

/// The text that `str::to_lowercase` gives.
pub uninterp spec fn lowercase(s: Seq<char>) -> Seq<char>;

/// `str::to_lowercase`, by the Unicode rules. A text of ASCII characters
/// changes in its capitals alone.
#[verifier::external_body]
pub(crate) fn to_lowercase(s: &str) -> (r: String)
    ensures
        r@ == lowercase(s@),
        is_ascii_chars(s@) ==> r@ == ascii_lower(s@),
{
    s.to_lowercase()
}

/// `bytes::BytesMut`, a growing buffer of bytes.
#[verifier::external_type_specification]
#[verifier::external_body]
pub struct ExBytesMut(bytes::BytesMut);

/// The bytes that a buffer holds.
pub uninterp spec fn buffer_bytes(b: bytes::BytesMut) -> Seq<u8>;

/// `BytesMut::with_capacity` gives an empty buffer.
pub assume_specification[ bytes::BytesMut::with_capacity ](capacity: usize) -> (r: bytes::BytesMut)
    requires
        capacity <= isize::MAX,
    ensures
        buffer_bytes(r) == Seq::<u8>::empty(),
;

/// `BytesMut::len` is the number of bytes held.
pub assume_specification[ bytes::BytesMut::len ](b: &bytes::BytesMut) -> (r: usize)
    ensures
        r == buffer_bytes(*b).len(),
;

/// `BytesMut::extend_from_slice` adds bytes at the end.
pub assume_specification[ bytes::BytesMut::extend_from_slice ](
    b: &mut bytes::BytesMut,
    extend: &[u8],
)
    requires
        buffer_bytes(*old(b)).len() + extend@.len() <= isize::MAX,
    ensures
        buffer_bytes(*final(b)) == buffer_bytes(*old(b)) + extend@,
;

/// `BytesMut::split_to` takes the first `at` bytes out of the buffer.
pub assume_specification[ bytes::BytesMut::split_to ](b: &mut bytes::BytesMut, at: usize) -> (r:
    bytes::BytesMut)
    requires
        at <= buffer_bytes(*old(b)).len(),
    ensures
        buffer_bytes(r) == buffer_bytes(*old(b)).take(at as int),
        buffer_bytes(*final(b)) == buffer_bytes(*old(b)).skip(at as int),
;

/// `BytesMut::freeze` and a copy of its bytes.
#[verifier::external_body]
pub(crate) fn buffer_to_vec(b: bytes::BytesMut) -> (r: Vec<u8>)
    ensures
        r@ == buffer_bytes(b),
{
    b.freeze().to_vec()
}

/// What the service reads of a JSON reply of the Telegram Bot API: `ok`,
/// `description`, `result.username` and `result.message_id`, each of them
/// only where it is there and of the expected type.
pub struct ReplyFields {
    pub ok: Option<bool>,
    pub description: Option<String>,
    pub username: Option<String>,
    pub message_id: Option<i64>,
}

/// The fields of `ReplyFields` in a JSON text, in their order; none where the
/// bytes are no JSON.
pub uninterp spec fn json_fields(body: Seq<u8>) -> Option<
    (Option<bool>, Option<Seq<char>>, Option<Seq<char>>, Option<i64>),
>;

/// `serde_json::from_slice` into a `Value`, and the four fields of it. They
/// depend on the bytes alone; which bytes are JSON is not stated.
#[verifier::external_body]
pub(crate) fn json_reply(body: &Vec<u8>) -> (r: Option<ReplyFields>)
    ensures
        match r {
            Some(f) => json_fields(body@) == Some(
                (
                    f.ok,
                    crate::text::opt_view(f.description),
                    crate::text::opt_view(f.username),
                    f.message_id,
                ),
            ),
            None => json_fields(body@) is None,
        },
{
    let v: serde_json::Value = serde_json::from_slice(body).ok()?;
    Some(ReplyFields {
        ok: v["ok"].as_bool(),
        description: v["description"].as_str().map(|s| s.to_string()),
        username: v["result"]["username"].as_str().map(|s| s.to_string()),
        message_id: v["result"]["message_id"].as_i64(),
    })
}

/// `openidconnect::IssuerUrl::new` accepts the text.
pub uninterp spec fn issuer_url_accepted(url: Seq<char>) -> bool;

/// `openidconnect::RedirectUrl::new` accepts the text.
pub uninterp spec fn redirect_url_accepted(url: Seq<char>) -> bool;

/// Whether `openidconnect::IssuerUrl::new` accepts the text. That depends on
/// the text alone; which texts it accepts is not stated.
#[verifier::external_body]
pub(crate) fn is_issuer_url(url: &str) -> (r: bool)
    ensures
        r == issuer_url_accepted(url@),
{
    openidconnect::IssuerUrl::new(url.to_string()).is_ok()
}

/// Whether `openidconnect::RedirectUrl::new` accepts the text. That depends on
/// the text alone; which texts it accepts is not stated.
#[verifier::external_body]
pub(crate) fn is_redirect_url(url: &str) -> (r: bool)
    ensures
        r == redirect_url_accepted(url@),
{
    openidconnect::RedirectUrl::new(url.to_string()).is_ok()
}

} // verus!
