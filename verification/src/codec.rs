//! Payload encoding (standard base64, as the `base64` crate computes it),
//! UTF-8 decoding of received bytes, and the clocks the protocol reads.

use vstd::prelude::*;
use vstd::utf8::{decode_utf8, valid_utf8};

verus! {

#[verifier::external_type_specification]
#[verifier::external_body]
pub struct ExDecodeError(base64::DecodeError);

#[verifier::external_type_specification]
#[verifier::external_body]
pub struct ExFromUtf8Error(std::string::FromUtf8Error);

/// The text that the `base64` crate's STANDARD engine (standard alphabet,
/// with padding) gives for `data`.
pub uninterp spec fn base64_encoding(data: Seq<u8>) -> Seq<char>;

/// What the STANDARD engine decodes from `text`: `None` when it refuses the
/// text.
pub uninterp spec fn base64_decoding(text: Seq<char>) -> Option<Seq<u8>>;

/// The longest input whose encoding the STANDARD engine can allocate: the
/// encoded text (four characters per three bytes) must fit in `isize`.
pub open spec fn max_encodable_len() -> int {
    (isize::MAX as int) / 4 * 3
}

/// The longest input `encode_payload` takes, for callers to test against.
pub fn encodable_limit() -> (n: usize)
    ensures
        n == max_encodable_len(),
{
    (isize::MAX as usize) / 4 * 3
}

/// Calls `base64::Engine::encode` on `base64::engine::general_purpose::STANDARD`.
/// Claimed: the result is the STANDARD encoding of `data`, and decoding it
/// with the same engine gives `data` back (the engine's documented round
/// trip). The engine panics when the encoded length overflows, which the
/// `requires` leaves out.
#[verifier::external_body]
fn base64_standard_encode(data: &[u8]) -> (s: String)
    requires
        data@.len() <= max_encodable_len(),
    ensures
        s@ == base64_encoding(data@),
        base64_decoding(s@) == Some(data@),
{
    base64::Engine::encode(&base64::engine::general_purpose::STANDARD, data)
}

/// Calls `base64::Engine::decode` on `base64::engine::general_purpose::STANDARD`
/// with the bytes of `text`. Claimed: it succeeds exactly when the engine
/// accepts the text, and then gives the decoded bytes.
#[verifier::external_body]
fn base64_standard_decode(text: &str) -> (r: Result<Vec<u8>, base64::DecodeError>)
    ensures
        r is Ok <==> base64_decoding(text@) is Some,
        r matches Ok(v) ==> base64_decoding(text@) == Some(v@),
{
    base64::Engine::decode(&base64::engine::general_purpose::STANDARD, text)
}

/// Why a received payload could not be used.
#[derive(Debug, Clone, PartialEq, Eq, Structural)]
pub enum PayloadError {
    /// The payload is not valid standard base64.
    InvalidBase64,
    /// The decoded bytes are not valid UTF-8.
    InvalidUtf8,
}

/// Encodes data as a standard base64 payload. Decoding the result gives the
/// data back.
pub fn encode_payload(data: &[u8]) -> (s: String)
    requires
        data@.len() <= max_encodable_len(),
    ensures
        s@ == base64_encoding(data@),
        base64_decoding(s@) == Some(data@),
{
    base64_standard_encode(data)
}

/// Decodes a standard base64 payload.
pub fn decode_payload(payload: &str) -> (r: Result<Vec<u8>, PayloadError>)
    ensures
        match r {
            Ok(v) => base64_decoding(payload@) == Some(v@),
            Err(e) => base64_decoding(payload@) is None && e == PayloadError::InvalidBase64,
        },
{
    match base64_standard_decode(payload) {
        Ok(v) => Ok(v),
        Err(_) => Err(PayloadError::InvalidBase64),
    }
}

/// Calls `String::from_utf8`. Claimed, as std documents it: it succeeds
/// exactly when the bytes are valid UTF-8, and the string then holds the
/// decoded characters.
#[verifier::external_body]
fn string_from_utf8(bytes: Vec<u8>) -> (r: Result<String, std::string::FromUtf8Error>)
    ensures
        r is Ok <==> valid_utf8(bytes@),
        r matches Ok(s) ==> s@ == decode_utf8(bytes@),
{
    String::from_utf8(bytes)
}

/// Decodes a base64 payload that carries UTF-8 text (a command line).
pub fn decode_text_payload(payload: &str) -> (r: Result<String, PayloadError>)
    ensures
        match r {
            Ok(s) => base64_decoding(payload@) matches Some(b) && valid_utf8(b) && s@
                == decode_utf8(b),
            Err(PayloadError::InvalidBase64) => base64_decoding(payload@) is None,
            Err(PayloadError::InvalidUtf8) => base64_decoding(payload@) matches Some(b)
                && !valid_utf8(b),
        },
{
    let bytes = decode_payload(payload)?;
    match string_from_utf8(bytes) {
        Ok(s) => Ok(s),
        Err(_) => Err(PayloadError::InvalidUtf8),
    }
}

/// Calls `std::time::SystemTime::elapsed` on `UNIX_EPOCH`. Nothing is
/// claimed: the result depends on the clock (`None` when it reads before
/// 1970).
#[verifier::external_body]
fn unix_epoch_elapsed() -> Option<std::time::Duration> {
    std::time::UNIX_EPOCH.elapsed().ok()
}

/// Calls `std::time::Duration::as_secs`. Nothing is claimed: a `Duration`
/// is opaque here.
#[verifier::external_body]
fn duration_secs(d: &std::time::Duration) -> u64 {
    d.as_secs()
}

/// Calls `std::time::Duration::subsec_nanos`. Claimed, as std documents it:
/// the value is the fraction of a second, below one billion.
#[verifier::external_body]
fn duration_subsec_nanos(d: &std::time::Duration) -> (n: u32)
    ensures
        n < 1_000_000_000,
{
    d.subsec_nanos()
}

/// Whole milliseconds in `secs` seconds and `nanos` nanoseconds.
pub open spec fn whole_millis(secs: u64, nanos: u32) -> int {
    secs * 1000 + nanos / 1_000_000
}

/// The whole milliseconds of a span given as seconds and nanoseconds (what
/// `Duration::as_millis` counts).
pub fn millis_of(secs: u64, nanos: u32) -> (m: u128)
    ensures
        m == whole_millis(secs, nanos),
{
    (secs as u128) * 1000 + (nanos / 1_000_000) as u128
}

/// A millisecond count as the signed timestamp carried in PING/PONG
/// messages (the low 64 bits, as `as i64` keeps them).
pub fn millis_to_timestamp(millis: u128) -> (t: i64)
    ensures
        t == millis as i64,
{
    millis as i64
}

/// The PING/PONG timestamp for a clock reading: `elapsed` is the time since
/// 1970 as seconds and nanoseconds, or `None` when the clock reads before
/// 1970, which gives 0.
pub fn timestamp_from_elapsed(elapsed: Option<(u64, u32)>) -> (t: i64)
    ensures
        match elapsed {
            None => t == 0,
            Some((s, n)) => t == whole_millis(s, n) as i64,
        },
{
    match elapsed {
        Some((secs, nanos)) => millis_to_timestamp(millis_of(secs, nanos)),
        None => 0,
    }
}

/// Milliseconds since the Unix epoch, by the system clock (see
/// `timestamp_from_elapsed`: a clock that reads before 1970 gives 0).
pub fn timestamp_ms() -> i64 {
    let elapsed = match unix_epoch_elapsed() {
        Some(d) => Some((duration_secs(&d), duration_subsec_nanos(&d))),
        None => None,
    };
    timestamp_from_elapsed(elapsed)
}

/// A UTC instant: seconds since the Unix epoch and nanoseconds within the
/// second (as `chrono::DateTime<Utc>` reports them).
#[derive(Debug, Clone, Copy, PartialEq, Eq, Structural)]
pub struct UtcTime {
    pub secs: i64,
    pub nanos: u32,
}

/// The last second chrono represents: 262142-12-31T23:59:59Z.
pub open spec fn chrono_max_secs() -> int {
    8_210_266_876_799
}

/// Calls `chrono::DateTime::<Utc>::from_timestamp` and reads the instant
/// back with `timestamp` and `timestamp_subsec_nanos`. Claimed, as chrono's
/// source shows: an instant it makes reads back as the seconds and
/// nanoseconds it was made from, and it makes one for every second from
/// 1970 up to the last it represents with nanoseconds below one billion.
/// When else it gives `None` is left unsaid.
#[verifier::external_body]
fn utc_from_timestamp(secs: i64, nanos: u32) -> (r: Option<UtcTime>)
    ensures
        r matches Some(t) ==> t == (UtcTime { secs, nanos }),
        0 <= secs <= chrono_max_secs() && nanos < 1_000_000_000 ==> r == Some(
            UtcTime { secs, nanos },
        ),
{
    chrono::DateTime::<chrono::Utc>::from_timestamp(secs, nanos).map(
        |t| UtcTime { secs: t.timestamp(), nanos: t.timestamp_subsec_nanos() },
    )
}

/// The UTC instant `secs` seconds and `nanos` nanoseconds after 1970, as
/// chrono makes it: there is none beyond `i64` seconds, and there is one for
/// every second up to the last chrono represents.
pub fn utc_from_elapsed(secs: u64, nanos: u32) -> (r: Option<UtcTime>)
    ensures
        secs > i64::MAX ==> r is None,
        r matches Some(t) ==> t.secs == secs && t.nanos == nanos,
        secs <= chrono_max_secs() && nanos < 1_000_000_000 ==> r == Some(
            UtcTime { secs: secs as i64, nanos },
        ),
{
    if secs > i64::MAX as u64 {
        return None;
    }
    utc_from_timestamp(secs as i64, nanos)
}

/// The current UTC instant by the system clock, read as chrono reads it
/// (seconds and nanoseconds since 1970; see `utc_from_elapsed`); `None` when
/// the clock reads before 1970 or beyond what chrono represents.
pub fn utc_now() -> (r: Option<UtcTime>)
    ensures
        r matches Some(t) ==> t.secs >= 0 && t.nanos < 1_000_000_000,
{
    match unix_epoch_elapsed() {
        None => None,
        Some(d) => utc_from_elapsed(duration_secs(&d), duration_subsec_nanos(&d)),
    }
}

/// The current UTC instant, or the epoch when the clock cannot be read as
/// one.
pub fn utc_now_or_epoch() -> (t: UtcTime)
    ensures
        t.secs >= 0,
        t.nanos < 1_000_000_000,
{
    match utc_now() {
        Some(t) => t,
        None => UtcTime { secs: 0, nanos: 0 },
    }
}

/// The milliseconds since 1970 of an instant (`timestamp_millis`).
pub open spec fn utc_millis(t: UtcTime) -> int {
    t.secs * 1000 + t.nanos / 1_000_000
}

/// The milliseconds since 1970 of an instant, when they fit in an `i64`.
pub fn millis_since_epoch(t: UtcTime) -> (r: Option<i64>)
    ensures
        match r {
            Some(m) => m == utc_millis(t),
            None => utc_millis(t) < i64::MIN || utc_millis(t) > i64::MAX,
        },
{
    let m: i128 = (t.secs as i128) * 1000 + (t.nanos / 1_000_000) as i128;
    if m < i64::MIN as i128 || m > i64::MAX as i128 {
        None
    } else {
        Some(m as i64)
    }
}

/// The current time in milliseconds since 1970 by the UTC clock; 0 when
/// the clock cannot be read as an instant.
pub fn utc_millis_now() -> (r: i64)
    ensures
        r >= 0,
{
    match utc_now() {
        Some(t) => match millis_since_epoch(t) {
            Some(m) => m,
            None => 0,
        },
        None => 0,
    }
}

} // verus!
