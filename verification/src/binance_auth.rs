//! Signed requests: signatures and the offset to the exchange's clock.
use crate::clock::unix_ms;
use crate::fixed::clamped;
use crate::text::{nat_text, u64_string};
use hmac::Mac;
use vstd::prelude::*;
use vstd::string::StringSliceAdditionalSpecFns;

verus! {

/// The HMAC-SHA256 code that the `hmac` and `sha2` crates give for a key and a
/// message.
pub uninterp spec fn hmac_sha256(key: Seq<u8>, message: Seq<u8>) -> Seq<u8>;

/// `Hmac::<Sha256>`: the code of a message under a key of any length, named by
/// [`hmac_sha256`]. It has 32 bytes.
#[verifier::external_body]
fn hmac_code(key: &[u8], message: &[u8]) -> (code: Vec<u8>)
    ensures
        code@ == hmac_sha256(key@, message@),
        code@.len() == 32,
{
    let mut mac = hmac::Hmac::<sha2::Sha256>::new_from_slice(key).expect("any key length");
    mac.update(message);
    mac.finalize().into_bytes().to_vec()
}

/// A hexadecimal digit, in lower case.
pub open spec fn hex_digit(d: int) -> char {
    if d < 10 {
        (('0' as int) + d) as char
    } else {
        (('a' as int) + d - 10) as char
    }
}

/// Bytes in hexadecimal: two digits for each byte, the high one first.
pub open spec fn hex_text(bytes: Seq<u8>) -> Seq<char> {
    Seq::new(
        2 * bytes.len(),
        |i: int|
            hex_digit(
                if i % 2 == 0 {
                    bytes[i / 2] as int / 16
                } else {
                    bytes[i / 2] as int % 16
                },
            ),
    )
}

/// `hex::encode`: two lower-case digits for each byte.
#[verifier::external_body]
pub(crate) fn hex_string(bytes: &[u8]) -> (s: String)
    ensures
        s@ == hex_text(bytes@),
{
    hex::encode(bytes)
}

/// The signature of a payload: its HMAC-SHA256 code under the secret, in
/// hexadecimal.
pub fn sign_hmac_sha256_hex(secret: &str, payload: &str) -> (s: String)
    ensures
        s@ == hex_text(hmac_sha256(secret.spec_bytes(), payload.spec_bytes())),
        s@.len() == 64,
{
    let code: Vec<u8> = hmac_code(secret.as_bytes(), payload.as_bytes());
    hex_string(code.as_slice())
}

/// The milliseconds since the Unix epoch, `None` where the system clock stands
/// before it. Any count may come back.
pub fn now_ms() -> Option<u64> {
    unix_ms()
}

/// What is known of the exchange's clock.
#[derive(Clone, Copy, Debug, PartialEq, Eq, Structural)]
pub struct ServerClock {
    /// How far the exchange's clock is ahead of the local one.
    pub offset_ms: i64,
    /// When the offset was last asked for, in local time; zero before the first
    /// time.
    pub last_sync_ms: u64,
}

impl Default for ServerClock {
    fn default() -> (c: ServerClock)
        ensures
            c == (ServerClock { offset_ms: 0, last_sync_ms: 0 }),
    {
        ServerClock { offset_ms: 0, last_sync_ms: 0 }
    }
}

/// A count of milliseconds as a signed 64-bit number.
pub open spec fn signed_ms(t: u64) -> int {
    if t <= i64::MAX {
        t as int
    } else {
        t - 0x1_0000_0000_0000_0000
    }
}

fn to_signed_ms(t: u64) -> (r: i128)
    ensures
        r == signed_ms(t),
        i64::MIN <= r <= i64::MAX,
{
    if t <= 0x7fff_ffff_ffff_ffff {
        t as i128
    } else {
        t as i128 - 0x1_0000_0000_0000_0000
    }
}

/// A number moved into the range of signed 64-bit numbers.
pub open spec fn to_i64(x: int) -> int {
    clamped(x, i64::MIN as int, i64::MAX as int)
}

/// Local time moved by an offset, and never below zero.
pub open spec fn shifted_ms(local: u64, offset_ms: i64) -> int {
    let t = to_i64(signed_ms(local) + offset_ms);
    if t < 0 {
        0
    } else {
        t
    }
}

/// The exchange's time, given the local time. See [`shifted_ms`].
pub fn server_ms_at(clock: &ServerClock, local_ms: u64) -> (r: u64)
    ensures
        r == shifted_ms(local_ms, clock.offset_ms),
{
    let t: i128 = to_signed_ms(local_ms) + clock.offset_ms as i128;
    if t < 0 {
        0
    } else if t > 0x7fff_ffff_ffff_ffff {
        0x7fff_ffff_ffff_ffff
    } else {
        t as u64
    }
}

/// The exchange's time for a reading of the local clock, none where there is none.
pub open spec fn server_reading(local: Option<u64>, offset_ms: i64) -> Option<u64> {
    match local {
        Some(t) => Some(shifted_ms(t, offset_ms) as u64),
        None => None,
    }
}

/// The exchange's time for a reading of the local clock. See [`server_reading`].
pub fn server_ms_of(clock: &ServerClock, local: Option<u64>) -> (r: Option<u64>)
    ensures
        r == server_reading(local, clock.offset_ms),
{
    match local {
        Some(t) => Some(server_ms_at(clock, t)),
        None => None,
    }
}

/// The exchange's time now, `None` where the system clock stands before the Unix
/// epoch: what [`server_ms_of`] makes of the local clock's reading, whichever that is.
pub fn now_ms_with_offset(clock: &ServerClock) -> (r: Option<u64>)
    ensures
        exists|local: Option<u64>| r == #[trigger] server_reading(local, clock.offset_ms),
{
    let local: Option<u64> = now_ms();
    server_ms_of(clock, local)
}

/// How far the exchange's clock is ahead.
pub fn time_offset_ms(clock: &ServerClock) -> (r: i64)
    ensures
        r == clock.offset_ms,
{
    clock.offset_ms
}

/// Sets how far the exchange's clock is ahead.
pub fn set_time_offset_ms(clock: &mut ServerClock, offset_ms: i64)
    ensures
        *final(clock) == (ServerClock { offset_ms, ..*old(clock) }),
{
    clock.offset_ms = offset_ms;
}

/// The offset that a reading of both clocks gives.
pub open spec fn offset_between(server_ms: u64, local_ms: u64) -> int {
    to_i64(signed_ms(server_ms) - signed_ms(local_ms))
}

/// Takes over a reading of the exchange's clock, and returns the new offset.
pub fn note_server_time(clock: &mut ServerClock, server_ms: u64, local_ms: u64) -> (r: i64)
    ensures
        r == offset_between(server_ms, local_ms),
        *final(clock) == (ServerClock { offset_ms: r, ..*old(clock) }),
{
    let d: i128 = to_signed_ms(server_ms) - to_signed_ms(local_ms);
    let r: i64 = if d > i64::MAX as i128 {
        i64::MAX
    } else if d < i64::MIN as i128 {
        i64::MIN
    } else {
        d as i64
    };
    clock.offset_ms = r;
    r
}

/// Whether the exchange's clock has to be asked: an interval of zero switches
/// that off, and otherwise it is asked for the first time at once and then once
/// the interval has passed.
pub open spec fn sync_is_due(clock: ServerClock, now_ms: u64, interval_secs: u64) -> bool {
    interval_secs > 0 && (clock.last_sync_ms == 0 || {
        let passed: int = if now_ms >= clock.last_sync_ms {
            now_ms - clock.last_sync_ms
        } else {
            0
        };
        let interval: int = if interval_secs * 1000 > u64::MAX {
            u64::MAX as int
        } else {
            interval_secs * 1000
        };
        passed >= interval
    })
}

/// Whether the exchange's clock has to be asked now. The attempt is noted, so
/// that a failed one is not repeated at once.
pub fn begin_time_sync(clock: &mut ServerClock, now_ms: u64, interval_secs: u64) -> (due: bool)
    ensures
        due == sync_is_due(*old(clock), now_ms, interval_secs),
        *final(clock) == (if due {
            ServerClock { last_sync_ms: now_ms, ..*old(clock) }
        } else {
            *old(clock)
        }),
{
    if interval_secs == 0 {
        return false;
    }
    let interval: u64 = if interval_secs > u64::MAX / 1000 {
        u64::MAX
    } else {
        interval_secs * 1000
    };
    if clock.last_sync_ms != 0 && now_ms.saturating_sub(clock.last_sync_ms) < interval {
        return false;
    }
    clock.last_sync_ms = now_ms;
    true
}

/// A query with the time of the request behind it.
pub open spec fn stamped(query: Seq<char>, timestamp_ms: u64) -> Seq<char> {
    query + "&timestamp="@ + nat_text(timestamp_ms as nat)
}

/// Appends the time of the request to a query.
pub fn stamp_query(query: &str, timestamp_ms: u64) -> (s: String)
    ensures
        s@ == stamped(query@, timestamp_ms),
{
    let mut s: String = String::from_str(query);
    s.append("&timestamp=");
    s.append(u64_string(timestamp_ms).as_str());
    s
}

/// The address of a signed request.
pub open spec fn signed_address(
    base: Seq<char>,
    path: Seq<char>,
    query: Seq<char>,
    signature: Seq<char>,
) -> Seq<char> {
    base + path + "?"@ + query + "&signature="@ + signature
}

/// The address of a request whose query is signed with the secret.
pub fn signed_url(base: &str, path: &str, query: &str, secret: &str) -> (s: String)
    ensures
        s@ == signed_address(
            base@,
            path@,
            query@,
            hex_text(hmac_sha256(secret.spec_bytes(), query.spec_bytes())),
        ),
{
    let mut s: String = String::from_str(base);
    s.append(path);
    s.append("?");
    s.append(query);
    s.append("&signature=");
    s.append(sign_hmac_sha256_hex(secret, query).as_str());
    s
}

/// After a reading of the exchange's clock, local time maps onto it exactly, as
/// long as both stay within the signed 64-bit range.
pub proof fn law_sync_corrects_the_clock(server_ms: u64, local_ms: u64)
    requires
        server_ms <= i64::MAX,
        local_ms <= i64::MAX,
    ensures
        shifted_ms(local_ms, offset_between(server_ms, local_ms) as i64) == server_ms,
{
}

/// Once the clock was asked, it is not asked again before the interval has passed.
pub proof fn law_sync_is_rate_limited(clock: ServerClock, now_ms: u64, later_ms: u64, interval_secs: u64)
    requires
        0 < now_ms <= later_ms,
        later_ms - now_ms < interval_secs * 1000 <= u64::MAX,
    ensures
        !sync_is_due(ServerClock { last_sync_ms: now_ms, ..clock }, later_ms, interval_secs),
{
}

/// The value of a hexadecimal digit, zero for any other character.
pub open spec fn hex_value(c: char) -> int {
    if '0' <= c && c <= '9' {
        c as int - '0' as int
    } else if 'a' <= c && c <= 'f' {
        c as int - 'a' as int + 10
    } else {
        0
    }
}

/// Each byte is written as two hexadecimal digits, the higher one first.
pub proof fn law_hex_digits_are_the_bytes(bytes: Seq<u8>, i: int)
    requires
        0 <= i < bytes.len(),
    ensures
        hex_text(bytes).len() == 2 * bytes.len(),
        16 * hex_value(hex_text(bytes)[2 * i]) + hex_value(hex_text(bytes)[2 * i + 1]) == bytes[i],
        0 <= hex_value(hex_text(bytes)[2 * i + 1]) < 16,
{
    let b = bytes[i] as int;
    assert((2 * i) / 2 == i && (2 * i) % 2 == 0 && (2 * i + 1) / 2 == i && (2 * i + 1) % 2 == 1);
    let h = hex_text(bytes);
    assert(h[2 * i] == hex_digit(b / 16));
    assert(h[2 * i + 1] == hex_digit(b % 16));
    lemma_hex_digit(b / 16);
    lemma_hex_digit(b % 16);
}

proof fn lemma_hex_digit(d: int)
    requires
        0 <= d < 16,
    ensures
        hex_value(hex_digit(d)) == d,
{
}

/// The server's time is the local time and the offset, no earlier than zero.
pub proof fn law_server_time_is_local_time_and_offset(local: u64, offset_ms: i64)
    requires
        local <= 0x3fff_ffff_ffff_ffff,
        -0x3fff_ffff_ffff_ffff <= offset_ms <= 0x3fff_ffff_ffff_ffff,
    ensures
        local + offset_ms >= 0 ==> server_reading(Some(local), offset_ms) == Some(
            (local + offset_ms) as u64,
        ),
        local + offset_ms < 0 ==> server_reading(Some(local), offset_ms) == Some(0u64),
        server_reading(None, offset_ms) is None,
        local <= 0x3fff_ffff_ffff_ffff && offset_ms >= 0 ==> offset_between(
            offset_ms as u64,
            local,
        ) == offset_ms - local,
{
}

/// The clock is synchronised where that is wanted and it never was, or the interval has passed.
pub proof fn law_sync_is_due_after_its_interval(clock: ServerClock, now_ms: u64, interval_secs: u64)
    requires
        interval_secs <= 1_000_000_000,
        now_ms >= clock.last_sync_ms,
    ensures
        sync_is_due(clock, now_ms, interval_secs) <==> interval_secs > 0 && (clock.last_sync_ms == 0
            || now_ms - clock.last_sync_ms >= 1_000 * interval_secs),
{
}

} // verus!
