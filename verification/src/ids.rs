//! Fresh record ids and timestamps.
use vstd::prelude::*;

use crate::json::hex_digit;

verus! {

/// Byte `i` of the version-4 UUID built from the random bytes `b`: byte 6
/// carries the version (4) in its high half, byte 8 the RFC 4122 variant
/// (`10` in its two high bits).
pub open spec fn uuid_byte(b: Seq<u8>, i: int) -> int {
    if i == 6 {
        b[6] as int % 16 + 64
    } else if i == 8 {
        b[8] as int % 64 + 128
    } else {
        b[i] as int
    }
}

/// The two lower-case hexadecimal digits of a byte.
pub open spec fn hex_pair(x: int) -> Seq<char> {
    seq![hex_digit(x / 16), hex_digit(x % 16)]
}

/// The hexadecimal digits of the UUID bytes `from..to`.
pub open spec fn hex_run(b: Seq<u8>, from: int, to: int) -> Seq<char>
    decreases to - from,
{
    if from >= to {
        seq![]
    } else {
        hex_pair(uuid_byte(b, from)) + hex_run(b, from + 1, to)
    }
}

/// The hyphenated text of the version-4 UUID built from 16 random bytes:
/// the 32 lower-case hexadecimal digits of its bytes, grouped 8-4-4-4-12.
pub open spec fn uuid_v4_text(b: Seq<u8>) -> Seq<char> {
    hex_run(b, 0, 4) + seq!['-'] + hex_run(b, 4, 6) + seq!['-'] + hex_run(b, 6, 8) + seq!['-']
        + hex_run(b, 8, 10) + seq!['-'] + hex_run(b, 10, 16)
}

proof fn lemma_hex_run_len(b: Seq<u8>, from: int, to: int)
    requires
        from <= to,
    ensures
        hex_run(b, from, to).len() == 2 * (to - from),
    decreases to - from,
{
    if from < to {
        lemma_hex_run_len(b, from + 1, to);
    }
}

/// The text of a UUID has 36 characters with `-` at 8, 13, 18 and 23.
proof fn lemma_uuid_v4_text_shape(b: Seq<u8>)
    ensures
        uuid_v4_text(b).len() == 36,
        uuid_v4_text(b)[8] == '-' && uuid_v4_text(b)[13] == '-' && uuid_v4_text(b)[18] == '-'
            && uuid_v4_text(b)[23] == '-',
{
    lemma_hex_run_len(b, 0, 4);
    lemma_hex_run_len(b, 4, 6);
    lemma_hex_run_len(b, 6, 8);
    lemma_hex_run_len(b, 8, 10);
    lemma_hex_run_len(b, 10, 16);
}

/// The RFC 3339 text (UTC) of the instant `secs` seconds and `nanos`
/// nanoseconds after the Unix epoch.
pub uninterp spec fn rfc3339_text(secs: int, nanos: int) -> Seq<char>;

/// `getrandom::fill` on 16 bytes. Claimed nothing of the bytes (they are
/// random); `None` when the operating system's random source fails.
#[verifier::external_body]
fn random_16() -> (r: Option<[u8; 16]>) {
    let mut b = [0u8; 16];
    match getrandom::fill(&mut b) {
        Ok(()) => Some(b),
        Err(_) => None,
    }
}

/// `uuid::Builder::from_random_bytes`, `into_uuid` and `to_string`.
/// Claimed: the result is the hyphenated lower-case text of the UUID made
/// of those bytes with the version and variant bits set, as `uuid_v4_text`
/// writes it out.
#[verifier::external_body]
fn uuid_v4_of(bytes: [u8; 16]) -> (r: String)
    ensures
        r@ == uuid_v4_text(bytes@),
{
    uuid::Builder::from_random_bytes(bytes).into_uuid().to_string()
}

/// `SystemTime::now().duration_since(UNIX_EPOCH)`, or, when the clock is
/// before the epoch, the distance back to it (`SystemTimeError::duration`):
/// whether the clock is at or after the epoch, the whole seconds, and the
/// nanoseconds past them. Claimed: the nanoseconds are below a second. The
/// values depend on the clock and are left unsaid.
#[verifier::external_body]
fn clock_offset() -> (r: (bool, u64, u32))
    ensures
        r.2 < 1_000_000_000,
{
    match std::time::SystemTime::now().duration_since(std::time::UNIX_EPOCH) {
        Ok(d) => (true, d.as_secs(), d.subsec_nanos()),
        Err(e) => (false, e.duration().as_secs(), e.duration().subsec_nanos()),
    }
}

/// `chrono::DateTime::<Utc>::from_timestamp` then `to_rfc3339`. Claimed: a
/// text given is the named RFC 3339 text of that instant; `None` when the
/// instant is out of chrono's range (which range is left unsaid).
#[verifier::external_body]
fn rfc3339_at(secs: i64, nanos: u32) -> (r: Option<String>)
    ensures
        r matches Some(t) ==> t@ == rfc3339_text(secs as int, nanos as int),
{
    chrono::DateTime::<chrono::Utc>::from_timestamp(secs, nanos).map(|t| t.to_rfc3339())
}

/// A fresh UUID (version 4) in its hyphenated form; `None` when no random
/// bytes could be had.
pub fn new_id() -> (r: Option<String>)
    ensures
        r matches Some(s) ==> exists|b: Seq<u8>|
            b.len() == 16 && s@ == #[trigger] uuid_v4_text(b),
        r matches Some(s) ==> s@.len() == 36 && s@[8] == '-' && s@[13] == '-' && s@[18] == '-'
            && s@[23] == '-',
{
    match random_16() {
        Some(b) => {
            proof {
                lemma_uuid_v4_text_shape(b@);
            }
            Some(uuid_v4_of(b))
        },
        None => None,
    }
}

/// The current time as RFC 3339 text, before the epoch too; `None` only
/// when the instant is beyond what can be written.
pub fn now_rfc3339() -> (r: Option<String>)
    ensures
        r matches Some(t) ==> exists|s: int, n: int|
            0 <= n < 1_000_000_000 && t@ == #[trigger] rfc3339_text(s, n),
{
    let (after, s, n) = clock_offset();
    if after {
        if s <= 9_223_372_036_854_775_807u64 {
            let secs: i64 = s as i64;
            rfc3339_at(secs, n)
        } else {
            None
        }
    } else if n == 0 {
        if s <= 9_223_372_036_854_775_807u64 {
            let secs: i64 = s as i64;
            rfc3339_at(-secs, 0)
        } else {
            None
        }
    } else if s < 9_223_372_036_854_775_807u64 {
        let secs: i64 = s as i64;
        rfc3339_at(-secs - 1, 1_000_000_000 - n)
    } else {
        None
    }
}

} // verus!
