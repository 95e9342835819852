//! The current time and fresh identifiers, which come from the machine.
//! The clock is read without failing: a clock set before 1970 reads as
//! 1970-01-01 00:00 UTC, and one set past the year 9999 as its last
//! millisecond.
use vstd::prelude::*;
use crate::date::{
    rfc3339_millis_spec, rfc3339_millis_text, utc_date_of, CalendarDate,
    LAST_MILLISECOND_OF_9999,
};

verus! {

/// Nanoseconds since 1970-01-01 00:00 UTC by the machine's clock, from
/// `std::time::SystemTime::now`, `duration_since(UNIX_EPOCH)` and
/// `Duration::as_nanos`; a clock set before 1970 reads as zero.  The value
/// depends on the clock, so nothing is stated of it.
#[verifier::external_body]
fn unix_nanos_now() -> (r: u128)
{
    std::time::SystemTime::now().duration_since(std::time::UNIX_EPOCH).unwrap_or_default().as_nanos()
}

/// Whole seconds since 1970-01-01 00:00 UTC by the machine's clock, from
/// `std::time::SystemTime::now`; a clock set before 1970 reads as zero.
/// The value depends on the clock, so nothing is stated of it.
#[verifier::external_body]
pub(crate) fn unix_seconds_now() -> (r: u64)
{
    std::time::SystemTime::now().duration_since(std::time::UNIX_EPOCH).unwrap_or_default().as_secs()
}

/// Ten bytes from the system's random source, from `getrandom::fill`, or
/// nothing where the source fails.  The bytes are chance, so nothing is
/// stated of them.
#[verifier::external_body]
fn random_bytes() -> (r: Option<[u8; 10]>)
{
    let mut bytes = [0u8; 10];
    match getrandom::fill(&mut bytes) {
        Ok(()) => Some(bytes),
        Err(_) => None,
    }
}

/// A lowercase hexadecimal digit.
pub open spec fn is_lower_hex(c: char) -> bool {
    ('0' <= c && c <= '9') || ('a' <= c && c <= 'f')
}

/// The hyphenated lowercase text of a version 7 UUID of the RFC 4122
/// variant: 36 characters, hyphens at positions 8, 13, 18 and 23, the
/// version digit `7` at position 14 and a variant digit from `8` to `b` at
/// position 19.
pub open spec fn uuid_v7_shape(s: Seq<char>) -> bool {
    &&& s.len() == 36
    &&& forall|i: int| 0 <= i < 36 ==> if i == 8 || i == 13 || i == 18 || i == 23 {
        #[trigger] s[i] == '-'
    } else {
        is_lower_hex(s[i])
    }
    &&& s[14] == '7'
    &&& (s[19] == '8' || s[19] == '9' || s[19] == 'a' || s[19] == 'b')
}

/// A lowercase hexadecimal digit of a value below sixteen.
pub open spec fn hex_digit(n: int) -> char {
    if n < 10 {
        (48 + n) as char
    } else {
        (87 + n) as char
    }
}

/// The sixteen bytes of the version 7 UUID of a time in milliseconds and
/// ten random bytes: the low 48 bits of the time, most significant first;
/// the version `7` over the low four bits of the first random byte; the
/// second random byte; the variant bits `10` over the low six bits of the
/// third; the last seven random bytes.
pub open spec fn uuid_v7_bytes(millis: u64, r: Seq<u8>) -> Seq<int> {
    seq![
        (millis as int / 0x100_0000_0000) % 256, (millis as int / 0x1_0000_0000) % 256,
        (millis as int / 0x100_0000) % 256, (millis as int / 0x1_0000) % 256,
        (millis as int / 0x100) % 256, millis as int % 256,
        0x70 + r[0] as int % 16, r[1] as int, 0x80 + r[2] as int % 64, r[3] as int,
        r[4] as int, r[5] as int, r[6] as int, r[7] as int, r[8] as int, r[9] as int,
    ]
}

/// Character `i` of the hyphenated lowercase text of sixteen bytes: two
/// hexadecimal digits per byte, in groups of 4, 2, 2, 2 and 6 bytes.
pub open spec fn uuid_char(b: Seq<int>, i: int) -> char {
    if i == 8 || i == 13 || i == 18 || i == 23 {
        '-'
    } else {
        let k = i - (if i > 23 { 4int } else if i > 18 { 3int } else if i > 13 { 2int } else if i > 8 { 1int } else { 0int });
        let byte = b[k / 2];
        hex_digit(if k % 2 == 0 { byte / 16 } else { byte % 16 })
    }
}

/// The hyphenated lowercase text of the version 7 UUID of a time in
/// milliseconds and ten random bytes.
pub open spec fn uuid_v7_text_spec(millis: u64, r: Seq<u8>) -> Seq<char> {
    Seq::new(36, |i: int| uuid_char(uuid_v7_bytes(millis, r), i))
}

/// The version 7 UUID of a time in milliseconds and ten random bytes, from
/// `uuid::Builder::from_unix_timestamp_millis`, `Builder::into_uuid` and the
/// UUID's `Display`, which writes the hyphenated lowercase form.  The
/// contract states the text: the builder lays out the time and the random
/// bytes and sets the version and variant bits as `uuid_v7_bytes` says.
#[verifier::external_body]
fn uuid_v7_text(millis: u64, random: [u8; 10]) -> (r: String)
    ensures
        r@ == uuid_v7_text_spec(millis, random@),
{
    uuid::Builder::from_unix_timestamp_millis(millis, &random).into_uuid().to_string()
}

/// Every such text has the shape of a version 7 UUID.
pub proof fn lemma_uuid_v7_text_shape(millis: u64, r: Seq<u8>)
    requires
        r.len() == 10,
    ensures
        uuid_v7_shape(uuid_v7_text_spec(millis, r)),
{
    let b = uuid_v7_bytes(millis, r);
    let t = uuid_v7_text_spec(millis, r);
    assert forall|k: int| 0 <= k < 16 implies 0 <= #[trigger] b[k] < 256 by {}
    assert forall|i: int| 0 <= i < 36 implies if i == 8 || i == 13 || i == 18 || i == 23 {
        #[trigger] t[i] == '-'
    } else {
        is_lower_hex(t[i])
    } by {
        assert(t[i] == uuid_char(b, i));
    }
    assert(t[14] == uuid_char(b, 14));
    assert(t[19] == uuid_char(b, 19));
}

/// A clock reading in nanoseconds as milliseconds, within the years 1970
/// to 9999.
fn millis_of(nanos: u128) -> (r: u64)
    ensures
        r <= LAST_MILLISECOND_OF_9999,
        nanos / 1_000_000 <= LAST_MILLISECOND_OF_9999 ==> r == nanos / 1_000_000,
{
    let raw = nanos / 1_000_000;
    if raw > LAST_MILLISECOND_OF_9999 as u128 {
        LAST_MILLISECOND_OF_9999
    } else {
        raw as u64
    }
}

/// The clock's reading in milliseconds, within the years 1970 to 9999.
fn now_millis() -> (r: u64)
    ensures
        r <= LAST_MILLISECOND_OF_9999,
{
    millis_of(unix_nanos_now())
}

/// The ten lowest bytes of a clock reading in nanoseconds, least
/// significant first.
fn clock_bytes(nanos: u128) -> (r: [u8; 10])
    ensures
        forall|i: int| 0 <= i < 10 ==> r@[i] == (nanos as int / #[trigger] pow256(i)) % 256,
{
    let b0 = (nanos % 256) as u8;
    let b1 = (nanos / 0x100 % 256) as u8;
    let b2 = (nanos / 0x1_0000 % 256) as u8;
    let b3 = (nanos / 0x100_0000 % 256) as u8;
    let b4 = (nanos / 0x1_0000_0000 % 256) as u8;
    let b5 = (nanos / 0x100_0000_0000 % 256) as u8;
    let b6 = (nanos / 0x1_0000_0000_0000 % 256) as u8;
    let b7 = (nanos / 0x100_0000_0000_0000 % 256) as u8;
    let b8 = (nanos / 0x1_0000_0000_0000_0000 % 256) as u8;
    let b9 = (nanos / 0x100_0000_0000_0000_0000 % 256) as u8;
    let r = [b0, b1, b2, b3, b4, b5, b6, b7, b8, b9];
    reveal_with_fuel(pow256, 11);
    assert(pow256(0) == 1 && pow256(1) == 0x100 && pow256(2) == 0x1_0000 && pow256(3) == 0x100_0000
        && pow256(4) == 0x1_0000_0000 && pow256(5) == 0x100_0000_0000 && pow256(6) == 0x1_0000_0000_0000
        && pow256(7) == 0x100_0000_0000_0000 && pow256(8) == 0x1_0000_0000_0000_0000
        && pow256(9) == 0x100_0000_0000_0000_0000);
    r
}

/// 256 to the power `i`.
pub open spec fn pow256(i: int) -> int
    decreases i,
{
    if i <= 0 { 1 } else { 256 * pow256(i - 1) }
}

/// Text of an instant the clock can read, in RFC 3339 form with
/// milliseconds and a `Z` suffix.
pub open spec fn is_clock_time(t: Seq<char>) -> bool {
    exists|ms: int| 0 <= ms <= LAST_MILLISECOND_OF_9999 && t == #[trigger] rfc3339_millis_spec(ms)
}

/// The current UTC time as RFC 3339 text with millisecond precision and a
/// `Z` suffix.  Which instant it is depends on the clock.
pub(crate) fn now_rfc3339() -> (r: String)
    ensures
        is_clock_time(r@),
{
    let ms = now_millis();
    let r = rfc3339_millis_text(ms);
    proof { assert(r@ == rfc3339_millis_spec(ms as int)); }
    r
}

/// A fresh time-ordered identifier: a version 7 UUID of the current time
/// and ten random bytes, in hyphenated lowercase form.  Where the random
/// source fails, the random part is taken from the clock's nanoseconds.
pub(crate) fn new_uuid_v7() -> (r: String)
    ensures
        uuid_v7_shape(r@),
{
    let nanos = unix_nanos_now();
    let ms = millis_of(nanos);
    let random = match random_bytes() {
        Some(bytes) => bytes,
        None => clock_bytes(nanos),
    };
    proof { lemma_uuid_v7_text_shape(ms, random@); }
    uuid_v7_text(ms, random)
}

/// Today's date in UTC by the machine's clock.
pub(crate) fn today_utc() -> (r: CalendarDate)
    ensures
        r.is_valid(),
        r.year >= 1970,
{
    let raw = unix_seconds_now();
    let secs = if raw > LAST_MILLISECOND_OF_9999 / 1000 { LAST_MILLISECOND_OF_9999 / 1000 } else { raw };
    utc_date_of(secs)
}

} // verus!
