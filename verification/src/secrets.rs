//! What credentials take from outside: digests, hexadecimal, comparison in
//! constant time, random bytes and the clock.
use vstd::prelude::*;

use sha2::Digest;
use subtle::ConstantTimeEq;

use crate::timestamp::Timestamp;

verus! {

/// The error of the `getrandom` crate.
#[verifier::external_type_specification]
#[verifier::external_body]
pub struct ExRandomError(getrandom::Error);

/// The error of the `hex` crate.
#[verifier::external_type_specification]
#[verifier::external_body]
pub struct ExFromHexError(hex::FromHexError);

/// The SHA-256 digest of some bytes.
pub uninterp spec fn sha256(data: Seq<u8>) -> Seq<u8>;

/// `sha2::Sha256::digest`: the 32-byte SHA-256 digest, a function of the bytes
/// alone.
#[verifier::external_body]
pub(crate) fn sha256_digest(data: &[u8]) -> (digest: Vec<u8>)
    ensures
        digest@ == sha256(data@),
        digest@.len() == 32,
{
    sha2::Sha256::digest(data).to_vec()
}

/// The value of a hexadecimal digit of either case.
pub open spec fn hex_value(c: char) -> Option<int> {
    if '0' <= c <= '9' {
        Some(c as int - '0' as int)
    } else if 'a' <= c <= 'f' {
        Some(c as int - 'a' as int + 10)
    } else if 'A' <= c <= 'F' {
        Some(c as int - 'A' as int + 10)
    } else {
        None
    }
}

/// The lower-case hexadecimal digit of a value below 16.
pub open spec fn hex_digit(v: int) -> char {
    if v < 10 {
        ('0' as int + v) as char
    } else {
        ('a' as int + v - 10) as char
    }
}

/// Two lower-case digits per byte, the high half first.
pub open spec fn hex_encoded(bytes: Seq<u8>) -> Seq<char> {
    Seq::new(
        2 * bytes.len(),
        |i: int|
            if i % 2 == 0 {
                hex_digit(bytes[i / 2] as int / 16)
            } else {
                hex_digit(bytes[i / 2] as int % 16)
            },
    )
}

/// The bytes that pairs of hexadecimal digits write; nothing for an odd number
/// of characters or one that is no digit.
pub open spec fn hex_decoded(text: Seq<char>) -> Option<Seq<u8>> {
    if text.len() % 2 == 0 && forall|i: int|
        0 <= i < text.len() ==> hex_value(#[trigger] text[i]) is Some {
        Some(
            Seq::new(
                (text.len() / 2) as nat,
                |i: int| (hex_value(text[2 * i])->0 * 16 + hex_value(text[2 * i + 1])->0) as u8,
            ),
        )
    } else {
        None
    }
}

/// `hex::encode`: two lower-case digits per byte.
#[verifier::external_body]
pub(crate) fn hex_encode(bytes: &[u8]) -> (text: String)
    ensures
        text@ == hex_encoded(bytes@),
{
    hex::encode(bytes)
}

/// `hex::decode`: the bytes that pairs of digits of either case write, an error
/// where the text is anything else.
#[verifier::external_body]
pub(crate) fn hex_decode(text: &str) -> (bytes: Result<Vec<u8>, hex::FromHexError>)
    ensures
        match bytes {
            Ok(v) => hex_decoded(text@) == Some(v@),
            Err(_) => hex_decoded(text@) is None,
        },
{
    hex::decode(text)
}

/// `subtle::ConstantTimeEq::ct_eq` on byte slices: whether they are equal.
#[verifier::external_body]
pub(crate) fn constant_time_eq(a: &[u8], b: &[u8]) -> (equal: bool)
    ensures
        equal == (a@ == b@),
{
    bool::from(a.ct_eq(b))
}

/// Bytes drawn from the operating system's random source. Only [`random_bytes`]
/// makes one: a contract that speaks of a draw speaks of bytes that were drawn.
pub struct RandomBytes {
    drawn: Vec<u8>,
}

impl View for RandomBytes {
    type V = Seq<u8>;

    closed spec fn view(&self) -> Seq<u8> {
        self.drawn@
    }
}

impl RandomBytes {
    /// The bytes.
    pub(crate) fn bytes(&self) -> (b: &Vec<u8>)
        ensures
            b@ == self@,
    {
        &self.drawn
    }
}

/// A draw holds the bytes that were drawn, as they were.
proof fn law_a_draw_is_what_was_drawn(r: RandomBytes)
    ensures
        r@ == r.drawn@,
{
}

/// `getrandom::getrandom`: `n` bytes from the operating system's random source,
/// or its error. Nothing is said of the bytes but their number.
#[verifier::external_body]
pub(crate) fn random_bytes(n: usize) -> (bytes: Result<RandomBytes, getrandom::Error>)
    ensures
        bytes is Ok ==> bytes->Ok_0@.len() == n,
{
    let mut drawn = vec![0u8; n];
    getrandom::getrandom(&mut drawn)?;
    Ok(RandomBytes { drawn })
}

/// The `Display` text of a `getrandom::Error`, of which nothing is said: it may
/// hold the operating system's own words.
#[verifier::external_body]
pub(crate) fn random_error_text(error: &getrandom::Error) -> (text: String)
{
    error.to_string()
}

/// A reading of the wall clock. Only [`clock_now`] makes one: a contract that
/// speaks of a reading speaks of a time that the clock gave.
pub struct ClockReading {
    at: Timestamp,
}

impl View for ClockReading {
    type V = Timestamp;

    closed spec fn view(&self) -> Timestamp {
        self.at
    }
}

impl ClockReading {
    /// The time the clock gave.
    pub(crate) fn time(&self) -> (t: Timestamp)
        ensures
            t == self@,
    {
        self.at
    }
}

/// A reading holds the time that the clock gave, as it was.
proof fn law_a_reading_is_what_was_read(r: ClockReading)
    ensures
        r@ == r.at,
{
}

/// `chrono::Utc::now`: the wall clock, never within a leap second. Which time it
/// gives is not said. It panics where the system clock stands before 1970.
#[verifier::external_body]
pub(crate) fn clock_now() -> (now: ClockReading)
    ensures
        now@.is_ordinary(),
{
    let now = chrono::Utc::now();
    ClockReading { at: Timestamp { secs: now.timestamp(), nanos: now.timestamp_subsec_nanos() } }
}

/// Encoding gives two characters per byte.
pub proof fn lemma_hex_roundtrip(bytes: Seq<u8>)
    ensures
        hex_encoded(bytes).len() == 2 * bytes.len(),
        hex_decoded(hex_encoded(bytes)) == Some(bytes),
{
    let text = hex_encoded(bytes);
    assert forall|i: int| 0 <= i < text.len() implies hex_value(#[trigger] text[i]) == Some(
        if i % 2 == 0 {
            bytes[i / 2] as int / 16
        } else {
            bytes[i / 2] as int % 16
        },
    ) by {
        assert(0 <= bytes[i / 2] as int / 16 < 16);
    }
    let back = hex_decoded(text);
    assert(back is Some);
    assert forall|i: int| 0 <= i < bytes.len() implies #[trigger] back->0[i] == bytes[i] by {
        assert(hex_value(text[2 * i]) == Some(bytes[i] as int / 16)) by {
            assert((2 * i) % 2 == 0);
            assert((2 * i) / 2 == i);
        }
        assert(hex_value(text[2 * i + 1]) == Some(bytes[i] as int % 16)) by {
            assert((2 * i + 1) % 2 == 1);
            assert((2 * i + 1) / 2 == i);
        }
    }
    assert(back->0 =~= bytes);
}

} // verus!
