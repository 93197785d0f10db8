//! Small shared helpers: wall-clock milliseconds and content hashing (the
//! dedup / suppression key).

use vstd::prelude::*;
use sha2::{Digest, Sha256};
use std::time::{Duration, SystemTime};

verus! {

#[verifier::external_type_specification]
#[verifier::external_body]
pub struct ExSystemTime(SystemTime);

/// Calls `SystemTime::now`. Nothing is stated of the result: it is the clock.
#[verifier::external_body]
fn system_now() -> SystemTime {
    SystemTime::now()
}

/// Calls `SystemTime::duration_since(UNIX_EPOCH)`; `None` when the clock
/// reads earlier than the epoch. Nothing is stated of the result: it depends
/// on the clock reading.
#[verifier::external_body]
fn since_epoch(t: &SystemTime) -> Option<Duration> {
    t.duration_since(std::time::UNIX_EPOCH).ok()
}

/// Calls `Duration::as_millis`. Nothing is stated: `Duration` is opaque here.
#[verifier::external_body]
fn millis_of(d: &Duration) -> u128 {
    d.as_millis()
}

/// Current wall-clock time in unix milliseconds (0 when the clock reads
/// before the epoch). It depends on the clock, so nothing is stated of it.
pub fn now_ms() -> i64 {
    let now = system_now();
    let ms = match since_epoch(&now) {
        Some(d) => Some(millis_of(&d)),
        None => None,
    };
    epoch_millis(ms)
}

/// Unix milliseconds as stored: the clock's milliseconds since the epoch
/// taken as an `i64` (wrapping, as `as` does), 0 when the clock reads before
/// the epoch.
pub fn epoch_millis(ms: Option<u128>) -> (r: i64)
    ensures
        r == match ms {
            Some(m) => #[verifier::truncate] (m as i64),
            None => 0,
        },
{
    match ms {
        Some(m) => {
            #[verifier::truncate]
            (m as i64)
        },
        None => 0,
    }
}

/// What SHA-256 gives for a byte sequence.
pub uninterp spec fn sha256_digest(data: Seq<u8>) -> Seq<u8>;

/// Calls `sha2::Digest::digest` for `Sha256` (the one-shot hash). The digest
/// is the name `sha256_digest` applied to the input; the crate's output size
/// for SHA-256 is 32 bytes, which is stated too.
#[verifier::external_body]
fn sha256(data: &[u8]) -> (r: Vec<u8>)
    ensures
        r@ == sha256_digest(data@),
        r@.len() == 32,
{
    Sha256::digest(data).to_vec()
}

/// The lower-case hexadecimal digit for `v` (< 16).
pub open spec fn hex_digit(v: u8) -> char {
    if v < 10 {
        (('0' as u8) + v) as char
    } else {
        (('a' as u8) + (v - 10)) as char
    }
}

/// Two lower-case hex digits per byte, high nibble first (`{:x}` of a digest).
pub open spec fn hex_lower(data: Seq<u8>) -> Seq<char>
    decreases data.len(),
{
    if data.len() == 0 {
        Seq::empty()
    } else {
        hex_lower(data.drop_last()) + seq![hex_digit(data.last() / 16), hex_digit(data.last() % 16)]
    }
}

fn hex_digit_exec(v: u8) -> (r: char)
    requires
        v < 16,
    ensures
        r == hex_digit(v),
{
    if v < 10 {
        (('0' as u8) + v) as char
    } else {
        (('a' as u8) + (v - 10)) as char
    }
}

/// Lower-case hex encoding of bytes.
pub fn to_hex_lower(data: &[u8]) -> (r: String)
    ensures
        r@ == hex_lower(data@),
{
    let mut r = String::new();
    let mut i: usize = 0;
    while i < data.len()
        invariant
            i <= data@.len(),
            r@ == hex_lower(data@.take(i as int)),
        decreases data@.len() - i,
    {
        let b = data[i];
        r.push(hex_digit_exec(b / 16));
        r.push(hex_digit_exec(b % 16));
        assert(data@.take(i + 1).drop_last() =~= data@.take(i as int));
        i = i + 1;
    }
    assert(data@.take(data@.len() as int) =~= data@);
    r
}

/// The content key of a byte sequence: hex-encoded SHA-256.
pub open spec fn spec_hash_bytes(data: Seq<u8>) -> Seq<char> {
    hex_lower(sha256_digest(data))
}

/// Hex-encoded SHA-256 of arbitrary bytes. Used as the dedup / suppress key.
pub fn hash_bytes(bytes: &[u8]) -> (r: String)
    ensures
        r@ == spec_hash_bytes(bytes@),
        r@.len() == 64,
{
    let d = sha256(bytes);
    let r = to_hex_lower(d.as_slice());
    proof {
        lemma_hex_len(d@);
    }
    r
}

proof fn lemma_hex_len(data: Seq<u8>)
    ensures
        hex_lower(data).len() == 2 * data.len(),
    decreases data.len(),
{
    if data.len() > 0 {
        lemma_hex_len(data.drop_last());
    }
}

/// Hex-encoded SHA-256 of a string's UTF-8 bytes.
pub fn hash_text(text: &str) -> (r: String)
    ensures
        r@ == spec_hash_bytes(vstd::utf8::encode_utf8(text@)),
        r@.len() == 64,
{
    hash_bytes(text.as_bytes())
}

} // verus!
