use hmac::{Hmac, Mac};
use sha1::Sha1;
use std::time::{SystemTime, UNIX_EPOCH};
use vstd::prelude::*;

verus! {

/// Length of the time window that one code stays valid for, in seconds.
pub const TIME_STEP_SECS: u64 = 30;

/// The truncated value is reduced modulo this number: codes have six digits.
pub const CODE_MODULUS: u32 = 1_000_000;

/// The HMAC-SHA1 tag of `message` under `key`, as the `hmac` and `sha1`
/// crates compute it.
pub uninterp spec fn hmac_sha1(key: Seq<u8>, message: Seq<u8>) -> Seq<u8>;

/// Big-endian value of the four bytes of `s` that start at `i`.
pub open spec fn be_u32_at(s: Seq<u8>, i: int) -> int {
    s[i] * 0x1000000 + s[i + 1] * 0x10000 + s[i + 2] * 0x100 + s[i + 3]
}

/// Big-endian value of an eight-byte sequence.
pub open spec fn be_u64_value(s: Seq<u8>) -> int {
    be_u32_at(s, 0) * 0x100000000 + be_u32_at(s, 4)
}

/// The eight big-endian bytes of `counter`.
pub open spec fn counter_bytes(counter: u64) -> Seq<u8> {
    seq![
        ((counter >> 56u64) & 0xff) as u8,
        ((counter >> 48u64) & 0xff) as u8,
        ((counter >> 40u64) & 0xff) as u8,
        ((counter >> 32u64) & 0xff) as u8,
        ((counter >> 24u64) & 0xff) as u8,
        ((counter >> 16u64) & 0xff) as u8,
        ((counter >> 8u64) & 0xff) as u8,
        (counter & 0xff) as u8,
    ]
}

/// Where dynamic truncation reads its four bytes: the low nibble of the last
/// byte of the digest.
pub open spec fn truncation_offset(digest: Seq<u8>) -> int {
    (digest[digest.len() - 1] % 16) as int
}

/// Dynamic truncation of a digest to a six-digit code: the big-endian word at
/// the offset, without its top bit, modulo one million.
pub open spec fn truncated_code(digest: Seq<u8>) -> int {
    (be_u32_at(digest, truncation_offset(digest)) % 0x80000000) % (CODE_MODULUS as int)
}

/// The one-time code of `key` for the counter value `counter`.
pub open spec fn hotp_code(key: Seq<u8>, counter: u64) -> int {
    truncated_code(hmac_sha1(key, counter_bytes(counter)))
}

/// The time-based code of `key` at `unix_secs` seconds after the epoch.
pub open spec fn totp_code(key: Seq<u8>, unix_secs: u64) -> int {
    hotp_code(key, unix_secs / TIME_STEP_SECS)
}

/// Computes the tag with `hmac::Hmac<sha1::Sha1>`: `new_from_slice` on the
/// key, one `update` with the message, then `finalize().into_bytes()`.
/// The contract claims that the 20 bytes are the value `hmac_sha1` names for
/// these two arguments; `new_from_slice` of this HMAC never returns an error
/// (its source builds the padded key for keys of every length).
#[verifier::external_body]
fn hmac_sha1_tag(key: &[u8], message: &[u8]) -> (tag: [u8; 20])
    ensures
        tag@ == hmac_sha1(key@, message@),
{
    let mut mac = <Hmac<Sha1> as Mac>::new_from_slice(key).expect("HMAC takes keys of any length");
    mac.update(message);
    mac.finalize().into_bytes().into()
}

/// Reads the system clock: `SystemTime::now()` measured from `UNIX_EPOCH`
/// with `duration_since`, in whole seconds (`as_secs`). `None` when the clock
/// reads earlier than the epoch. Nothing is claimed of the value, which
/// depends on the time of the call.
#[verifier::external_body]
fn unix_seconds_now() -> (secs: Option<u64>) {
    SystemTime::now().duration_since(UNIX_EPOCH).ok().map(|d| d.as_secs())
}

/// Reads the big-endian `u32` that starts at `index`.
pub fn extract_int_from_bytes(arr: &[u8], index: usize) -> (value: u32)
    requires
        index + 4 <= arr@.len(),
    ensures
        value == be_u32_at(arr@, index as int),
{
    let b0 = arr[index] as u32;
    let b1 = arr[index + 1] as u32;
    let b2 = arr[index + 2] as u32;
    let b3 = arr[index + 3] as u32;
    b0 * 0x1000000 + b1 * 0x10000 + b2 * 0x100 + b3
}

/// The eight big-endian bytes of `counter`, the message that HOTP signs.
pub fn counter_message(counter: u64) -> (msg: [u8; 8])
    ensures
        msg@ == counter_bytes(counter),
{
    let msg = [
        ((counter >> 56u64) & 0xff) as u8,
        ((counter >> 48u64) & 0xff) as u8,
        ((counter >> 40u64) & 0xff) as u8,
        ((counter >> 32u64) & 0xff) as u8,
        ((counter >> 24u64) & 0xff) as u8,
        ((counter >> 16u64) & 0xff) as u8,
        ((counter >> 8u64) & 0xff) as u8,
        (counter & 0xff) as u8,
    ];
    assert(msg@ =~= counter_bytes(counter));
    msg
}

/// Dynamic truncation of an HMAC-SHA1 digest to a six-digit code.
pub fn truncate_digest(digest: &[u8; 20]) -> (code: u32)
    ensures
        code == truncated_code(digest@),
        code < CODE_MODULUS,
{
    let last = digest[19];
    let offset = (last & 0x0f) as usize;
    assert(last & 0x0f == last % 16) by (bit_vector);
    let word = extract_int_from_bytes(digest.as_slice(), offset);
    let masked = word & 0x7fff_ffff;
    assert(word & 0x7fff_ffff == word % 0x80000000) by (bit_vector);
    masked % CODE_MODULUS
}

/// The HOTP code of `secret` for `counter`.
pub fn hotp(secret: &[u8; 32], counter: u64) -> (code: u32)
    ensures
        code == hotp_code(secret@, counter),
        code < CODE_MODULUS,
{
    let msg = counter_message(counter);
    let tag = hmac_sha1_tag(secret.as_slice(), msg.as_slice());
    truncate_digest(&tag)
}

/// The TOTP code of `secret` at `unix_secs` seconds after the epoch, with a
/// time step of 30 seconds.
pub fn totp_at(secret: &[u8; 32], unix_secs: u64) -> (code: u32)
    ensures
        code == totp_code(secret@, unix_secs),
        code < CODE_MODULUS,
{
    hotp(secret, unix_secs / TIME_STEP_SECS)
}

/// The TOTP code of `secret` for a reading of the clock: `clock_secs` is the
/// time in seconds after the epoch, or `None` for a clock that reads earlier
/// than the epoch, which gives no code.
pub fn totp_from_clock(secret: &[u8; 32], clock_secs: Option<u64>) -> (code: Option<u32>)
    ensures
        match clock_secs {
            Some(secs) => code matches Some(c) && c == totp_code(secret@, secs) && c == hotp_code(
                secret@,
                secs / TIME_STEP_SECS,
            ),
            None => code is None,
        },
{
    match clock_secs {
        Some(secs) => Some(totp_at(secret, secs)),
        None => None,
    }
}

/// The TOTP code of `secret` for the current time of the system clock, or
/// `None` when the clock reads earlier than the Unix epoch.
pub fn calculate_totp(secret: &[u8; 32]) -> (code: Option<u32>)
    ensures
        code matches Some(c) ==> c < CODE_MODULUS && exists|t: u64| c == totp_code(secret@, t),
{
    totp_from_clock(secret, unix_seconds_now())
}

/// Every instant of one 30-second window gets the same code.
pub proof fn lemma_totp_constant_within_step(key: Seq<u8>, t1: u64, t2: u64)
    requires
        t1 / TIME_STEP_SECS == t2 / TIME_STEP_SECS,
    ensures
        totp_code(key, t1) == totp_code(key, t2),
{
}

/// Thirty seconds later the clock is in the next window: its code is the
/// HOTP of the next counter value, and the code of any reading is the HOTP of
/// the number of whole windows since the epoch.
pub proof fn lemma_next_window(key: Seq<u8>, t: u64)
    requires
        t + TIME_STEP_SECS <= u64::MAX,
    ensures
        totp_code(key, (t + TIME_STEP_SECS) as u64) == hotp_code(key, (t / TIME_STEP_SECS + 1) as u64),
        totp_code(key, t) == hotp_code(key, (t / 30) as u64),
{
}

/// Every code has at most six decimal digits.
pub proof fn lemma_code_below_modulus(digest: Seq<u8>)
    requires
        digest.len() == 20,
    ensures
        0 <= truncated_code(digest) < CODE_MODULUS,
{
}

/// The message of a counter reads back, big-endian, as that counter.
pub proof fn lemma_counter_message_roundtrip(counter: u64)
    ensures
        be_u64_value(counter_bytes(counter)) == counter,
{
    let c = counter;
    assert(((c >> 56u64) & 0xff) as u8 == ((c >> 56u64) & 0xff)) by (bit_vector);
    assert(((c >> 48u64) & 0xff) as u8 == ((c >> 48u64) & 0xff)) by (bit_vector);
    assert(((c >> 40u64) & 0xff) as u8 == ((c >> 40u64) & 0xff)) by (bit_vector);
    assert(((c >> 32u64) & 0xff) as u8 == ((c >> 32u64) & 0xff)) by (bit_vector);
    assert(((c >> 24u64) & 0xff) as u8 == ((c >> 24u64) & 0xff)) by (bit_vector);
    assert(((c >> 16u64) & 0xff) as u8 == ((c >> 16u64) & 0xff)) by (bit_vector);
    assert(((c >> 8u64) & 0xff) as u8 == ((c >> 8u64) & 0xff)) by (bit_vector);
    assert((c & 0xff) as u8 == (c & 0xff)) by (bit_vector);
    assert(((c >> 56u64) & 0xff) * 0x100000000000000 + ((c >> 48u64) & 0xff) * 0x1000000000000
        + ((c >> 40u64) & 0xff) * 0x10000000000 + ((c >> 32u64) & 0xff) * 0x100000000 + ((c
        >> 24u64) & 0xff) * 0x1000000 + ((c >> 16u64) & 0xff) * 0x10000 + ((c >> 8u64) & 0xff)
        * 0x100 + (c & 0xff) == c) by (bit_vector);
}

} // verus!
