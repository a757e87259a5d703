use vstd::prelude::*;
use vstd::string::StringSliceAdditionalSpecFns;

verus! {

/// Value of one ASCII hex digit; every other byte counts as zero.
pub open spec fn hex_digit_value(c: u8) -> u8 {
    if 0x30 <= c && c <= 0x39 {
        (c - 0x30) as u8
    } else if 0x61 <= c && c <= 0x66 {
        (c - 0x61 + 10) as u8
    } else if 0x41 <= c && c <= 0x46 {
        (c - 0x41 + 10) as u8
    } else {
        0
    }
}

/// The nibble that the `i`-th character of `text` contributes; positions past
/// the end of the text contribute zero.
pub open spec fn nibble_at(text: Seq<u8>, i: int) -> u8 {
    if 0 <= i < text.len() {
        hex_digit_value(text[i])
    } else {
        0
    }
}

/// Byte `j` of the decoded key: the digits `2j` and `2j + 1`, high nibble first.
pub open spec fn decoded_byte(text: Seq<u8>, j: int) -> u8 {
    (nibble_at(text, 2 * j) * 16 + nibble_at(text, 2 * j + 1)) as u8
}

fn digit_value(c: u8) -> (v: u8)
    ensures
        v == hex_digit_value(c),
        v < 16,
{
    if 0x30 <= c && c <= 0x39 {
        c - 0x30
    } else if 0x61 <= c && c <= 0x66 {
        c - 0x61 + 10
    } else if 0x41 <= c && c <= 0x46 {
        c - 0x41 + 10
    } else {
        0
    }
}

/// Decodes up to 64 hex digits of `hex` into a 32-byte key, two digits per
/// byte with the high nibble first. Characters that are not hex digits count
/// as zero, a missing last digit counts as zero, and bytes that no digit
/// reaches stay zero.
pub fn hex_to_bytes(hex: &str) -> (bytes: [u8; 32])
    ensures
        forall|j: int| 0 <= j < 32 ==> #[trigger] bytes@[j] == decoded_byte(hex.spec_bytes(), j),
{
    let text = hex.as_bytes();
    let n = text.len();
    let mut bytes = [0u8; 32];
    let mut i: usize = 0;
    let mut j: usize = 0;
    while i < n && j < 32
        invariant
            text@ == hex.spec_bytes(),
            n == text@.len(),
            i <= n,
            j <= 32,
            j == i / 2,
            bytes@.len() == 32,
            forall|k: int| 0 <= k < j ==> #[trigger] bytes@[k] == decoded_byte(text@, k),
            i % 2 == 1 ==> bytes@[j as int] == nibble_at(text@, i - 1) * 16,
            forall|k: int| j < k < 32 ==> #[trigger] bytes@[k] == 0,
            i % 2 == 0 && j < 32 ==> bytes@[j as int] == 0,
        decreases n - i,
    {
        let byte = digit_value(text[i]);
        if i % 2 == 0 {
            bytes[j] = byte << 4;
            assert(byte << 4 == byte * 16) by (bit_vector)
                requires
                    byte < 16,
            ;
        } else {
            let hi = bytes[j];
            bytes[j] = hi | byte;
            assert(hi | byte == hi + byte) by (bit_vector)
                requires
                    hi % 16 == 0,
                    byte < 16,
            ;
            j += 1;
        }
        i += 1;
    }
    assert forall|k: int| 0 <= k < 32 implies #[trigger] bytes@[k] == decoded_byte(hex.spec_bytes(), k) by {
        if k == j && i % 2 == 1 {
            // the last digit of an odd-length text: its low nibble is missing
            assert(nibble_at(hex.spec_bytes(), 2 * k + 1) == 0);
        }
    }
    bytes
}

/// Lower-case hex digit of a nibble.
pub open spec fn hex_char(n: u8) -> u8
    recommends
        n < 16,
{
    if n < 10 {
        (0x30 + n) as u8
    } else {
        (0x61 + n - 10) as u8
    }
}

/// Lower-case hex text of `bytes`, two digits per byte, high nibble first.
pub open spec fn hex_encode(bytes: Seq<u8>) -> Seq<u8> {
    Seq::new(
        2 * bytes.len(),
        |i: int|
            if i % 2 == 0 {
                hex_char(bytes[i / 2] / 16)
            } else {
                hex_char(bytes[i / 2] % 16)
            },
    )
}

/// Decoding the hex text of a key gives the key back: every byte that the
/// text covers is restored.
pub proof fn lemma_hex_roundtrip(bytes: Seq<u8>)
    ensures
        forall|j: int| 0 <= j < bytes.len() ==> #[trigger] decoded_byte(hex_encode(bytes), j) == bytes[j],
{
    let text = hex_encode(bytes);
    assert forall|j: int| 0 <= j < bytes.len() implies #[trigger] decoded_byte(text, j) == bytes[j] by {
        assert((2 * j) % 2 == 0 && (2 * j) / 2 == j);
        assert((2 * j + 1) % 2 == 1 && (2 * j + 1) / 2 == j);
        let b = bytes[j];
        assert(nibble_at(text, 2 * j) == b / 16);
        assert(nibble_at(text, 2 * j + 1) == b % 16);
    }
}

/// Upper-case hex digit of a nibble.
pub open spec fn hex_char_upper(n: u8) -> u8
    recommends
        n < 16,
{
    if n < 10 {
        (0x30 + n) as u8
    } else {
        (0x41 + n - 10) as u8
    }
}

/// Upper-case hex text of `bytes`, two digits per byte, high nibble first.
pub open spec fn hex_encode_upper(bytes: Seq<u8>) -> Seq<u8> {
    Seq::new(
        2 * bytes.len(),
        |i: int|
            if i % 2 == 0 {
                hex_char_upper(bytes[i / 2] / 16)
            } else {
                hex_char_upper(bytes[i / 2] % 16)
            },
    )
}

/// The ASCII lower-case form of a byte; other bytes stay as they are.
pub open spec fn ascii_lower(c: u8) -> u8 {
    if 0x41 <= c && c <= 0x5a {
        (c + 0x20) as u8
    } else {
        c
    }
}

/// The ASCII lower-case form of a text.
pub open spec fn lowercase_text(text: Seq<u8>) -> Seq<u8> {
    text.map_values(|c: u8| ascii_lower(c))
}

/// Each nibble is read back from its lower-case and from its upper-case
/// digit, and an upper-case letter digit has the value of the same letter in
/// lower case.
pub proof fn lemma_hex_digit_values(n: u8, c: u8)
    ensures
        n < 16 ==> hex_digit_value(hex_char(n)) == n,
        n < 16 ==> hex_digit_value(hex_char_upper(n)) == n,
        0x41 <= c <= 0x46 ==> hex_digit_value(c) == hex_digit_value((c + 0x20) as u8),
        0x41 <= c <= 0x46 ==> hex_digit_value(c) == c - 0x41 + 10,
{
}

/// Hex decoding does not depend on letter case: a text and its lower-case
/// form decode to the same key.
pub proof fn lemma_hex_case_insensitive(text: Seq<u8>)
    ensures
        forall|j: int| #[trigger] decoded_byte(lowercase_text(text), j) == decoded_byte(text, j),
{
    let lower = lowercase_text(text);
    assert forall|i: int| #[trigger] nibble_at(lower, i) == nibble_at(text, i) by {
        if 0 <= i < text.len() {
            assert(lower[i] == ascii_lower(text[i]));
        }
    }
    assert forall|j: int| #[trigger] decoded_byte(lower, j) == decoded_byte(text, j) by {
        assert(nibble_at(lower, 2 * j) == nibble_at(text, 2 * j));
        assert(nibble_at(lower, 2 * j + 1) == nibble_at(text, 2 * j + 1));
    }
}

/// Decoding the upper-case hex text of a key gives the key back.
pub proof fn lemma_hex_roundtrip_upper(bytes: Seq<u8>)
    ensures
        forall|j: int| 0 <= j < bytes.len() ==> #[trigger] decoded_byte(hex_encode_upper(bytes), j) == bytes[j],
{
    let text = hex_encode_upper(bytes);
    assert forall|j: int| 0 <= j < bytes.len() implies #[trigger] decoded_byte(text, j) == bytes[j] by {
        assert((2 * j) % 2 == 0 && (2 * j) / 2 == j);
        assert((2 * j + 1) % 2 == 1 && (2 * j + 1) / 2 == j);
        let b = bytes[j];
        assert(nibble_at(text, 2 * j) == b / 16);
        assert(nibble_at(text, 2 * j + 1) == b % 16);
    }
}

} // verus!
