//! Verified core of a TOTP payment-code terminal: hex key decoding,
//! HMAC-SHA1 based one-time codes, QR payload and bitmap handling, and the
//! small decision rules of the display, buzzer and network front end.

mod bit_image;
mod builder;
mod buzzer;
mod hex;
mod interface;
mod network;
mod qr;
mod qr_bitmap;
mod text;
mod totp;

pub use hex::{
    ascii_lower, decoded_byte, hex_char, hex_char_upper, hex_digit_value, hex_encode,
    hex_encode_upper, lemma_hex_case_insensitive, lemma_hex_digit_values, lemma_hex_roundtrip_upper,
    lowercase_text, hex_to_bytes, lemma_hex_roundtrip, nibble_at,
};
pub use totp::{
    be_u32_at, be_u64_value, calculate_totp, counter_bytes, counter_message,
    extract_int_from_bytes, hmac_sha1, hotp, hotp_code, lemma_code_below_modulus,
    lemma_counter_message_roundtrip, lemma_next_window, lemma_totp_constant_within_step,
    totp_from_clock, totp_at, totp_code,
    truncate_digest, truncated_code, truncation_offset, CODE_MODULUS, TIME_STEP_SECS,
};
pub use bit_image::{
    bit_index, bit_set, byte_index, lemma_blank_canvas_is_light, round_up_to_byte, BitCanvas,
    BitPixel, ModuleColor,
};
pub use text::{
    code_text, decimal, digit_char, lemma_code_text_has_six_digits, payment_url,
    payment_url_text, six_digit_code, zero_padded, CODE_DIGITS,
};
pub use qr::{
    get_qr, get_qr_str, make_qr, make_qr_str, payment_modules, qr_modules, qr_text_of,
    render_qr_text, rendered_char, rendered_module_dark, rendered_text, symbol_from_encoding,
    ErrorCorrection, QrMatrix, PAYMENT_ERROR_CORRECTION, TEXT_DARK_CHAR, TEXT_MODULE_SIZE,
};
pub use qr_bitmap::{
    bitmap_pixel, dot_at, dot_before, lemma_rendered_symbol_reads_back, qr_text_bitmap, text_position, TEXT_BITMAP_BYTES,
    TEXT_BITMAP_SIDE,
};
pub use builder::{Builder, DisplayRotation, DisplaySize, DEFAULT_I2C_ADDR};
pub use buzzer::{tone_action, BuzzerTone, ToneAction, REST_PAUSE_MS};
pub use interface::DisplayInterface;
pub use network::{
    check_wifi_credentials, clock_is_synced, WifiConfigError, PASSWORD_CAPACITY, SSID_CAPACITY,
    SYNCED_AFTER_YEAR,
};
