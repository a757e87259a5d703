use qrcode::types::QrError;
use qrcode::{EcLevel, QrCode};
use zappka_esp::{
    get_qr, get_qr_str, make_qr, make_qr_str, payment_url, qr_text_bitmap, render_qr_text,
    six_digit_code, symbol_from_encoding, ModuleColor, QrMatrix,
};

#[test]
fn code_is_zero_padded_to_six_digits() {
    assert_eq!(six_digit_code(0), "000000");
    assert_eq!(six_digit_code(42), "000042");
    assert_eq!(six_digit_code(123456), "123456");
    assert_eq!(six_digit_code(1234567), "1234567");
    assert_eq!(six_digit_code(u32::MAX), "4294967295");
}

#[test]
fn payment_url_carries_user_and_code() {
    assert_eq!(payment_url(42, "ab12"), "https://srln.pl/view/dashboard?ploy=ab12&pay=000042");
    assert_eq!(payment_url(987654, ""), "https://srln.pl/view/dashboard?ploy=&pay=987654");
}

fn reference_code(totp: u32, userid: &str) -> QrCode {
    let url = format!("https://srln.pl/view/dashboard?ploy={}&pay={:06}", userid, totp);
    QrCode::with_error_correction_level(url.as_bytes(), EcLevel::L).unwrap()
}

fn same_symbol(m: &QrMatrix, code: &QrCode) -> bool {
    if m.width() != code.width() {
        return false;
    }
    let colors = code.to_colors();
    for y in 0..m.width() {
        for x in 0..m.width() {
            let dark = colors[y * m.width() + x] == qrcode::Color::Dark;
            if dark != (m.module(x, y) == ModuleColor::Dark) {
                return false;
            }
        }
    }
    true
}

#[test]
fn make_qr_encodes_the_payment_url() {
    let m = make_qr(123, "user-7").unwrap();
    assert!(m.width() >= 21);
    assert!(same_symbol(&m, &reference_code(123, "user-7")));
}

#[test]
fn make_qr_fails_on_too_much_data() {
    let long = "x".repeat(4000);
    assert_eq!(make_qr(1, &long).err(), Some("QR gen failed"));
    assert_eq!(make_qr_str(1, &long).err(), Some("QR gen failed"));
}

#[test]
fn encoder_error_becomes_message() {
    assert_eq!(symbol_from_encoding(Err(QrError::DataTooLong)).err(), Some("QR gen failed"));
    let ok = symbol_from_encoding(Ok((21, vec![ModuleColor::Light; 441]))).unwrap();
    assert_eq!(ok.width(), 21);
    assert_eq!(ok.module(20, 20), ModuleColor::Light);
}

#[test]
fn make_qr_str_matches_the_crate_rendering() {
    let text = make_qr_str(654321, "abc").unwrap();
    let expected = reference_code(654321, "abc")
        .render::<char>()
        .dark_color('.')
        .quiet_zone(false)
        .module_dimensions(2, 2)
        .build();
    assert_eq!(text, expected);
    let m = make_qr(654321, "abc").unwrap();
    assert_eq!(render_qr_text(&m), expected);
    let lines: Vec<&str> = text.split('\n').collect();
    assert_eq!(lines.len(), 2 * m.width());
    assert!(lines.iter().all(|l| l.chars().count() == 2 * m.width()));
    assert!(text.chars().all(|c| c == '.' || c == ' ' || c == '\n'));
}

#[test]
fn current_qr_has_a_symbol() {
    let key = [7u8; 32];
    let m = get_qr(&key, "42").unwrap();
    assert!(m.width() >= 21);
    let text = get_qr_str(&key, "42").unwrap();
    assert!(text.contains('.'));
    let long = "y".repeat(4000);
    assert_eq!(get_qr(&key, &long).err(), Some("QR gen failed"));
    assert_eq!(get_qr_str(&key, &long).err(), Some("QR gen failed"));
}

fn pixel(buf: &[u8; 128], x: usize, y: usize) -> bool {
    buf[y * 4 + x / 8] & (1 << (7 - x % 8)) != 0
}

#[test]
fn bitmap_sets_bits_for_dots() {
    let buf = qr_text_bitmap(". .\n\n        .\r\n.");
    assert_eq!(buf[0], 0b1010_0000);
    assert_eq!(buf[4], 0);
    assert_eq!(buf[9], 0b1000_0000);
    assert_eq!(buf[12], 0b1000_0000);
    assert_eq!(buf.iter().map(|b| b.count_ones()).sum::<u32>(), 4);
}

#[test]
fn bitmap_ignores_text_beyond_32_columns_and_lines() {
    let mut text = String::new();
    for _ in 0..40 {
        text.push_str(&".".repeat(40));
        text.push('\n');
    }
    let buf = qr_text_bitmap(&text);
    assert_eq!(buf, [0xffu8; 128]);
    let buf = qr_text_bitmap(&format!("{}.", " ".repeat(32)));
    assert_eq!(buf, [0u8; 128]);
}

#[test]
fn bitmap_of_rendered_symbol_shows_its_modules() {
    let m = make_qr(111111, "reader").unwrap();
    let buf = qr_text_bitmap(&render_qr_text(&m));
    for y in 0..32 {
        for x in 0..32 {
            assert_eq!(pixel(&buf, x, y), m.module(x / 2, y / 2) == ModuleColor::Dark);
        }
    }
}
