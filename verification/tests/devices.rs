use zappka_esp::{
    check_wifi_credentials, clock_is_synced, tone_action, BitCanvas, BitPixel, Builder,
    BuzzerTone, DisplayRotation, DisplaySize, ModuleColor, ToneAction, WifiConfigError,
};

#[test]
fn pixels_map_light_modules_to_lit() {
    assert_eq!(format!("{:?}", BitPixel::default_color(ModuleColor::Light)), "BitPixel(true)");
    assert_eq!(format!("{:?}", BitPixel::default_color(ModuleColor::Dark)), "BitPixel(false)");
}

fn blank(width: u32, height: u32) -> BitCanvas {
    BitCanvas::new(
        width,
        height,
        BitPixel::default_color(ModuleColor::Dark),
        BitPixel::default_color(ModuleColor::Light),
    )
}

#[test]
fn canvas_rounds_width_to_bytes() {
    let canvas = blank(21, 21);
    let mut buf = [0xeeu8; 100];
    assert_eq!(canvas.set_bytearray(&mut buf), 24);
    assert!(buf[..63].iter().all(|b| *b == 0));
    assert!(buf[63..].iter().all(|b| *b == 0xee));
    let canvas = blank(16, 2);
    let mut buf = [1u8; 4];
    assert_eq!(canvas.set_bytearray(&mut buf), 16);
    assert_eq!(buf, [0, 0, 0, 0]);
}

#[test]
fn drawing_sets_one_bit() {
    let mut canvas = blank(21, 3);
    canvas.draw_dark_pixel(0, 0);
    canvas.draw_dark_pixel(9, 1);
    canvas.draw_dark_pixel(23, 2);
    canvas.draw_dark_pixel(9, 1);
    let canvas = canvas.into_image();
    let mut buf = [0u8; 9];
    canvas.set_bytearray(&mut buf);
    assert_eq!(buf, [0x80, 0, 0, 0, 0x40, 0, 0, 0, 0x01]);
}

#[test]
fn short_buffer_gets_a_prefix() {
    let mut canvas = blank(8, 4);
    canvas.draw_dark_pixel(7, 3);
    canvas.draw_dark_pixel(0, 1);
    let mut buf = [0xaau8; 2];
    assert_eq!(canvas.set_bytearray(&mut buf), 8);
    assert_eq!(buf, [0x00, 0x80]);
}

#[test]
fn builder_defaults() {
    let b = Builder::new();
    assert_eq!(b.display_size(), DisplaySize::Display128x64);
    assert_eq!(b.rotation(), DisplayRotation::Rotate0);
    assert_eq!(b.i2c_addr(), 0x3c);
    let d = Builder::default();
    assert_eq!(d.display_size(), b.display_size());
    assert_eq!(d.rotation(), b.rotation());
    assert_eq!(d.i2c_addr(), b.i2c_addr());
}

#[test]
fn builder_setters_change_one_option() {
    let b = Builder::new()
        .with_rotation(DisplayRotation::Rotate180)
        .with_i2c_addr(0x3d)
        .with_size(DisplaySize::Display128x32);
    assert_eq!(b.display_size(), DisplaySize::Display128x32);
    assert_eq!(b.rotation(), DisplayRotation::Rotate180);
    assert_eq!(b.i2c_addr(), 0x3d);
    let c = b.with_size(DisplaySize::Display128x128);
    assert_eq!(c.rotation(), DisplayRotation::Rotate180);
    assert_eq!(c.i2c_addr(), 0x3d);
}

#[test]
fn tones_play_at_half_duty() {
    let tone = BuzzerTone { freq_hz: 200, duration_ms: 3000 };
    assert_eq!(
        tone_action(&tone, 16383),
        ToneAction::Play { freq_hz: 200, duty: 8191, duration_ms: 3000 }
    );
}

#[test]
fn silent_tones_rest() {
    for tone in [BuzzerTone { freq_hz: 0, duration_ms: 500 }, BuzzerTone { freq_hz: 440, duration_ms: 0 }] {
        assert_eq!(tone_action(&tone, 100), ToneAction::Rest { pause_ms: 10 });
    }
}

#[test]
fn wifi_credentials_are_checked_by_length() {
    assert_eq!(check_wifi_credentials("home", "secret"), Ok(()));
    assert_eq!(check_wifi_credentials(&"s".repeat(32), &"p".repeat(64)), Ok(()));
    let err = check_wifi_credentials(&"s".repeat(33), "p").unwrap_err();
    assert_eq!(err, WifiConfigError::SsidTooLong);
    assert_eq!(err.message(), "SSID too long");
    let err = check_wifi_credentials("s", &"p".repeat(65)).unwrap_err();
    assert_eq!(err, WifiConfigError::PasswordTooLong);
    assert_eq!(err.message(), "Password too long");
    // Both too long: the SSID is reported.
    assert_eq!(check_wifi_credentials(&"s".repeat(33), &"p".repeat(65)), Err(WifiConfigError::SsidTooLong));
    // Lengths are in UTF-8 bytes.
    assert_eq!(check_wifi_credentials(&"ż".repeat(17), ""), Err(WifiConfigError::SsidTooLong));
}

#[test]
fn clock_counts_as_set_after_2000() {
    assert!(!clock_is_synced(1970));
    assert!(!clock_is_synced(2000));
    assert!(clock_is_synced(2001));
}
