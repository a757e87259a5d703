# zappka_esp

Firmware for a small ESP32 terminal that shows a rotating six-digit payment
code and the QR symbol of the matching payment link on an SH1106 OLED panel.

- `src/` is the verified library (Verus): hex key decoding, HOTP/TOTP codes
  over HMAC-SHA1, code and link formatting, QR encoding and text rendering
  through the `qrcode` crate, reading a text rendering back into a bitmap, the
  one-bit canvas the panel image is drawn on, the panel driver options, and the
  small decision rules of the buzzer and the network setup.
- `app/` is the firmware around it: peripherals, Wi-Fi, SNTP, the buzzer
  thread, drawing on the panel, and the glue that lets the `qrcode` renderer
  draw on the library's canvas.
- `tests/` runs the library against RFC 4226/6238 vectors and against the
  `qrcode` crate's own rendering.
