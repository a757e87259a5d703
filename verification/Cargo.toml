[package]
name = "zappka_esp"
version = "0.1.0"
edition = "2021"
publish = false

[dependencies]
hmac = "0.12"
sha1 = "0.10"
qrcode = { version = "0.14", default-features = false }
embedded-graphics = "0.8"
embedded-hal = "1"
sh1106 = "0.5"
chrono = "0.4"
anyhow = "1"
log = "0.4"
heapless = "0.8"
esp-idf-hal = "*"
esp-idf-svc = "*"
