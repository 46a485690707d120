[package]
name = "freshrss_reader"
version = "0.1.0"
edition = "2021"
publish = false

[dependencies]
anyhow = "1"
log = "0.4"
serde = { version = "1", features = ["derive"] }
embedded-svc = "~0.25"
esp-idf-svc = "~0.46"
esp-idf-hal = "~0.41"
esp-idf-sys = "~0.33"
embedded-graphics = "~0.7"
display-interface-spi = "~0.4"
mipidsi = "~0.6"
ft6x06 = "~0.1"
toml-cfg = "~0.1"
slint = { version = "~1.0", default-features = false, features = ["compat-1-0"] }
