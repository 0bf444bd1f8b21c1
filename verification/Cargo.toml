[package]
name = "koishi"
version = "0.1.0"
edition = "2021"
publish = false

[dependencies]
clap = { version = "=4.6.7", features = ["derive", "cargo"] }
clap_complete = { version = "=4.6.11", features = ["unstable-dynamic"] }
gix = { version = "=0.90.0", default-features = false, features = ["sha1"] }
image = { version = "=0.25.10", default-features = false, features = ["png"] }
inquire = "=0.9.4"
miette = { version = "=7.6.0", features = ["fancy"] }
qrcode = "=0.14.1"
saphyr = "=0.2.2"
serde_json = { version = "=1.0.154", features = ["preserve_order"] }
shellexpand = { version = "=3.1.2", features = ["path"] }
strum = "=0.28.0"
strum_macros = "=0.28.0"
totp-rs = { version = "=5.7.2", features = ["otpauth"] }
walkdir = "=2.5.0"
wl-clipboard-rs = "=0.9.4"
zeroize = "=1.9.1"
