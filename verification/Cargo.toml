[package]
name = "iamawrapper"
version = "0.1.0"
edition = "2021"
publish = false

[dependencies]
aes = "0.8"
base64 = "0.22"
cbc = "0.1"
clap = { version = "4", features = ["derive"] }
dialoguer = "0.11"
flate2 = "1"
hex = "0.4"
hmac = "0.12"
indicatif = "0.17"
quick-xml = "0.31"
rand = "0.8"
sha1 = "0.10"
sha2 = "0.10"
thiserror = "1"
walkdir = "2"
zip = { version = "0.6", default-features = false, features = ["deflate"] }
