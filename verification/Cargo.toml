[package]
name = "dmarc_extract"
version = "0.1.0"
edition = "2021"
publish = false

[dependencies]
imap = "*"
libflate = "*"
mailparse = "*"
native-tls = "*"
rpassword = "*"
structopt = "*"
zip = { version = "*", default-features = false, features = ["deflate"] }
