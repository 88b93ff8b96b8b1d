[package]
name = "mailbox"
version = "0.1.0"
edition = "2021"
publish = false

[dependencies]
base64 = "0.10"
failure = "0.1"
handlebars = "2.0"
humantime = "1.2"
imap = "1.0"
log = "0.4"
mailparse = "0.8"
native-tls = "0.2"
serde = { version = "1.0", features = ["derive"] }
serde_json = "1.0"
structopt = "0.2"
