[package]
name = "bar_lyrics"
version = "0.1.0"
edition = "2021"
publish = false

[dependencies]
unicode-segmentation = "1"
tungstenite = { version = "*", features = ["native-tls"] }
getrandom = "0.3"
serde = { version = "1", features = ["derive"] }
serde_json = "1"
ureq = { version = "3", features = ["json", "native-tls", "platform-verifier"] }
tiny_http = "0.12"
dbus = { version = "0.9", features = ["vendored"] }
libc = "0.2"
