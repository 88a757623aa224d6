[package]
name = "termcard"
version = "0.1.3"
edition = "2021"
publish = false

[dependencies]
base64 = "=0.23.1"
regex = "=1.13.1"
unicode-width = "=0.2.3"
vt100 = "=0.16.2"
serde = { version = "=1.0.229", features = ["derive"] }
serde_json = "=1.0.154"
portable-pty = "=0.9.0"
resvg = "=0.48.1"
usvg = "=0.48.1"
tiny-skia = "=0.12.0"
fontdb = "=0.24.0"
