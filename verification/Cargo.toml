[package]
name = "rune_kit"
version = "0.1.0"
edition = "2021"
publish = false

[dependencies]
serde = { version = "=1.0.229", features = ["derive"] }
serde_json = "=1.0.154"
glob-match = "=0.2.1"
mime_guess = "=2.0.5"
base64 = "=0.23.1"
chrono = "=0.4.45"
walkdir = "=2.5.0"
reqwest = { version = "=0.13.5", features = ["blocking", "json"] }
imap = "=2.4.1"
native-tls = "=0.2.18"
lettre = "=0.11.23"
mail-parser = "=0.11.9"
image = { version = "=0.25.10", default-features = false, features = ["png", "jpeg", "gif", "bmp", "webp", "tiff", "ico"] }
resvg = "=0.49.0"
vtracer = "=0.6.5"
visioncortex = "=0.8.10"
tokio = { version = "=1.54.1", features = ["full"] }
tokio-tungstenite = "=0.30.0"
futures-util = "=0.3.34"
