[package]
name = "background_studio"
version = "0.1.3"
edition = "2021"
publish = false

[dependencies]
chrono = "0.4"
eframe = { version = "*", default-features = false, features = ["default_fonts", "glow", "x11"] }
image = { version = "0.25", default-features = false, features = ["png", "jpeg", "gif", "webp"] }
imagesize = "*"
lru = "*"
reqwest = { version = "0.12", default-features = false, features = ["blocking", "rustls-tls"] }
rfd = "*"
semver = "1"
serde = { version = "1", features = ["derive"] }
serde_json = "1"
sha2 = "0.10"
tiny_http = "0.12"
tokio = { version = "1", features = ["rt-multi-thread", "sync", "time", "io-util", "net"] }
url = "2"
uuid = { version = "1", features = ["v4"] }
windows = { version = "*", features = ["Win32_Foundation", "Win32_System_Threading", "Win32_System_Com", "Win32_Graphics_Gdi", "Win32_UI_Shell"] }
winreg = "*"
zip = { version = "2", default-features = false, features = ["deflate"] }
