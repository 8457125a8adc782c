[package]
name = "libserpix_rs"
version = "0.1.0"
edition = "2021"
publish = false

[dependencies]
cbor = "=0.4.1"
rustc-serialize = "=0.3.25"
tokio = { version = "=1.54.1", features = ["rt-multi-thread", "macros", "sync", "time"] }
futures = "=0.3.34"
anyhow = "=1.0.104"
image = { version = "=0.24.9", default-features = false, features = ["bmp"] }
devtimer = "=4.0.1"
win-screenshot = "=2.0.0"
windows = { version = "=0.37.0", features = ["Win32_Foundation", "Win32_Graphics_Gdi", "Win32_Storage_Xps", "Win32_UI_WindowsAndMessaging"] }
