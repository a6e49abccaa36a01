[package]
name = "hdc"
version = "0.1.0"
edition = "2021"
publish = false

[dependencies]
aes-gcm = "=0.10.3"
base64 = "=0.22.1"
libc = "=0.2.191"
libusb1-sys = "=0.7.0"
portable-pty = "=0.9.0"
rand = "=0.8.8"
rsa = { version = "=0.9.10", features = ["sha2"] }
rusb = "=0.9.4"
sha2 = "=0.10.9"
tokio = { version = "=1.54.1", features = ["full"] }
tracing = "=0.1.44"
tracing-subscriber = { version = "=0.3.23", features = ["env-filter", "local-time"] }
windows-sys = { version = "=0.61.2", features = ["Win32_Foundation", "Win32_Graphics_Gdi", "Win32_System_Console", "Win32_UI_WindowsAndMessaging"] }
zip = { version = "=2.6.1", default-features = false, features = ["deflate"] }
