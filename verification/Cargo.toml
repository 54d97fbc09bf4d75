[package]
name = "tanuki"
version = "0.1.0"
edition = "2021"
publish = false

[dependencies]
base64 = "0.22"
serde_json = "1"
serde = { version = "1", features = ["derive"] }
ratatui = { version = "*", default-features = false, features = ["unstable-rendered-line-info"] }
rust_socketio = "0.6.0"
webrtc = "0.14"
tokio = { version = "1", features = ["rt", "sync", "time", "macros"] }
bytes = "1"
tracing = "0.1"
libc = "0.2"
junction = "1"
winreg = "*"
windows-sys = { version = "*", features = ["Win32_Foundation", "Win32_UI_WindowsAndMessaging"] }
