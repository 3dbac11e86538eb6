[package]
name = "alma_onebot_bridge"
version = "0.1.0"
edition = "2021"
publish = false

[dependencies]
async-tungstenite = { version = "=0.35.0", features = ["smol-runtime"] }
base64 = "=0.22.1"
dirs = "=7.0.0"
futures-util = "0.3"
serde = { version = "1", features = ["derive"] }
serde_json = "=1.0.154"
smol = "2"
time = { version = "=0.3.55", features = ["local-offset"] }
toml = "=1.1.8"
tracing = "0.1"
tracing-appender = "0.2"
tracing-subscriber = { version = "0.3", default-features = false, features = ["fmt", "env-filter"] }
trillium = "=1.4.0"
trillium-client = "=0.9.8"
trillium-http = "=1.3.10"
trillium-router = "=0.6.0"
trillium-server-common = "=0.7.9"
trillium-smol = "=0.7.0"
trillium-websockets = "=0.9.3"
turso = { version = "=0.8.3", default-features = false }
url = "=2.5.8"
uuid = { version = "=1.29.0", features = ["v4"] }
velopack = "=1.2.161"
windows-reactor = "=0.100.0"
windows-sys = { version = "=0.61.2", features = ["Win32_Foundation", "Win32_Globalization", "Win32_Graphics_Gdi", "Win32_Security", "Win32_System_LibraryLoader", "Win32_System_Threading", "Win32_UI_Shell", "Win32_UI_WindowsAndMessaging"] }
