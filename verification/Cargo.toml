[package]
name = "femboylose"
version = "0.1.0"
edition = "2021"
publish = false

[dependencies]
keyvalues-parser = "=0.2.4"
sha2 = "=0.10.9"
serde = { version = "=1.0.229", features = ["derive"] }
reqwest = { version = "=0.12.28", default-features = false, features = ["json"] }
tokio = { version = "1", features = ["fs", "io-util"] }
sysinfo = "0.33"
winreg = "0.52"
windows-sys = { version = "=0.59.0", features = ["Win32_Foundation", "Win32_System_Threading", "Win32_UI_WindowsAndMessaging"] }
