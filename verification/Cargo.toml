[package]
name = "good_scanner"
version = "0.1.0"
edition = "2021"
publish = false

[dependencies]
anyhow = "=1.0.104"
clap = { version = "=4.6.7", features = ["derive"] }
crossbeam-channel = "=0.5.17"
enigo = "=0.1.3"
env_logger = "=0.11.11"
image = { version = "=0.25.10", default-features = false, features = ["png"] }
indicatif = "=0.18.6"
indicatif-log-bridge = "=0.2.3"
log = "=0.4.35"
rayon = "=1.12.0"
regex = "=1.13.1"
reqwest = { version = "=0.12.28", default-features = false, features = ["blocking", "json", "rustls-tls"] }
serde = { version = "=1.0.229", features = ["derive"] }
serde_json = "=1.0.154"
tiny_http = "=0.12.0"
uuid = { version = "=1.29.0", features = ["v4"] }
windows-sys = { version = "=0.59.0", features = ["Win32_Foundation", "Win32_System_SystemInformation", "Win32_UI_Input_KeyboardAndMouse", "Win32_UI_WindowsAndMessaging"] }
