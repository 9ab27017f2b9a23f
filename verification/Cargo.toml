[package]
name = "gbfr_logs"
version = "0.1.0"
edition = "2021"
publish = false

[dependencies]
log = "=0.4.35"
serde = { version = "=1.0.229", features = ["derive"] }
serde_json = "=1.0.154"
windows = { version = "=0.52.0", features = ["Win32_Foundation", "Win32_System_LibraryLoader", "Win32_System_Diagnostics_Debug"] }
