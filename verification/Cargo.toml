[package]
name = "codex_usage_win"
version = "1.0.5"
edition = "2021"
publish = false

[dependencies]
serde = { version = "1", features = ["derive"] }
serde_json = "1"
windows = { version = "0.58", features = ["Win32_Foundation", "Win32_System_Time", "Win32_Graphics_Gdi"] }
