[package]
name = "win_ftype"
version = "0.1.0"
edition = "2021"
publish = false

[dependencies]
normpath = "=1.5.2"
windows = { version = "=0.44.0", features = ["Win32_Foundation", "Win32_System_Memory", "Win32_UI_Shell"] }
