[package]
name = "clavfrancais_engine"
version = "0.1.0"
edition = "2021"
publish = false

[dependencies]
lazy_static = "1"
windows = { version = "0.58", features = ["Win32_Foundation", "Win32_UI_Input_KeyboardAndMouse", "Win32_UI_WindowsAndMessaging"] }
