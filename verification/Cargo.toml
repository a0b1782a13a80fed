[package]
name = "asbar"
version = "0.1.0"
edition = "2021"
publish = false

[dependencies]
base64 = "=0.22.1"
serde = { version = "=1.0.229", features = ["derive"] }
serde_json = "=1.0.154"
parking_lot = "=0.12.5"
reqwest = { version = "=0.12.28", features = ["json", "blocking"] }
windows = { version = "=0.58.0", features = ["Foundation", "Media_Control", "Storage_Streams", "UI_ViewManagement", "Win32_Foundation", "Win32_Media_Audio", "Win32_System_Com", "Win32_UI_Accessibility", "Win32_UI_Shell", "Win32_UI_WindowsAndMessaging"] }
