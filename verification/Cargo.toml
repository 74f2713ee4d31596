[package]
name = "tauri-plugin-vnidrop-share"
version = "1.0.0"
edition = "2021"
publish = false

[dependencies]
base64 = "0.22"
serde = { version = "1", features = ["derive"] }
uuid = { version = "1", features = ["v4"] }
tempfile = "3"
log = "0.4"
raw-window-handle = "0.6"
objc2 = "0.6"
objc2-app-kit = "0.3"
objc2-foundation = "0.3"
objc2-core-foundation = "0.3"
windows = { version = "0.61", features = ["ApplicationModel_DataTransfer", "Foundation", "Foundation_Collections", "Storage", "Win32_Foundation", "Win32_System_WinRT", "Win32_UI_Shell"] }
windows-collections = "0.2"
