[package]
name = "chronograph"
version = "0.1.0"
edition = "2021"
publish = false

[dependencies]
anyhow = "1"
auto-launch = "0.6"
chrono = { version = "0.4", default-features = false, features = ["clock"] }
directories = "6"
egui = { version = "=0.34.3", default-features = false, features = ["default_fonts"] }
sqlx = { version = "0.8", default-features = false, features = ["runtime-tokio", "sqlite"] }
tokio = { version = "1", features = ["full"] }
tracing = "0.1"
tracing-subscriber = { version = "0.3", features = ["env-filter"] }
tray-icon = "0.26"
windows = { version = "0.58", features = ["Win32_Foundation", "Win32_Security", "Win32_System_Threading", "Win32_System_Pipes", "Win32_Storage_FileSystem", "Win32_UI_Input_KeyboardAndMouse", "Win32_System_SystemInformation"] }
wineventhook = "0.11"
