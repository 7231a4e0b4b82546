[package]
name = "wsl-relay"
version = "0.1.0"
edition = "2021"
publish = false

[dependencies]
anyhow = "1"
axum = "0.8"
png = "*"
serde = { version = "1", features = ["derive"] }
serde_json = "1"
tokio = { version = "1", features = ["rt-multi-thread", "macros", "net", "time", "signal", "sync"] }
toml = "*"
tracing = "0.1"
tracing-subscriber = "0.3"
windows = { version = "*", features = ["Win32_Foundation", "Win32_System_Registry", "Win32_System_Power", "Win32_System_Threading", "Win32_System_SystemServices", "Win32_System_DataExchange", "Win32_System_Memory", "Win32_System_LibraryLoader", "Win32_UI_Shell", "Win32_UI_WindowsAndMessaging", "Win32_Graphics_Gdi", "Data_Xml_Dom", "UI_Notifications"] }
