[package]
name = "tinyconnect"
version = "0.1.2"
edition = "2021"
publish = false

[dependencies]
crossterm = "=0.28.1"
futures-util = "=0.3.34"
librespot = { version = "=0.8.0", default-features = false, features = ["with-libmdns", "rustls-tls-webpki-roots"] }
ratatui = "=0.29.0"
tokio = { version = "=1.54.1", features = ["macros", "rt-multi-thread", "sync", "time"] }
vergen = { version = "=9.0.6", default-features = false }
windows = { version = "0.61", features = ["Win32_Foundation", "Win32_Media_Audio", "Win32_Media_Audio_Endpoints", "Win32_System_Com", "Win32_System_Com_StructuredStorage", "Win32_System_Variant", "Win32_Devices_FunctionDiscovery", "Win32_UI_Shell_PropertiesSystem", "Win32_System_WindowsProgramming"] }
