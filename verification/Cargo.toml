[package]
name = "companion_core"
version = "0.1.0"
edition = "2021"
publish = false

[dependencies]
com-policy-config = "*"
windows = { version = "*", features = [
    "Win32_Devices_FunctionDiscovery",
    "Win32_Foundation",
    "Win32_Media_Audio",
    "Win32_System_Com",
    "Win32_System_Com_StructuredStorage",
    "Win32_System_Variant",
    "Win32_UI_WindowsAndMessaging",
] }

[dev-dependencies]
serde_json = "1"
