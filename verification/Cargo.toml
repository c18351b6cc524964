[package]
name = "media_capture"
version = "0.1.0"
edition = "2021"
publish = false

[dependencies]
napi = { version = "3", features = ["napi4"] }
napi-derive = "3"
windows = { version = "0.61", features = ["Win32_Foundation", "Win32_Media_Audio", "Win32_System_Com", "Win32_System_ProcessStatus", "Win32_System_Threading", "Win32_System_Diagnostics_ToolHelp"] }
windows-core = "0.61"
