[package]
name = "halo_snapshot"
version = "0.1.0"
edition = "2021"
publish = false

[dependencies]
glow = "=0.14.2"
imgui = { version = "=0.12.0", features = ["tables-api"] }
imgui-glow-renderer = "=0.13.0"
imgui-sdl2-support = "=0.13.0"
sdl2 = "=0.37.0"
sysinfo = "=0.39.6"
windows = { version = "=0.58.0", features = ["Win32_Foundation", "Win32_System_Threading", "Win32_System_Diagnostics_Debug"] }
