[package]
name = "usb_platform"
version = "0.1.0"
edition = "2021"
publish = false

[dependencies]
log = "=0.4.35"
windows-sys = { version = "=0.60.2", features = [
    "Win32_Foundation",
    "Win32_System_IO",
    "Win32_Devices_Usb",
    "Win32_Devices_Properties",
] }
