[package]
name = "lx_monitor"
version = "0.1.2"
edition = "2021"
publish = false

[dependencies]
amdgpu-sysfs = "*"
libc = "0.2"
sysinfo = { version = "0.30", default-features = false }
