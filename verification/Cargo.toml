[package]
name = "msvc_cache"
version = "0.1.0"
edition = "2021"
publish = false

[dependencies]
local-encoding = "*"
futures = "0.1"
futures-cpupool = "0.1"
log = "0.3"
kernel32-sys = "0.2"
