[package]
name = "aligned_malloc"
version = "0.1.0"
edition = "2021"
publish = false

[dependencies]
libc = "0.2"
windows-sys = { version = "*", features = ["Win32_Foundation", "Win32_System_Memory"] }
jemalloc-sys = "0.5"
mimalloc-sys = "0.1"
