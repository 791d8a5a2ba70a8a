[package]
name = "tt-rc-pro"
version = "0.1.0"
edition = "2021"
publish = false

[dependencies]
image = { version = "0.25", default-features = false, features = ["gif", "jpeg"] }
imageproc = { version = "0.25", default-features = false }
ab_glyph = "0.2"
anyhow = "1"
clap = { version = "4", features = ["derive"] }
dirs = "6"
libc = "0.2"
serde = { version = "1", features = ["derive"] }
sysinfo = "0.33"
toml = "0.8"
