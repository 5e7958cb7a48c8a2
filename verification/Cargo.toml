[package]
name = "erika"
version = "0.1.0"
edition = "2021"
publish = false

[dependencies]
serde_json = "1"
ab_glyph = "0.2"
fontdb = "*"
crossbeam-channel = "0.5"
thiserror = "*"
libc = "0.2"
bytemuck = { version = "1", features = ["derive"] }
pollster = "*"
raw-window-handle = "0.6"
