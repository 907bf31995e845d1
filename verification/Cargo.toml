[package]
name = "light_field_test"
version = "0.1.0"
edition = "2021"
publish = false

[dependencies]
faer = "0.22"
image = "0.25"
bincode = { version = "2", features = ["serde"] }
serde = { version = "1", features = ["derive"] }
clap = { version = "4", features = ["derive"] }
ron = "0.8"
walkdir = "2"
wgpu = "24"
pollster = "0.4"
futures-intrusive = "0.5"
indicatif = "0.17"
cgmath = "0.18"
crevice = { version = "0.18", features = ["cgmath"] }
bytemuck = "1"
plotters = { version = "0.3", default-features = false, features = ["bitmap_backend", "bitmap_encoder", "line_series"] }
