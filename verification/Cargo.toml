[package]
name = "watermark"
version = "0.1.0"
edition = "2021"
publish = false

[dependencies]
image = { version = "0.25", default-features = false, features = ["jpeg", "png", "webp", "bmp", "tiff", "gif"] }
imageproc = { version = "0.25", default-features = false }
ab_glyph = "0.2"
bytemuck = { version = "1", features = ["derive"] }
clap = { version = "4", features = ["derive"] }
colored = "2"
futures-intrusive = "0.5"
hayro = "*"
indicatif = "0.17"
log = "0.4"
pollster = "0.3"
rayon = "1"
wgpu = "0.20"
