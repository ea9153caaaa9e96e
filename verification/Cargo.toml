[package]
name = "multiqr"
version = "0.1.0"
edition = "2021"
publish = false

[dependencies]
qr_code = { version = "=2.0.0", features = ["bmp"] }
clap = { version = "=4.6.7", features = ["derive"] }

[dev-dependencies]
rand = "=0.8.8"
