[package]
name = "lg_codec"
version = "0.1.0"
edition = "2021"
publish = false

[dependencies]
fdsm = { version = "=0.6.0", features = ["ttf-parser"] }
image = { version = "=0.25.10", default-features = false }
nalgebra = "=0.33.3"
thiserror = "=2.0.21"
ttf-parser = "=0.24.1"
