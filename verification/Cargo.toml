[package]
name = "u_u"
version = "0.1.0"
edition = "2021"
publish = false

[dependencies]
jpeg-decoder = "=0.3.2"
png = "=0.18.1"
serde = { version = "=1.0.229", features = ["derive"] }
serde_json = "=1.0.151"
visioncortex = "=0.8.10"
vtracer = "=0.6.5"
