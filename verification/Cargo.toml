[package]
name = "maplibre"
version = "0.1.0"
edition = "2021"
publish = false

[dependencies]
serde = { version = "=1.0.229", features = ["derive"] }
serde_json = "=1.0.154"
widestring = "=1.2.1"
downcast-rs = "=1.2.1"
csscolorparser = "=0.9.0"
prost = "*"
image = { version = "*", default-features = false }
