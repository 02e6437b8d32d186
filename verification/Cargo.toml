[package]
name = "suribrows"
version = "0.1.0"
edition = "2021"
publish = false

[dependencies]
url = "=2.5.8"
adblock = "=0.9.8"
# Not called by this crate: adblock 0.9.8 decodes with rmp-serde 0.15.5, which compiles
# against rmp 0.8.10 and no later version of it.
rmp = "=0.8.10"
fontdue = "=0.9.5"
glow = "=0.16.0"
toml = "=0.8.23"
serde = { version = "=1.0.229", features = ["derive"] }
tracing = "=0.1.44"
tracing-subscriber = { version = "=0.3.23", features = ["env-filter"] }
euclid = "=0.22.14"
winit = "=0.30.13"
rustls = "=0.23.46"
windows-sys = "=0.61.2"
