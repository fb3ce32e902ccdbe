[package]
name = "burp"
version = "0.1.0"
edition = "2021"
publish = false

[dependencies]
rustc-hash = "=2.1.3"
geo = "=0.33.1"
geo-types = "=0.7.20"
geozero = { version = "=0.15.1", default-features = false, features = ["with-geojson"] }
ordered-float = "=5.5.1"
rstar = "=0.12.2"
serde = { version = "=1.0.229", features = ["derive"] }
flexbuffers = "=25.12.19"
rmp-serde = "=1.3.1"
priority-queue = "=2.7.0"
qutee = "=0.2.1"
log = "=0.4.35"
clap = { version = "=4.6.7", features = ["derive"] }
env_logger = "=0.11.11"
memmap2 = "=0.9.12"
rand = "=0.9.5"
indicatif = "=0.18.6"
