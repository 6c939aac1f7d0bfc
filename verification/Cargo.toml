[package]
name = "permute"
version = "0.1.0"
edition = "2021"
publish = false

[dependencies]
rand = "0.8"
biquad = "0.4"
rustfft = "6"
sndfile = "0.1"
crossbeam-channel = "0.5"
rayon = "1"
serde = { version = "1", features = ["derive"] }
serde_json = "1"
structopt = "0.3"
strum = { version = "0.26", features = ["derive"] }
lazy_static = "1"
hound = "3"
