[package]
name = "gnss_rcv"
version = "0.1.0"
edition = "2021"
publish = false

[dependencies]
rustfft = "=6.4.1"
rayon = "=1.12.0"
map_3d = "=0.1.7"
gnss-rs = "=2.7.0"

[dev-dependencies]
