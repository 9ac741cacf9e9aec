[package]
name = "tetra_master"
version = "0.1.0"
edition = "2021"
publish = false

[dependencies]
rand = "=0.4.6"
find_folder = "0.3"
image = { version = "0.23", default-features = false, features = ["png"] }
rodio = { version = "0.9", default-features = false, features = ["vorbis"] }
