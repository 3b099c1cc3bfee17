[package]
name = "tims_frames"
version = "0.1.0"
edition = "2021"
publish = false

[dependencies]
rayon = "1"
rusqlite = { version = "*", features = ["bundled"] }
thiserror = "1"
timscompress = "*"
