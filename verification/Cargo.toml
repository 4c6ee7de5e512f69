[package]
name = "organizer"
version = "0.1.0"
edition = "2021"
publish = false

[dependencies]
anyhow = "*"
blake3 = "*"
clap = { version = "*", features = ["derive"] }
dirs = "*"
globset = "*"
infer = "*"
rayon = "*"
serde = { version = "*", features = ["derive"] }
time = { version = "*", features = ["macros", "formatting"] }
walkdir = "*"
