[package]
name = "manga_syncer"
version = "0.1.0"
edition = "2021"
publish = false

[dependencies]
anyhow = "*"
clap = { version = "*", features = ["derive"] }
ctrlc = "*"
env_logger = "*"
log = "*"
once_cell = "*"
rayon = "*"
reqwest = { version = "*", default-features = false, features = ["blocking"] }
serde = { version = "*", features = ["derive"] }
serde_json = "*"
serde_path_to_error = "*"
serde_with = "*"
signal-hook = "*"
tempfile = "*"
uuid = "*"
zip = { version = "*", default-features = false, features = ["deflate"] }
