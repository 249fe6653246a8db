[package]
name = "cadence_core"
version = "0.1.0"
edition = "2021"
publish = false

[dependencies]
sha2 = "0.10"
urlencoding = "2"
dirs = "*"
rusqlite = { version = "*", features = ["bundled"] }
lofty = "0.22"
walkdir = "2"
ureq = "3"
serde = { version = "1", features = ["derive"] }
serde_json = "1"
notify = "*"
rayon = "1"
anyhow = "1"
thiserror = "*"
