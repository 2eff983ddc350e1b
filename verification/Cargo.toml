[package]
name = "history_viewer"
version = "0.1.0"
edition = "2021"
publish = false

[dependencies]
aho-corasick = "1"
chrono = "0.4"
serde = { version = "1", features = ["derive"] }
serde_json = "1"
simd-json = "*"
walkdir = "2"
memmap2 = "*"
dirs = "*"
lazy_static = "1"
lru = "*"
rayon = "1"
uuid = { version = "1", features = ["v4"] }
