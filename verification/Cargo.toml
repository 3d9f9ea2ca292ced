[package]
name = "data-cleaner"
version = "1.0.0"
edition = "2021"
publish = false

[dependencies]
bytesize = "=2.7.0"
chrono = "=0.4.45"
dirs = "=7.0.0"
glob = "=0.3.4"
libc = "=0.2.191"
rayon = "*"
serde = { version = "=1.0.229", features = ["derive"] }
serde_json = "=1.0.154"
sysinfo = "*"
uuid = { version = "=1.29.0", features = ["v4", "serde"] }
walkdir = "=2.5.0"
