[package]
name = "kellerkompanie_sync"
version = "0.1.0"
edition = "2021"
publish = false

[dependencies]
ring = "=0.17.14"
data-encoding = "=2.11.1"
glob = "=0.3.4"
chrono = "=0.4.45"
walkdir = "=2.5.0"
pbr = "=1.1.1"
serde = { version = "=1.0.229", features = ["derive"] }
serde_json = "=1.0.151"
reqwest = { version = "=0.13.5", default-features = false, features = ["blocking", "form"] }
