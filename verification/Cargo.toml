[package]
name = "immich"
version = "0.1.0"
edition = "2021"
publish = false

[dependencies]
crossbeam-channel = "=0.5.17"
flate2 = "=1.1.10"
serde = { version = "=1.0.229", features = ["derive"] }
serde_json = "=1.0.154"
sha1_smol = { version = "=1.0.1", features = ["std"] }
tar = "=0.4.46"
thiserror = "=1.0.69"
time = { version = "=0.3.55", features = ["formatting", "parsing", "macros", "serde"] }
ureq = { version = "=2.12.1", features = ["json"] }
