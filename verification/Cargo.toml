[package]
name = "blackbox_log"
version = "0.1.0"
edition = "2021"
publish = false

[dependencies]
hashbrown = "0.15"
serde = { version = "1", features = ["derive"] }
time = { version = "0.3", features = ["parsing"] }
uom = "0.36"
