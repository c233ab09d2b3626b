[package]
name = "niri_settings"
version = "0.1.0"
edition = "2021"
publish = false

[dependencies]
kdl = "4"
serde = { version = "1", features = ["derive"] }
serde_json = "1"
thiserror = "1"
log = "0.4"
env_logger = "0.11"
gtk4 = "*"
futures = "0.3"
