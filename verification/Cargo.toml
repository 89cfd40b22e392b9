[package]
name = "sali"
version = "0.1.0"
edition = "2021"
publish = false

[dependencies]
chrono = "0.4"
clap = { version = "4", features = ["derive"] }
dirs = "*"
env_logger = "*"
greetd_ipc = { version = "*", features = ["sync-codec"] }
gtk4 = "*"
gtk4-layer-shell = "*"
log = "0.4"
rsass = "*"
serde = { version = "1", features = ["derive"] }
serde_yaml = "0.9"
