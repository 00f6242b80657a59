[package]
name = "nedots"
version = "0.1.0"
edition = "2021"
publish = false

[dependencies]
anyhow = "*"
chrono = "*"
clap = { version = "*", features = ["derive"] }
clap_complete = "*"
clap-verbosity-flag = "*"
console = "*"
dialoguer = "*"
directories = "*"
env_logger = "*"
indicatif = "*"
log = "*"
serde = { version = "*", features = ["derive"] }
serde_yaml = "*"
thiserror = "*"
trash = "*"
