[package]
name = "minecrate"
version = "0.1.0"
edition = "2021"
publish = false

[dependencies]
openssl = "*"
rand = "*"
serde = { version = "*", features = ["derive"] }
serde_json = "*"
toml = "*"
reqwest = { version = "*", features = ["blocking"] }
ctrlc = "*"
env_logger = "*"
log = "*"
specs = "*"
