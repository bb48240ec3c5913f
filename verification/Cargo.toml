[package]
name = "okra"
version = "0.1.0"
edition = "2021"
publish = false

[dependencies]
bcrypt = "*"
sqlite = "*"
log = "*"
env_logger = "*"
rocket = { version = "0.5", features = ["json", "secrets"] }
rocket_cors = "*"
structopt = "*"
