[package]
name = "flox_envs"
version = "0.1.0"
edition = "2021"
publish = false

[dependencies]
anyhow = "=1.0.104"
bpaf = { version = "*", features = ["derive"] }
config = { version = "*", default-features = false, features = ["toml"] }
crossterm = "=0.29.0"
dirs = "=7.0.0"
itertools = "*"
log = "*"
once_cell = "*"
serde = { version = "=1.0.229", features = ["derive"] }
serde_json = "=1.0.154"
tracing = "*"
