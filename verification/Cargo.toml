[package]
name = "mcscan"
version = "0.1.0"
edition = "2021"
publish = false

[dependencies]
rand = "0.9"
log = "*"
fern = "*"
chrono = "*"
jiff = "*"
once_cell = "*"
serde = { version = "*", features = ["derive"] }
serde_json = "*"
toml = "*"
tokio = { version = "*", features = ["full"] }
reqwest = { version = "*", default-features = false, features = ["json"] }
