[package]
name = "rsc"
version = "1.0.2"
edition = "2021"
publish = false

[dependencies]
chrono = "0.4"
nix = { version = "0.29", features = ["signal", "socket", "user"] }
serde = { version = "1", features = ["derive"] }
toml = "0.8"
