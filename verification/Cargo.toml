[package]
name = "ggml_loader"
version = "0.1.0"
edition = "2021"
publish = false

[dependencies]
clap = { version = "*", features = ["derive"] }
log = "*"
rand = "*"
rustyline = "*"
serde = { version = "*", features = ["derive"] }
spinners = "*"
thiserror = "*"
