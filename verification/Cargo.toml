[package]
name = "disc-remuxer"
version = "0.1.0"
edition = "2021"
publish = false

[dependencies]
anyhow = "1"
clap = { version = "4", features = ["derive"] }
flexi_logger = "0.31"
log = "0.4"
sha2 = "0.10"
thiserror = "2"
